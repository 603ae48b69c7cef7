//! Command codec and addressing tests against the wire format.

use hashchain::bm1387::ChipAddress;
use hashchain::bm1387::CmdResponse;
use hashchain::bm1387::CoreAddress;
use hashchain::bm1387::GetStatusCmd;
use hashchain::bm1387::InactivateFromChainCmd;
use hashchain::bm1387::MidstateCode;
use hashchain::bm1387::MidstateCount;
use hashchain::bm1387::SetChipAddressCmd;
use hashchain::bm1387::SetConfigCmd;
use hashchain::registers::GetAddressReg;
use hashchain::registers::I2cBusSelect;
use hashchain::registers::MiscCtrlReg;
use hashchain::registers::PllReg;
use hashchain::registers::Register;
use hashchain::registers::RfSelector;
use hashchain::registers::TfSelector;
use hashchain::registers::TicketMaskReg;

/// Test chip address construction.
#[test]
fn test_chip_address() {
    let all = ChipAddress::All;
    assert!(all.is_broadcast());
    assert_eq!(all.to_hw_addr(), 0);

    let one = ChipAddress::One(9);
    assert!(!one.is_broadcast());
    assert_eq!(one.to_hw_addr(), 0x24);
}

/// Builds a sample set_config command (here the PLL register @ 0x0c with a
/// value of 0x00680221) and verifies correct serialization.
#[test]
fn build_set_config_cmd_pll() {
    let cmd = SetConfigCmd::new(ChipAddress::One(9), PllReg::reg_num(), 0x680221);
    let expected_cmd_with_padding = [0x48u8, 0x09, 0x24, PllReg::reg_num(), 0x00, 0x68, 0x02, 0x21];
    let cmd_bytes = cmd.pack();
    assert_eq!(cmd_bytes, expected_cmd_with_padding);
}

/// Verify serialization of SetConfig(Difficulty=64) command.
#[test]
fn build_set_config_ticket_mask() {
    let reg = TicketMaskReg::new(64).expect("Cannot build difficulty register");
    let cmd = SetConfigCmd::new(ChipAddress::All, TicketMaskReg::reg_num(), reg.to_reg());
    let expected_cmd_with_padding = [0x58u8, 0x09, 0x00, 0x18, 0x00, 0x00, 0x00, 0xfc];
    let cmd_bytes = cmd.pack();
    assert_eq!(cmd_bytes, expected_cmd_with_padding);
}

/// Verify serialization of SetConfig(MISC_CONTROL(...)) command.
#[test]
fn build_set_config_misc_control() {
    let reg = MiscCtrlReg {
        not_set_baud: true,
        inv_clock: true,
        baud_div: 26,
        gate_block: true,
        mmen: true,
        tfs: TfSelector::HashDoing,
        rfs: RfSelector::OpenDrain,
        i2c_bus: I2cBusSelect::Bottom,
    };
    let cmd = SetConfigCmd::new(ChipAddress::All, MiscCtrlReg::reg_num(), reg.to_reg());
    let expected_cmd_with_padding = [0x58u8, 0x09, 0x00, 0x1c, 0x40, 0x20, 0x9a, 0x80];
    let cmd_bytes = cmd.pack();
    assert_eq!(cmd_bytes, expected_cmd_with_padding);
    // The MiscCtrlReg constructor should build the same structure.
    assert_eq!(reg, MiscCtrlReg::new(true, true, 26, true, true).expect("invalid divisor"));
}

/// Verify serialization of SetConfig(MISC_CONTROL(...)) command for I2C.
#[test]
fn build_set_config_misc_control_i2c() {
    let reg = MiscCtrlReg {
        not_set_baud: true,
        inv_clock: true,
        baud_div: 26,
        gate_block: false,
        tfs: TfSelector::SCL0,
        rfs: RfSelector::SDA0,
        i2c_bus: I2cBusSelect::Bottom,
        mmen: true,
    };
    let cmd = SetConfigCmd::new(ChipAddress::All, MiscCtrlReg::reg_num(), reg.to_reg());
    let expected_cmd_with_padding = [0x58u8, 0x09, 0x00, 0x1c, 0x40, 0x20, 0x5a, 0xe0];
    let cmd_bytes = cmd.pack();
    assert_eq!(cmd_bytes, expected_cmd_with_padding);
    // The MiscCtrlReg constructor plus set_i2c should build the same structure.
    let mut misc_reg = MiscCtrlReg::new(true, true, 26, false, true).expect("invalid divisor");
    misc_reg.set_i2c(Some(I2cBusSelect::Bottom));
    assert_eq!(reg, misc_reg);
}

/// Builds a get status command to read chip address of all chips.
#[test]
fn build_get_status_cmd() {
    let cmd = GetStatusCmd::new(ChipAddress::All, GetAddressReg::reg_num());
    let expected_cmd_with_padding = [0x54u8, 0x05, 0x00, 0x00];
    let cmd_bytes = cmd.pack();
    assert_eq!(cmd_bytes, expected_cmd_with_padding);
}

#[test]
fn build_inactivate_from_chain_cmd() {
    let cmd = InactivateFromChainCmd::new();
    let expected_cmd_with_padding = [0x55u8, 0x05, 0x00, 0x00];
    let cmd_bytes = cmd.pack();
    assert_eq!(cmd_bytes, expected_cmd_with_padding);
}

#[test]
fn build_set_chip_address_cmd() {
    let cmd = SetChipAddressCmd::new(ChipAddress::One(1));
    let expected_cmd_with_padding = [0x41u8, 0x05, 0x04, 0x00];
    let cmd_bytes = cmd.pack();
    assert_eq!(cmd_bytes, expected_cmd_with_padding);
}

#[test]
fn test_core_address() {
    assert_eq!(CoreAddress::new(0xffffffff), CoreAddress { chip: 0x3f, core: 0x7f });
    assert_eq!(CoreAddress::new(0x2a105d5d), CoreAddress { chip: 23, core: 42 });
    assert_eq!(CoreAddress::new(0xd25738d3), CoreAddress { chip: 52, core: 82 });
    assert_eq!(CoreAddress::new(0x47268d19), CoreAddress { chip: 6, core: 71 });
    assert_eq!(CoreAddress::new(0xa5e09223), CoreAddress { chip: 8, core: 37 });
    assert_eq!(CoreAddress::new(0xd57c1ce4), CoreAddress { chip: 57, core: 85 });
    assert_eq!(CoreAddress::new(0x40e55650), CoreAddress { chip: 20, core: 64 });
}

#[test]
fn test_midstate_count_instance() {
    MidstateCount::new(1);
    MidstateCount::new(2);
    MidstateCount::new(4);
}

#[test]
fn test_midstate_count_conversion() {
    assert_eq!(MidstateCount::new(4).to_mask(), 3);
    assert_eq!(MidstateCount::new(2).to_count(), 2);
    assert_eq!(MidstateCount::new(4).to_reg(), MidstateCode::Four);
    assert_eq!(MidstateCount::new(1).to_bits(), 0);
    assert_eq!(MidstateCount::new(4).to_bits(), 2);
}

#[test]
fn test_cmd_response_value() {
    let resp = CmdResponse::from_bytes(&[0x13, 0x87, 0x90, 0x04, 0x00, 0x00]);
    assert_eq!(resp.value, 0x13879004);
}

#[test]
fn test_broadcast_header_flag() {
    let one = SetConfigCmd::new(ChipAddress::One(0), 0x18, 0);
    assert_eq!(one.pack()[0], 0x48);
    let all = SetConfigCmd::new(ChipAddress::All, 0x18, 0);
    assert_eq!(all.pack()[0], 0x58);
}
