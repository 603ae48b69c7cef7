//! Register layout tests: byte-exact packing, total unpacking with the
//! raw fallback arm, and the pack/unpack round trip on sample values.

use hashchain::registers::ChipRev;
use hashchain::registers::GetAddressReg;
use hashchain::registers::HashrateReg;
use hashchain::registers::I2cBusSelect;
use hashchain::registers::I2cControlFlags;
use hashchain::registers::I2cControlReg;
use hashchain::registers::MiscCtrlReg;
use hashchain::registers::PllReg;
use hashchain::registers::Register;
use hashchain::registers::RfSelector;
use hashchain::registers::TfSelector;
use hashchain::registers::TicketMaskReg;

#[test]
fn build_chip_addr_reg() {
    let reg = GetAddressReg { chip_rev: ChipRev::Bm1387, reserved1: 0x90, addr: 0x00 };
    let expected_reg = [0x13u8, 0x87, 0x90, 0x00];
    let reg_bytes = reg.to_reg().to_be_bytes();
    assert_eq!(reg_bytes, expected_reg);
}

#[test]
fn test_broken_chip_addr_value() {
    // Intentionally specify an incorrect/unsupported chip version.
    let broken_reg_bytes = [0x13u8, 0x86, 0x90, 0x04];
    let reg = GetAddressReg::from_reg(u32::from_be_bytes(broken_reg_bytes));
    // Unpack succeeds with the raw fallback arm filled.
    assert_eq!(reg.chip_rev, ChipRev::Raw(0x1386));
    assert_eq!(reg.addr, 0x04);
}

#[test]
fn build_misc_control_reg() {
    let reg = MiscCtrlReg {
        not_set_baud: true,
        inv_clock: true,
        baud_div: 26,
        gate_block: true,
        mmen: true,
        tfs: TfSelector::HashDoing,
        rfs: RfSelector::OpenDrain,
        i2c_bus: I2cBusSelect::Bottom,
    };
    let expected_reg_msb = [0x40u8, 0x20, 0x9a, 0x80];
    let reg_bytes = reg.to_reg().to_be_bytes();
    assert_eq!(reg_bytes, expected_reg_msb);
}

#[test]
fn test_misc_control_reg_to_u32() {
    let reg = MiscCtrlReg {
        not_set_baud: true,
        inv_clock: true,
        baud_div: 26,
        gate_block: true,
        mmen: true,
        tfs: TfSelector::HashDoing,
        rfs: RfSelector::OpenDrain,
        i2c_bus: I2cBusSelect::Bottom,
    };
    let expected_reg_value = 0x40209a80u32;
    let reg_value: u32 = reg.to_reg();
    assert_eq!(reg_value, expected_reg_value);
}

#[test]
fn test_invalid_ticket_mask_reg() {
    assert!(TicketMaskReg::new(0).is_err());
    assert!(TicketMaskReg::new(1).is_ok());
    assert!(TicketMaskReg::new(2047).is_err());
    assert!(TicketMaskReg::new(2048).is_ok());
}

#[test]
fn test_ticket_mask_reg_to_u32() {
    assert_eq!(TicketMaskReg::new(64).expect("Cannot build difficulty register").to_reg(), 0xfcu32);
    assert_eq!(
        TicketMaskReg::new(2048).expect("Cannot build difficulty register").to_reg(),
        0xe0ffu32
    );
}

#[test]
fn test_hashrate_reg() {
    let reg = HashrateReg { hashrate24: 0x23 };
    assert_eq!(reg.to_reg().to_be_bytes(), [0x00, 0x00, 0x00, 0x23]);
    assert_eq!(reg.to_reg(), 0x23);
    assert_eq!(reg.hashrate(), 0x23000000);
}

#[test]
fn test_i2c_control_reg_layout() {
    let reg = I2cControlReg {
        flags: I2cControlFlags { busy: true, do_command: true },
        addr: 0xa4,
        reg: 0x18,
        data: 0x5a,
    };
    assert_eq!(reg.to_reg(), 0x81a4185a);
    assert_eq!(I2cControlReg::from_reg(0x81a4185a), reg);
}

#[test]
fn test_register_numbers() {
    assert_eq!(GetAddressReg::reg_num(), 0x00);
    assert_eq!(HashrateReg::reg_num(), 0x08);
    assert_eq!(PllReg::reg_num(), 0x0c);
    assert_eq!(TicketMaskReg::reg_num(), 0x18);
    assert_eq!(MiscCtrlReg::reg_num(), 0x1c);
    assert_eq!(I2cControlReg::reg_num(), 0x20);
}

#[test]
fn test_round_trip_hashrate() {
    let reg = HashrateReg { hashrate24: 0xdeadbeef };
    assert_eq!(HashrateReg::from_reg(reg.to_reg()), reg);
}

#[test]
fn test_round_trip_ticket_mask() {
    let reg = TicketMaskReg::new(4096).expect("difficulty register");
    assert_eq!(TicketMaskReg::from_reg(reg.to_reg()), reg);
}

#[test]
fn test_round_trip_misc_control() {
    let reg = MiscCtrlReg {
        not_set_baud: false,
        inv_clock: true,
        baud_div: 31,
        gate_block: false,
        mmen: true,
        tfs: TfSelector::UartTransmitting,
        rfs: RfSelector::SDA0,
        i2c_bus: I2cBusSelect::Middle,
    };
    assert_eq!(MiscCtrlReg::from_reg(reg.to_reg()), reg);
}

#[test]
fn test_round_trip_pll() {
    let reg = PllReg { fbdiv: 0x68, refdiv: 2, postdiv1: 2, postdiv2: 1 };
    assert_eq!(PllReg::from_reg(reg.to_reg()), reg);
}

#[test]
fn test_round_trip_get_address() {
    let known = GetAddressReg { chip_rev: ChipRev::Bm1387, reserved1: 0, addr: 0x3c };
    assert_eq!(GetAddressReg::from_reg(known.to_reg()), known);
    let raw = GetAddressReg { chip_rev: ChipRev::Raw(0x1391), reserved1: 7, addr: 0xff };
    assert_eq!(GetAddressReg::from_reg(raw.to_reg()), raw);
}

#[test]
fn test_round_trip_i2c_control() {
    let reg = I2cControlReg {
        flags: I2cControlFlags { busy: false, do_command: true },
        addr: 1,
        reg: 2,
        data: 3,
    };
    assert_eq!(I2cControlReg::from_reg(reg.to_reg()), reg);
}

#[test]
fn test_chip_rev_default() {
    assert_eq!(ChipRev::default(), ChipRev::Bm1387);
}

/// `set_i2c` is the modify step of a read-modify-write cycle: switching to
/// I2C and back only touches the pin multiplexing and the two
/// initialization flags, everything else read from the chip survives.
#[test]
fn test_set_i2c_round_modify() {
    let from_chip = MiscCtrlReg::from_reg(0x4020_9a80);
    let mut reg = from_chip;
    reg.set_i2c(Some(I2cBusSelect::Middle));
    assert_eq!(reg.tfs, TfSelector::SCL0);
    assert_eq!(reg.rfs, RfSelector::SDA0);
    assert_eq!(reg.i2c_bus, I2cBusSelect::Middle);
    assert_eq!(reg.baud_div, from_chip.baud_div);
    assert_eq!(reg.inv_clock, from_chip.inv_clock);
    assert_eq!(reg.mmen, from_chip.mmen);
    assert!(reg.not_set_baud);
    assert!(!reg.gate_block);
    reg.set_i2c(None);
    assert_eq!(reg.tfs, TfSelector::HashDoing);
    assert_eq!(reg.rfs, RfSelector::OpenDrain);
    assert_eq!(reg.i2c_bus, I2cBusSelect::Bottom);
    assert_eq!(reg.baud_div, from_chip.baud_div);
}
