//! Fan values, frequency settings, firmware parsing and error reporting.

use hashchain::error::Error;
use hashchain::fan::Feedback;
use hashchain::fan::Speed;
use hashchain::pll::PllFrequency;
use hashchain::power::parse_line;
use hashchain::power::PicProgram;
use hashchain::registers::MiscCtrlReg;
use hashchain::registers::TicketMaskReg;
use hashchain::FrequencySettings;
use hashchain::EXPECTED_CHIPS_ON_CHAIN;

#[test]
fn test_fan_speed() {
    assert_eq!(Speed::stopped().to_pwm(), 0);
    assert_eq!(Speed::full_speed().to_pwm(), 100);
    assert_eq!(Speed::new(70).to_pwm(), 70);
}

#[test]
fn test_feedback_from_rps() {
    let fb = Feedback::from_rps(&vec![0, 20, 100]);
    assert_eq!(fb.rpm, vec![0, 1200, 6000]);
    assert_eq!(fb.num_fans_running(), 2);
}

#[test]
fn test_feedback_fan_count() {
    assert_eq!(Feedback { rpm: vec![50, 0, 11, 0, 0] }.num_fans_running(), 2);
    assert_eq!(Feedback { rpm: vec![0, 0, 0, 0, 0] }.num_fans_running(), 0);
    assert_eq!(Feedback { rpm: Vec::new() }.num_fans_running(), 0);
}

#[test]
fn test_frequency_settings() {
    let mut s = FrequencySettings::from_frequency(650_000_000);
    assert_eq!(s.chip.len(), EXPECTED_CHIPS_ON_CHAIN);
    assert_eq!(s.total(), 650_000_000u64 * EXPECTED_CHIPS_ON_CHAIN as u64);
    assert_eq!(s.min(), 650_000_000);
    assert_eq!(s.max(), 650_000_000);
    assert_eq!(s.avg(), 650_000_000);
    s.set_chip_count(3);
    assert_eq!(s.chip.len(), 3);
    s.chip[0] = 100;
    s.chip[1] = 200;
    s.chip[2] = 600;
    assert_eq!(s.total(), 900);
    assert_eq!(s.min(), 100);
    assert_eq!(s.max(), 600);
    assert_eq!(s.avg(), 300);
}

#[test]
fn test_parse_line_values() {
    assert_eq!(parse_line("3FFF"), Ok(0x3fff));
    assert_eq!(parse_line("2aaa"), Ok(0x2aaa));
    assert_eq!(parse_line("+10"), Ok(0x10));
    assert_eq!(parse_line("0"), Ok(0));
    assert_eq!(parse_line("ffffffff"), Ok(0xffffffff));
}

#[test]
fn test_parse_line_rejects() {
    assert_eq!(parse_line(""), Err(Error::Hex));
    assert_eq!(parse_line("+"), Err(Error::Hex));
    assert_eq!(parse_line("12g4"), Err(Error::Hex));
    // Nine hex digits no longer fit 32 bits.
    assert_eq!(parse_line("100000000"), Err(Error::Hex));
}

#[test]
fn test_pic_program_size() {
    let good = vec![0u8; 6400];
    let prog = PicProgram::from_bytes(good).expect("image of the right size");
    assert_eq!(prog.load_addr.0, 0x0300);
    assert_eq!(prog.prog_size.0, 0x0c80);
    assert_eq!(prog.prog_size.to_bytes(), 6400);
    assert_eq!(prog.bytes.len(), 6400);

    let bad = vec![0u8; 6399];
    assert_eq!(
        PicProgram::from_bytes(bad).err(),
        Some(Error::ProgramSize(6399))
    );
}

#[test]
fn test_error_variants() {
    assert_eq!(TicketMaskReg::new(0).err(), Some(Error::Difficulty(0)));
    assert_eq!(TicketMaskReg::new(2047).err(), Some(Error::Difficulty(2047)));
    assert_eq!(
        MiscCtrlReg::new(false, false, 27, false, false).err(),
        Some(Error::BaudRate(27))
    );
    let table = PllFrequency::precompute_pll_table(25_000_000);
    assert_eq!(
        PllFrequency::lookup_freq(&table, 0).err(),
        Some(Error::Frequency(0))
    );
}
