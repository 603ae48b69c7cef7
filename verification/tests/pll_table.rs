//! PLL synthesizer tests: divider arithmetic, table shape and lookup.

use hashchain::pll::PllFrequency;
use hashchain::registers::PllReg;
use hashchain::registers::Register;

/// Default S9 clock frequency.
const DEFAULT_XTAL_FREQ: usize = 25_000_000;

/// Test serialization and evaluation of one PLL divider.
fn try_one_divider(freq: usize, reg: u32, fbdiv: u8, refdiv: u8, postdiv1: u8, postdiv2: u8) {
    let pll = PllReg { fbdiv, refdiv, postdiv1, postdiv2 };
    let xin = DEFAULT_XTAL_FREQ;
    assert_eq!(pll.calc(xin), freq);
    assert_eq!(pll.calculate_error(xin, freq - 500), 500);
    assert_eq!(pll.to_reg(), reg);
}

#[test]
fn test_pll_computation() {
    try_one_divider(100_000_000, 0x200241, 0x20, 2, 4, 1);
    try_one_divider(375_000_000, 0x780241, 0x78, 2, 4, 1);
    try_one_divider(431_250_000, 0x450221, 0x45, 2, 2, 1);
    try_one_divider(466_666_666, 0x700231, 0x70, 2, 3, 1);
    try_one_divider(500_000_000, 0x500221, 0x50, 2, 2, 1);
    try_one_divider(593_750_000, 0x5f0221, 0x5f, 2, 2, 1);
    try_one_divider(650_000_000, 0x680221, 0x68, 2, 2, 1);
    try_one_divider(718_750_000, 0x730221, 0x73, 2, 2, 1);
    try_one_divider(1000_000_000, 0x500211, 0x50, 2, 1, 1);
    try_one_divider(1175_000_000, 0x5e0211, 0x5e, 2, 1, 1);
}

fn lookup_one(table: &Vec<PllFrequency>, freq: usize) -> Option<usize> {
    if let Ok(PllFrequency { frequency, reg }) = PllFrequency::lookup_freq(table, freq) {
        // The found frequency and PLL register have to match.
        assert_eq!(reg.calc(DEFAULT_XTAL_FREQ), frequency);
        Some(frequency)
    } else {
        None
    }
}

#[test]
fn test_pll_search() {
    let table = PllFrequency::precompute_pll_table(DEFAULT_XTAL_FREQ);
    // boundary conditions
    assert_eq!(lookup_one(&table, 100_000_000), Some(100_000_000));
    assert_eq!(lookup_one(&table, 1_200_000_000), Some(1_200_000_000));
    // should fail: too low
    assert_eq!(lookup_one(&table, 0), None);
    assert_eq!(lookup_one(&table, 50_000_000), None);
    assert_eq!(lookup_one(&table, 99_999_999), None);
    // should fail: too high
    assert_eq!(lookup_one(&table, 1_200_000_001), None);
    assert_eq!(lookup_one(&table, 4_000_000_000), None);
    // approximate lookups
    assert_eq!(lookup_one(&table, 216_000_000), Some(216_071_428));
    assert_eq!(lookup_one(&table, 217_400_000), Some(217_307_692));
    assert_eq!(lookup_one(&table, 217_700_000), Some(217_857_142));
    assert_eq!(lookup_one(&table, 1_081_250_000), Some(1_075_000_000));
    assert_eq!(lookup_one(&table, 1_081_250_001), Some(1_087_500_000));
    // exact lookups
    assert_eq!(lookup_one(&table, 650_000_000), Some(650_000_000));
    assert_eq!(lookup_one(&table, 1_033_333_333), Some(1_033_333_333));
}

/// The synthesized table is strictly ascending by frequency, every entry
/// rounds to a distinct MHz bin in the supported range, and every entry's
/// frequency is what its divider really produces.
#[test]
fn test_pll_table_shape() {
    let table = PllFrequency::precompute_pll_table(DEFAULT_XTAL_FREQ);
    assert!(!table.is_empty());
    let mut last_bin: Option<usize> = None;
    let mut last_freq: Option<usize> = None;
    for entry in table.iter() {
        if let Some(prev) = last_freq {
            assert!(prev < entry.frequency);
        }
        let bin = (entry.frequency + 500_000) / 1_000_000;
        assert!((100..=1200).contains(&bin));
        if let Some(prev) = last_bin {
            assert!(prev < bin);
        }
        assert_eq!(entry.reg.calc(DEFAULT_XTAL_FREQ), entry.frequency);
        let r = entry.reg;
        assert!((1..=7).contains(&r.postdiv1));
        assert!((1..=63).contains(&r.refdiv));
        assert!((1..=r.postdiv1).contains(&r.postdiv2));
        assert!((32..=127).contains(&r.fbdiv));
        last_bin = Some(bin);
        last_freq = Some(entry.frequency);
    }
}
