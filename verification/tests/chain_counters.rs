//! Counter hierarchy tests: attribution, scaling by difficulty, silent
//! discard of out-of-range addresses, reset and snapshot independence.

use hashchain::bm1387::CoreAddress;
use hashchain::counters::HashChain;
use hashchain::pll::PllFrequency;

#[test]
fn test_add_valid_scales_by_difficulty() {
    let mut chain = HashChain::new(8, 64);
    let addr = CoreAddress { chip: 3, core: 17 };
    chain.add_valid(addr);
    assert_eq!(chain.valid, 64);
    assert_eq!(chain.chip[3].valid, 64);
    assert_eq!(chain.chip[3].core[17].valid, 64);
    assert_eq!(chain.errors, 0);
    assert_eq!(chain.chip[3].errors, 0);
    chain.add_valid(addr);
    assert_eq!(chain.valid, 128);
    assert_eq!(chain.chip[3].valid, 128);
    assert_eq!(chain.chip[3].core[17].valid, 128);
    // Other chips and cores stay untouched.
    assert_eq!(chain.chip[2].valid, 0);
    assert_eq!(chain.chip[3].core[16].valid, 0);
}

#[test]
fn test_add_error_increments_by_one() {
    let mut chain = HashChain::new(8, 64);
    let addr = CoreAddress { chip: 1, core: 2 };
    chain.add_error(addr);
    assert_eq!(chain.errors, 1);
    assert_eq!(chain.chip[1].errors, 1);
    assert_eq!(chain.chip[1].core[2].errors, 1);
    assert_eq!(chain.valid, 0);
    assert_eq!(chain.chip[1].valid, 0);
}

#[test]
fn test_out_of_range_chip_is_discarded() {
    let mut chain = HashChain::new(4, 64);
    let addr = CoreAddress { chip: 4, core: 0 };
    chain.add_valid(addr);
    chain.add_error(addr);
    assert_eq!(chain.valid, 0);
    assert_eq!(chain.errors, 0);
    for chip in chain.chip.iter() {
        assert_eq!(chip.valid, 0);
        assert_eq!(chip.errors, 0);
    }
}

#[test]
fn test_reset_zeroes_every_level() {
    let mut chain = HashChain::new(4, 7);
    chain.add_valid(CoreAddress { chip: 0, core: 0 });
    chain.add_valid(CoreAddress { chip: 3, core: 127 });
    chain.add_error(CoreAddress { chip: 2, core: 5 });
    chain.reset();
    assert_eq!(chain.valid, 0);
    assert_eq!(chain.errors, 0);
    for chip in chain.chip.iter() {
        assert_eq!(chip.valid, 0);
        assert_eq!(chip.errors, 0);
        for core in chip.core.iter() {
            assert_eq!(core.valid, 0);
            assert_eq!(core.errors, 0);
        }
    }
}

#[test]
fn test_set_chip_count_resizes_with_zero_padding() {
    let mut chain = HashChain::new(2, 1);
    chain.add_valid(CoreAddress { chip: 1, core: 0 });
    chain.set_chip_count(5);
    assert_eq!(chain.chip_count(), 5);
    assert_eq!(chain.chip[1].valid, 1);
    for chip in chain.chip[2..].iter() {
        assert_eq!(chip.valid, 0);
        assert_eq!(chip.errors, 0);
    }
    chain.set_chip_count(1);
    assert_eq!(chain.chip_count(), 1);
    // Chain totals are kept even when chips with counts are dropped.
    assert_eq!(chain.valid, 1);
}

#[test]
fn test_snapshot_freezes_duration() {
    let mut chain = HashChain::new(4, 64);
    chain.add_valid(CoreAddress { chip: 0, core: 1 });
    let first = chain.snapshot();
    assert_eq!(first.valid, 64);
    assert!(first.stopped.is_some());
    assert!(chain.stopped.is_none());
    // A snapshot's window no longer advances.
    let frozen = first.duration();
    assert_eq!(first.duration(), frozen);
    // Spend some real time, then snapshot again: the live chain keeps
    // counting and the second window cannot be shorter.
    let table = PllFrequency::precompute_pll_table(25_000_000);
    assert!(!table.is_empty());
    chain.add_valid(CoreAddress { chip: 0, core: 1 });
    let second = chain.snapshot();
    assert_eq!(second.valid, 128);
    assert_eq!(first.valid, 64);
    assert!(second.duration() >= frozen);
    assert_eq!(first.duration(), frozen);
}
