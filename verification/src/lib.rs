//! User-space control core for a BM1387-class ASIC hash chain.
//!
//! The library turns configuration intents (target frequency, difficulty,
//! chip addressing, midstate count) into the exact byte sequences the chip's
//! command bus understands, and decodes returned nonces into per-chip and
//! per-core coordinates for health and throughput accounting.
//!
//! The physical transport, GPIO, fan PID control, voltage-regulator flashing
//! and process wiring are external collaborators: they only move the bytes
//! this core produces and consumes.

use vstd::prelude::*;

pub mod bm1387;
pub mod counters;
pub mod error;
pub mod fan;
pub mod pll;
pub mod power;
pub mod registers;

verus! {

/// Maximum number of chips on one chain: the hardware address field is eight
/// bits wide and addresses are assigned with a step of four.
pub const MAX_CHIPS_ON_CHAIN: usize = 64;

/// Number of chips a healthy chain is expected to enumerate.
pub const EXPECTED_CHIPS_ON_CHAIN: usize = 63;

/// Oscillator speed for all chips on the hash boards, in Hz.
pub const CHIP_OSC_CLK_HZ: usize = 25_000_000;

/// Core address space size: the chip has 114 cores, but the core addresses
/// decoded out of nonces are non-consecutive within this range.
pub const CORE_ADR_SPACE_SIZE: usize = 128;

/// Sum of a sequence of per-chip frequencies, in Hz.
pub open spec fn sum_freq(s: Seq<usize>) -> int
    decreases s.len(),
{
    if s.len() == 0 {
        0
    } else {
        sum_freq(s.drop_last()) + s.last()
    }
}

/// Per-chip frequency settings for one chain.
#[derive(Clone, Debug)]
pub struct FrequencySettings {
    pub chip: Vec<usize>,
}

impl FrequencySettings {
    /// Build frequency settings with all chips running at the same frequency.
    pub fn from_frequency(frequency: usize) -> (r: Self)
        ensures
            r.chip@.len() == EXPECTED_CHIPS_ON_CHAIN,
            forall|i: int| 0 <= i < r.chip@.len() ==> r.chip@[i] == frequency,
    {
        let mut chip: Vec<usize> = Vec::new();
        let mut i: usize = 0;
        while i < EXPECTED_CHIPS_ON_CHAIN
            invariant
                i <= EXPECTED_CHIPS_ON_CHAIN,
                chip@.len() == i,
                forall|k: int| 0 <= k < i ==> chip@[k] == frequency,
            decreases EXPECTED_CHIPS_ON_CHAIN - i,
        {
            chip.push(frequency);
            i = i + 1;
        }
        Self { chip }
    }

    /// Shrink the per-chip table to the number of chips actually enumerated.
    pub fn set_chip_count(&mut self, chip_count: usize)
        requires
            old(self).chip@.len() >= chip_count,
        ensures
            final(self).chip@ == old(self).chip@.take(chip_count as int),
    {
        self.chip.truncate(chip_count);
    }

    /// Total of all per-chip frequencies, in Hz.
    pub fn total(&self) -> (r: u64)
        requires
            sum_freq(self.chip@) <= u64::MAX,
        ensures
            r == sum_freq(self.chip@),
    {
        let mut total: u64 = 0;
        let mut i: usize = 0;
        while i < self.chip.len()
            invariant
                i <= self.chip@.len(),
                total == sum_freq(self.chip@.take(i as int)),
                sum_freq(self.chip@) <= u64::MAX,
            decreases self.chip@.len() - i,
        {
            proof {
                lemma_sum_freq_take_step(self.chip@, i as int);
                lemma_sum_freq_prefix_le(self.chip@, i + 1);
            }
            total = total + (self.chip[i] as u64);
            i = i + 1;
        }
        proof {
            assert(self.chip@.take(self.chip@.len() as int) == self.chip@);
        }
        total
    }

    /// Smallest per-chip frequency.
    pub fn min(&self) -> (r: usize)
        requires
            self.chip@.len() > 0,
        ensures
            self.chip@.contains(r),
            forall|i: int| 0 <= i < self.chip@.len() ==> r <= self.chip@[i],
    {
        let mut best: usize = self.chip[0];
        let mut i: usize = 1;
        assert(self.chip@.contains(self.chip@[0]));
        while i < self.chip.len()
            invariant
                1 <= i <= self.chip@.len(),
                self.chip@.contains(best),
                forall|k: int| 0 <= k < i ==> best <= self.chip@[k],
            decreases self.chip@.len() - i,
        {
            if self.chip[i] < best {
                best = self.chip[i];
                assert(self.chip@.contains(self.chip@[i as int]));
            }
            i = i + 1;
        }
        best
    }

    /// Largest per-chip frequency.
    pub fn max(&self) -> (r: usize)
        requires
            self.chip@.len() > 0,
        ensures
            self.chip@.contains(r),
            forall|i: int| 0 <= i < self.chip@.len() ==> r >= self.chip@[i],
    {
        let mut best: usize = self.chip[0];
        let mut i: usize = 1;
        assert(self.chip@.contains(self.chip@[0]));
        while i < self.chip.len()
            invariant
                1 <= i <= self.chip@.len(),
                self.chip@.contains(best),
                forall|k: int| 0 <= k < i ==> best >= self.chip@[k],
            decreases self.chip@.len() - i,
        {
            if self.chip[i] > best {
                best = self.chip[i];
                assert(self.chip@.contains(self.chip@[i as int]));
            }
            i = i + 1;
        }
        best
    }

    /// Average per-chip frequency, rounded down.
    pub fn avg(&self) -> (r: usize)
        requires
            self.chip@.len() > 0,
            sum_freq(self.chip@) <= u64::MAX,
        ensures
            r == sum_freq(self.chip@) / (self.chip@.len() as int),
    {
        let n = self.chip.len();
        let sum = self.total();
        let avg = sum / (n as u64);
        proof {
            let m = max_elem(self.chip@);
            lemma_sum_freq_le_len_times_max(self.chip@, m);
            vstd::arithmetic::div_mod::lemma_div_is_ordered(
                sum_freq(self.chip@),
                self.chip@.len() * m,
                self.chip@.len() as int,
            );
            vstd::arithmetic::div_mod::lemma_div_multiples_vanish(
                m as int,
                self.chip@.len() as int,
            );
        }
        avg as usize
    }
}

/// Some element of `s` that no element exceeds.
spec fn max_elem(s: Seq<usize>) -> usize
    decreases s.len(),
{
    if s.len() <= 1 {
        s[0]
    } else if s.last() >= max_elem(s.drop_last()) {
        s.last()
    } else {
        max_elem(s.drop_last())
    }
}

proof fn lemma_max_elem_bounds(s: Seq<usize>)
    requires
        s.len() > 0,
    ensures
        forall|i: int| 0 <= i < s.len() ==> s[i] <= max_elem(s),
    decreases s.len(),
{
    if s.len() > 1 {
        lemma_max_elem_bounds(s.drop_last());
        assert forall|i: int| 0 <= i < s.len() implies s[i] <= max_elem(s) by {
            if i < s.len() - 1 {
                assert(s.drop_last()[i] == s[i]);
            }
        }
    }
}

proof fn lemma_sum_freq_le_len_times_max(s: Seq<usize>, m: usize)
    requires
        s.len() > 0,
        m == max_elem(s),
    ensures
        sum_freq(s) <= s.len() * m,
    decreases s.len(),
{
    lemma_max_elem_bounds(s);
    if s.len() == 1 {
        assert(sum_freq(s) == sum_freq(s.drop_last()) + s.last());
        assert(sum_freq(s.drop_last()) == 0);
    } else {
        let d = s.drop_last();
        let md = max_elem(d);
        lemma_sum_freq_le_len_times_max(d, md);
        lemma_max_elem_bounds(d);
        assert(d.contains(md)) by {
            lemma_max_elem_contained(d);
        }
        let j = choose|j: int| 0 <= j < d.len() && d[j] == md;
        assert(s[j] == md);
        assert(md <= m);
        assert(sum_freq(d) <= d.len() * md);
        vstd::arithmetic::mul::lemma_mul_inequality(md as int, m as int, d.len() as int);
        assert(d.len() * md == md * d.len()) by (nonlinear_arith);
        assert(d.len() * m == m * d.len()) by (nonlinear_arith);
        assert(s.len() * m == d.len() * m + m) by (nonlinear_arith)
            requires s.len() == d.len() + 1;
    }
}

proof fn lemma_max_elem_contained(s: Seq<usize>)
    requires
        s.len() > 0,
    ensures
        s.contains(max_elem(s)),
    decreases s.len(),
{
    if s.len() == 1 {
        assert(s[0] == max_elem(s));
    } else if s.last() >= max_elem(s.drop_last()) {
        assert(s[s.len() - 1] == max_elem(s));
    } else {
        lemma_max_elem_contained(s.drop_last());
        let j = choose|j: int| 0 <= j < s.drop_last().len() && s.drop_last()[j] == max_elem(s.drop_last());
        assert(s[j] == max_elem(s));
    }
}

proof fn lemma_sum_freq_take_step(s: Seq<usize>, i: int)
    requires
        0 <= i < s.len(),
    ensures
        sum_freq(s.take(i + 1)) == sum_freq(s.take(i)) + s[i],
{
    assert(s.take(i + 1).drop_last() == s.take(i));
    assert(s.take(i + 1).last() == s[i]);
}

/// Partial sums never exceed the whole: every element is non-negative.
proof fn lemma_sum_freq_prefix_le(s: Seq<usize>, i: int)
    requires
        0 <= i <= s.len(),
    ensures
        sum_freq(s.take(i)) <= sum_freq(s),
    decreases s.len() - i,
{
    if i < s.len() {
        lemma_sum_freq_take_step(s, i);
        lemma_sum_freq_prefix_le(s, i + 1);
    } else {
        assert(s.take(i) == s);
    }
}

} // verus!
