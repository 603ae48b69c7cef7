//! Nonce and error counters for estimating hashrate.
//!
//! Counters form a hierarchy: each chain owns its chips, each chip owns a
//! fixed array of core counters, and events are attributed by the chip and
//! core coordinates decoded out of a nonce. The `valid` counters grow in
//! shares (an accepted share counts `asic_difficulty` expected hash
//! attempts); `errors` count event instances, one each.
//!
//! An event whose chip index lies outside the configured chip array is
//! silently discarded: spurious or late nonces from a chain that is still
//! enumerating are expected and harmless.

use vstd::prelude::*;

use crate::bm1387::CoreAddress;
use crate::CORE_ADR_SPACE_SIZE;
use std::time::Duration;
use std::time::Instant;

verus! {

#[verifier::external_type_specification]
#[verifier::external_body]
pub struct ExInstant(Instant);

/// Relies on `std::time::Instant::now`: an opaque monotonic timestamp.
/// Nothing is assumed about its value.
#[verifier::external_body]
fn instant_now() -> Instant {
    Instant::now()
}

/// Relies on `std::time::Instant::duration_since`: the time elapsed from
/// `earlier` to `later`, or zero if `earlier` is the later one. Nothing is
/// assumed about its value.
#[verifier::external_body]
fn instant_duration_since(later: &Instant, earlier: &Instant) -> Duration {
    later.duration_since(*earlier)
}

/// Per-core counters of valid nonces and errors.
#[derive(Debug, Clone, Copy, PartialEq, Eq, Structural)]
pub struct Core {
    pub valid: usize,
    pub errors: usize,
}

impl Core {
    pub fn new() -> (r: Self)
        ensures
            r.valid == 0,
            r.errors == 0,
    {
        Self { valid: 0, errors: 0 }
    }

    pub fn reset(&mut self)
        ensures
            final(self).valid == 0,
            final(self).errors == 0,
    {
        self.valid = 0;
        self.errors = 0;
    }
}

/// Sum of the per-core valid counters.
pub open spec fn core_sum_valid(s: Seq<Core>) -> int
    decreases s.len(),
{
    if s.len() == 0 {
        0
    } else {
        core_sum_valid(s.drop_last()) + s.last().valid
    }
}

/// Sum of the per-core error counters.
pub open spec fn core_sum_errors(s: Seq<Core>) -> int
    decreases s.len(),
{
    if s.len() == 0 {
        0
    } else {
        core_sum_errors(s.drop_last()) + s.last().errors
    }
}

proof fn lemma_core_sum_update(s: Seq<Core>, i: int, c: Core)
    requires
        0 <= i < s.len(),
    ensures
        core_sum_valid(s.update(i, c)) == core_sum_valid(s) - s[i].valid + c.valid,
        core_sum_errors(s.update(i, c)) == core_sum_errors(s) - s[i].errors + c.errors,
    decreases s.len(),
{
    let u = s.update(i, c);
    if i == s.len() - 1 {
        assert(u.drop_last() =~= s.drop_last());
        assert(u.last() == c);
    } else {
        assert(u.drop_last() =~= s.drop_last().update(i, c));
        assert(u.last() == s.last());
        lemma_core_sum_update(s.drop_last(), i, c);
    }
}

proof fn lemma_core_sum_elem_le(s: Seq<Core>, i: int)
    requires
        0 <= i < s.len(),
    ensures
        s[i].valid <= core_sum_valid(s),
        s[i].errors <= core_sum_errors(s),
    decreases s.len(),
{
    if i == s.len() - 1 {
        lemma_core_sum_nonneg(s.drop_last());
    } else {
        lemma_core_sum_elem_le(s.drop_last(), i);
        assert(s.drop_last()[i] == s[i]);
    }
}

proof fn lemma_core_sum_nonneg(s: Seq<Core>)
    ensures
        core_sum_valid(s) >= 0,
        core_sum_errors(s) >= 0,
    decreases s.len(),
{
    if s.len() > 0 {
        lemma_core_sum_nonneg(s.drop_last());
    }
}

/// Per-chip counters: one counter pair per core address, plus chip totals.
#[derive(Debug, Clone)]
pub struct Chip {
    pub core: Vec<Core>,
    pub valid: usize,
    pub errors: usize,
}

impl Chip {
    /// The chip totals are exactly the sums over its cores, and the core
    /// array spans the whole core address space.
    pub open spec fn wf(&self) -> bool {
        self.core@.len() == CORE_ADR_SPACE_SIZE && self.valid == core_sum_valid(self.core@)
            && self.errors == core_sum_errors(self.core@)
    }

    pub open spec fn is_zeroed(&self) -> bool {
        self.valid == 0 && self.errors == 0 && forall|j: int|
            0 <= j < self.core@.len() ==> (#[trigger] self.core@[j]).valid == 0
                && self.core@[j].errors == 0
    }

    pub fn new() -> (r: Self)
        ensures
            r.wf(),
            r.is_zeroed(),
            r.core@.len() == CORE_ADR_SPACE_SIZE,
    {
        let mut core: Vec<Core> = Vec::new();
        let mut j: usize = 0;
        while j < CORE_ADR_SPACE_SIZE
            invariant
                j <= CORE_ADR_SPACE_SIZE,
                core@.len() == j,
                core_sum_valid(core@) == 0,
                core_sum_errors(core@) == 0,
                forall|k: int| 0 <= k < j ==> (#[trigger] core@[k]).valid == 0 && core@[k].errors
                    == 0,
            decreases CORE_ADR_SPACE_SIZE - j,
        {
            let ghost prev = core@;
            core.push(Core::new());
            proof {
                assert(core@.drop_last() =~= prev);
            }
            j = j + 1;
        }
        Self { core, valid: 0, errors: 0 }
    }

    pub fn reset(&mut self)
        ensures
            final(self).wf(),
            final(self).is_zeroed(),
            final(self).core@.len() == CORE_ADR_SPACE_SIZE,
    {
        let fresh = Self::new();
        self.core = fresh.core;
        self.valid = 0;
        self.errors = 0;
    }

    /// An independent copy with the same counts.
    pub(crate) fn copy_counts(&self) -> (r: Self)
        ensures
            r.core@ == self.core@,
            r.valid == self.valid,
            r.errors == self.errors,
    {
        let mut core: Vec<Core> = Vec::new();
        let mut j: usize = 0;
        while j < self.core.len()
            invariant
                j <= self.core@.len(),
                core@ =~= self.core@.take(j as int),
            decreases self.core@.len() - j,
        {
            core.push(self.core[j]);
            j = j + 1;
        }
        proof {
            assert(core@ =~= self.core@);
        }
        Self { core, valid: self.valid, errors: self.errors }
    }
}

/// Sum of the per-chip valid counters.
pub open spec fn chip_sum_valid(s: Seq<Chip>) -> int
    decreases s.len(),
{
    if s.len() == 0 {
        0
    } else {
        chip_sum_valid(s.drop_last()) + s.last().valid
    }
}

/// Sum of the per-chip error counters.
pub open spec fn chip_sum_errors(s: Seq<Chip>) -> int
    decreases s.len(),
{
    if s.len() == 0 {
        0
    } else {
        chip_sum_errors(s.drop_last()) + s.last().errors
    }
}

proof fn lemma_chip_sum_update(s: Seq<Chip>, i: int, c: Chip)
    requires
        0 <= i < s.len(),
    ensures
        chip_sum_valid(s.update(i, c)) == chip_sum_valid(s) - s[i].valid + c.valid,
        chip_sum_errors(s.update(i, c)) == chip_sum_errors(s) - s[i].errors + c.errors,
    decreases s.len(),
{
    let u = s.update(i, c);
    if i == s.len() - 1 {
        assert(u.drop_last() =~= s.drop_last());
        assert(u.last() == c);
    } else {
        assert(u.drop_last() =~= s.drop_last().update(i, c));
        assert(u.last() == s.last());
        lemma_chip_sum_update(s.drop_last(), i, c);
    }
}

proof fn lemma_chip_sum_elem_le(s: Seq<Chip>, i: int)
    requires
        0 <= i < s.len(),
    ensures
        s[i].valid <= chip_sum_valid(s),
        s[i].errors <= chip_sum_errors(s),
    decreases s.len(),
{
    if i == s.len() - 1 {
        lemma_chip_sum_nonneg(s.drop_last());
    } else {
        lemma_chip_sum_elem_le(s.drop_last(), i);
        assert(s.drop_last()[i] == s[i]);
    }
}

proof fn lemma_chip_sum_nonneg(s: Seq<Chip>)
    ensures
        chip_sum_valid(s) >= 0,
        chip_sum_errors(s) >= 0,
    decreases s.len(),
{
    if s.len() > 0 {
        lemma_chip_sum_nonneg(s.drop_last());
    }
}

proof fn lemma_chip_sum_take_le(s: Seq<Chip>, i: int)
    requires
        0 <= i <= s.len(),
    ensures
        chip_sum_valid(s.take(i)) <= chip_sum_valid(s),
        chip_sum_errors(s.take(i)) <= chip_sum_errors(s),
    decreases s.len() - i,
{
    if i < s.len() {
        let u = s.take(i + 1);
        assert(u.drop_last() =~= s.take(i));
        assert(u.last() == s[i]);
        lemma_chip_sum_take_le(s, i + 1);
    } else {
        assert(s.take(i) =~= s);
    }
}

/// Counters of one hash chain: chain totals, the owned chips, the running
/// time window and the difficulty each accepted share is scaled by.
#[derive(Debug)]
pub struct HashChain {
    pub chip: Vec<Chip>,
    pub valid: usize,
    pub errors: usize,
    pub started: Instant,
    pub stopped: Option<Instant>,
    pub asic_difficulty: usize,
}

impl HashChain {
    /// Every chip is internally consistent and the chain totals dominate
    /// the sums over the chips; shrinking the chip array keeps the chain
    /// totals, which is why the chain level is an upper bound rather than
    /// an exact sum.
    pub open spec fn wf(&self) -> bool {
        (forall|i: int| 0 <= i < self.chip@.len() ==> (#[trigger] self.chip@[i]).wf())
            && chip_sum_valid(self.chip@) <= self.valid && chip_sum_errors(self.chip@)
            <= self.errors
    }

    /// The counts of `self`, chip by chip and core by core, equal those of
    /// `other`.
    pub open spec fn same_counts(&self, other: &Self) -> bool {
        self.valid == other.valid && self.errors == other.errors && self.asic_difficulty
            == other.asic_difficulty && self.chip@.len() == other.chip@.len() && forall|i: int|
            0 <= i < self.chip@.len() ==> (#[trigger] self.chip@[i]).valid == other.chip@[i].valid
                && self.chip@[i].errors == other.chip@[i].errors && self.chip@[i].core@
                == other.chip@[i].core@
    }

    pub fn new(chip_count: usize, asic_difficulty: usize) -> (r: Self)
        ensures
            r.wf(),
            r.valid == 0,
            r.errors == 0,
            r.chip@.len() == chip_count,
            forall|i: int| 0 <= i < chip_count ==> (#[trigger] r.chip@[i]).is_zeroed(),
            r.stopped is None,
            r.asic_difficulty == asic_difficulty,
    {
        let mut chip: Vec<Chip> = Vec::new();
        let mut i: usize = 0;
        while i < chip_count
            invariant
                i <= chip_count,
                chip@.len() == i,
                chip_sum_valid(chip@) == 0,
                chip_sum_errors(chip@) == 0,
                forall|k: int| 0 <= k < i ==> (#[trigger] chip@[k]).wf() && chip@[k].is_zeroed(),
            decreases chip_count - i,
        {
            let ghost prev = chip@;
            chip.push(Chip::new());
            proof {
                assert(chip@.drop_last() =~= prev);
            }
            i = i + 1;
        }
        Self {
            valid: 0,
            errors: 0,
            started: instant_now(),
            stopped: None,
            chip,
            asic_difficulty,
        }
    }

    /// Zero all counters on every level and restart the timer.
    pub fn reset(&mut self)
        ensures
            final(self).wf(),
            final(self).valid == 0,
            final(self).errors == 0,
            final(self).chip@.len() == old(self).chip@.len(),
            forall|i: int| 0 <= i < final(self).chip@.len() ==> (#[trigger] final(self).chip@[i]).is_zeroed(),
            final(self).stopped == old(self).stopped,
            final(self).asic_difficulty == old(self).asic_difficulty,
    {
        self.valid = 0;
        self.errors = 0;
        let n = self.chip.len();
        let mut i: usize = 0;
        let mut chip: Vec<Chip> = Vec::new();
        while i < n
            invariant
                i <= n,
                chip@.len() == i,
                chip_sum_valid(chip@) == 0,
                chip_sum_errors(chip@) == 0,
                forall|k: int| 0 <= k < i ==> (#[trigger] chip@[k]).wf() && chip@[k].is_zeroed(),
            decreases n - i,
        {
            let ghost prev = chip@;
            chip.push(Chip::new());
            proof {
                assert(chip@.drop_last() =~= prev);
            }
            i = i + 1;
        }
        self.chip = chip;
        self.started = instant_now();
    }

    /// Snapshot the counters: an independent copy whose `stopped` time is
    /// fixed to now, so the elapsed window of the copy no longer advances
    /// while the live counters keep counting.
    pub fn snapshot(&self) -> (r: Self)
        requires
            self.wf(),
        ensures
            r.wf(),
            r.same_counts(self),
            r.started == self.started,
            r.stopped is Some,
    {
        let mut chip: Vec<Chip> = Vec::new();
        let mut i: usize = 0;
        while i < self.chip.len()
            invariant
                self.wf(),
                i <= self.chip@.len(),
                chip@.len() == i,
                chip_sum_valid(chip@) == chip_sum_valid(self.chip@.take(i as int)),
                chip_sum_errors(chip@) == chip_sum_errors(self.chip@.take(i as int)),
                forall|k: int| 0 <= k < i ==> (#[trigger] chip@[k]).valid == self.chip@[k].valid
                    && chip@[k].errors == self.chip@[k].errors && chip@[k].core@
                    == self.chip@[k].core@,
            decreases self.chip@.len() - i,
        {
            let ghost prev = chip@;
            chip.push(self.chip[i].copy_counts());
            proof {
                assert(chip@.drop_last() =~= prev);
                assert(self.chip@.take(i + 1).drop_last() =~= self.chip@.take(i as int));
                assert(self.chip@.take(i + 1).last() == self.chip@[i as int]);
            }
            i = i + 1;
        }
        proof {
            assert(self.chip@.take(self.chip@.len() as int) =~= self.chip@);
            assert(forall|k: int| 0 <= k < chip@.len() ==> (#[trigger] chip@[k]).wf());
        }
        Self {
            chip,
            valid: self.valid,
            errors: self.errors,
            started: self.started,
            stopped: Some(instant_now()),
            asic_difficulty: self.asic_difficulty,
        }
    }

    /// Length of the counting window: from `started` to `stopped`, or to
    /// now while the chain still runs.
    pub fn duration(&self) -> Duration {
        match &self.stopped {
            Some(t) => instant_duration_since(t, &self.started),
            None => {
                let now = instant_now();
                instant_duration_since(&now, &self.started)
            },
        }
    }

    /// Credit a valid nonce from the given core: every level gains
    /// `asic_difficulty` (the expected hash attempts one accepted share
    /// represents). An address beyond the configured chip array is
    /// silently discarded.
    pub fn add_valid(&mut self, addr: CoreAddress)
        requires
            old(self).wf(),
            addr.core < CORE_ADR_SPACE_SIZE,
            old(self).valid + old(self).asic_difficulty <= usize::MAX,
        ensures
            final(self).wf(),
            addr.chip >= old(self).chip@.len() ==> *final(self) == *old(self),
            addr.chip < old(self).chip@.len() ==> {
                let d = old(self).asic_difficulty;
                &&& final(self).valid == old(self).valid + d
                &&& final(self).errors == old(self).errors
                &&& final(self).chip@.len() == old(self).chip@.len()
                &&& forall|i: int| 0 <= i < old(self).chip@.len() && i != addr.chip ==> final(self).chip@[i] == old(self).chip@[i]
                &&& final(self).chip@[addr.chip as int].valid == old(self).chip@[addr.chip
                    as int].valid + d
                &&& final(self).chip@[addr.chip as int].errors == old(self).chip@[addr.chip
                    as int].errors
                &&& final(self).chip@[addr.chip as int].core@ == old(self).chip@[addr.chip
                    as int].core@.update(
                    addr.core as int,
                    Core {
                        valid: (old(self).chip@[addr.chip as int].core@[addr.core as int].valid
                            + d) as usize,
                        errors: old(self).chip@[addr.chip as int].core@[addr.core as int].errors,
                    },
                )
                &&& final(self).started == old(self).started
                &&& final(self).stopped == old(self).stopped
                &&& final(self).asic_difficulty == old(self).asic_difficulty
            },
    {
        if addr.chip >= self.chip.len() {
            // Nonce from a chip that is not configured: drop it.
            return ;
        }
        let d = self.asic_difficulty;
        proof {
            lemma_chip_sum_elem_le(self.chip@, addr.chip as int);
            lemma_chip_sum_nonneg(self.chip@);
            lemma_core_sum_elem_le(self.chip@[addr.chip as int].core@, addr.core as int);
            lemma_core_sum_nonneg(self.chip@[addr.chip as int].core@);
        }
        let mut c = self.chip[addr.chip].copy_counts();
        let ghost old_chip = self.chip@[addr.chip as int];
        let mut cc = c.core[addr.core];
        cc.valid = cc.valid + d;
        c.core[addr.core] = cc;
        c.valid = c.valid + d;
        proof {
            lemma_core_sum_update(old_chip.core@, addr.core as int, cc);
        }
        let ghost prev_chips = self.chip@;
        self.chip[addr.chip] = c;
        self.valid = self.valid + d;
        proof {
            lemma_chip_sum_update(prev_chips, addr.chip as int, c);
        }
    }

    /// Record a hardware error from the given core: every level gains
    /// exactly one, whatever the difficulty. An address beyond the
    /// configured chip array is silently discarded.
    pub fn add_error(&mut self, addr: CoreAddress)
        requires
            old(self).wf(),
            addr.core < CORE_ADR_SPACE_SIZE,
            old(self).errors + 1 <= usize::MAX,
        ensures
            final(self).wf(),
            addr.chip >= old(self).chip@.len() ==> *final(self) == *old(self),
            addr.chip < old(self).chip@.len() ==> {
                &&& final(self).errors == old(self).errors + 1
                &&& final(self).valid == old(self).valid
                &&& final(self).chip@.len() == old(self).chip@.len()
                &&& forall|i: int| 0 <= i < old(self).chip@.len() && i != addr.chip ==> final(self).chip@[i] == old(self).chip@[i]
                &&& final(self).chip@[addr.chip as int].errors == old(self).chip@[addr.chip
                    as int].errors + 1
                &&& final(self).chip@[addr.chip as int].valid == old(self).chip@[addr.chip
                    as int].valid
                &&& final(self).chip@[addr.chip as int].core@ == old(self).chip@[addr.chip
                    as int].core@.update(
                    addr.core as int,
                    Core {
                        valid: old(self).chip@[addr.chip as int].core@[addr.core as int].valid,
                        errors: (old(self).chip@[addr.chip as int].core@[addr.core
                            as int].errors + 1) as usize,
                    },
                )
                &&& final(self).started == old(self).started
                &&& final(self).stopped == old(self).stopped
                &&& final(self).asic_difficulty == old(self).asic_difficulty
            },
    {
        if addr.chip >= self.chip.len() {
            // Nonce from a chip that is not configured: drop it.
            return ;
        }
        proof {
            lemma_chip_sum_elem_le(self.chip@, addr.chip as int);
            lemma_chip_sum_nonneg(self.chip@);
            lemma_core_sum_elem_le(self.chip@[addr.chip as int].core@, addr.core as int);
            lemma_core_sum_nonneg(self.chip@[addr.chip as int].core@);
        }
        let mut c = self.chip[addr.chip].copy_counts();
        let ghost old_chip = self.chip@[addr.chip as int];
        let mut cc = c.core[addr.core];
        cc.errors = cc.errors + 1;
        c.core[addr.core] = cc;
        c.errors = c.errors + 1;
        proof {
            lemma_core_sum_update(old_chip.core@, addr.core as int, cc);
        }
        let ghost prev_chips = self.chip@;
        self.chip[addr.chip] = c;
        self.errors = self.errors + 1;
        proof {
            lemma_chip_sum_update(prev_chips, addr.chip as int, c);
        }
    }

    /// Grow or shrink the chip array; new chips start zeroed, and the
    /// chain totals are kept as they are.
    pub fn set_chip_count(&mut self, chip_count: usize)
        requires
            old(self).wf(),
        ensures
            final(self).wf(),
            final(self).chip@.len() == chip_count,
            forall|i: int| 0 <= i < chip_count && i < old(self).chip@.len() ==> final(self).chip@[i] == old(self).chip@[i],
            forall|i: int| old(self).chip@.len() <= i < chip_count ==> (#[trigger] final(self).chip@[i]).is_zeroed(),
            final(self).valid == old(self).valid,
            final(self).errors == old(self).errors,
            final(self).started == old(self).started,
            final(self).stopped == old(self).stopped,
            final(self).asic_difficulty == old(self).asic_difficulty,
    {
        if chip_count <= self.chip.len() {
            proof {
                lemma_chip_sum_take_le(self.chip@, chip_count as int);
            }
            self.chip.truncate(chip_count);
        } else {
            while self.chip.len() < chip_count
                invariant
                    old(self).wf(),
                    old(self).chip@.len() <= self.chip@.len() <= chip_count,
                    self.chip@.take(old(self).chip@.len() as int) =~= old(self).chip@,
                    forall|i: int| 0 <= i < old(self).chip@.len() ==> self.chip@[i] == old(
                        self,
                    ).chip@[i],
                    forall|i: int| old(self).chip@.len() <= i < self.chip@.len() ==> (
                    #[trigger] self.chip@[i]).wf() && self.chip@[i].is_zeroed(),
                    chip_sum_valid(self.chip@) == chip_sum_valid(old(self).chip@),
                    chip_sum_errors(self.chip@) == chip_sum_errors(old(self).chip@),
                    self.valid == old(self).valid,
                    self.errors == old(self).errors,
                    self.started == old(self).started,
                    self.stopped == old(self).stopped,
                    self.asic_difficulty == old(self).asic_difficulty,
                decreases chip_count - self.chip@.len(),
            {
                let ghost prev = self.chip@;
                self.chip.push(Chip::new());
                proof {
                    assert(self.chip@.drop_last() =~= prev);
                    assert(self.chip@.take(old(self).chip@.len() as int) =~= prev.take(
                        old(self).chip@.len() as int,
                    ));
                }
            }
        }
    }

    /// Number of chips currently configured.
    pub fn chip_count(&self) -> (r: usize)
        ensures
            r == self.chip@.len(),
    {
        self.chip.len()
    }
}

} // verus!
