//! PLL frequency synthesizer: an offline search over the chip's divider
//! space producing a table of achievable frequencies sorted ascending, one
//! entry at most per 1 MHz bin between 100 MHz and 1200 MHz, plus a
//! nearest-match lookup.
//!
//! Building the table is the only costly step and is meant to run once per
//! process; the caller keeps the result immutable and shares it.

use vstd::prelude::*;

use crate::error::Error;
use crate::registers::{distance, distance_spec, pll_frequency_spec, PllReg};

verus! {

/// Lowest synthesizable frequency, in Hz.
pub const MIN_FREQ_HZ: usize = 100_000_000;

/// Highest synthesizable frequency, in Hz.
pub const MAX_FREQ_HZ: usize = 1_200_000_000;

/// Width of one table bin, in Hz.
pub const BIN_SIZE_HZ: usize = 1_000_000;

/// Lowest table bin, in MHz.
pub const MIN_MHZ: usize = 100;

/// Highest table bin, in MHz.
pub const MAX_MHZ: usize = 1200;

/// A PLL divider together with the frequency it produces at the crystal
/// speed the table was computed for.
#[derive(Debug, Clone, Copy, PartialEq, Eq, Structural)]
pub struct PllFrequency {
    /// Achievable frequency, in Hz.
    pub frequency: usize,
    /// The divider that produces it.
    pub reg: PllReg,
}

/// The MHz bin a frequency rounds to.
pub open spec fn bin_of(freq: int) -> int {
    (freq + 500_000) / 1_000_000
}

/// The divider tuples the table search enumerates.
pub open spec fn in_search_space(reg: PllReg) -> bool {
    1 <= reg.postdiv1 <= 7 && 1 <= reg.refdiv <= 63 && 1 <= reg.postdiv2 <= reg.postdiv1 && 32
        <= reg.fbdiv <= 127
}

/// A sound table entry: its divider lies in the search space, its
/// frequency is exactly what that divider produces from the crystal, and
/// it rounds to a bin within the supported range.
pub open spec fn entry_ok(pf: PllFrequency, xtal: int) -> bool {
    in_search_space(pf.reg) && pf.frequency == pll_frequency_spec(
        xtal,
        pf.reg.fbdiv as int,
        pf.reg.refdiv as int,
        pf.reg.postdiv1 as int,
        pf.reg.postdiv2 as int,
    ) && MIN_MHZ <= bin_of(pf.frequency as int) <= MAX_MHZ
}

/// Shape of the synthesized table: every entry is sound and the entries
/// occupy strictly ascending bins, so every bin appears at most once.
pub open spec fn table_wf(s: Seq<PllFrequency>, xtal: int) -> bool {
    (forall|i: int| 0 <= i < s.len() ==> entry_ok(#[trigger] s[i], xtal)) && (forall|i: int, j: int|
        0 <= i < j < s.len() ==> bin_of(s[i].frequency as int) < bin_of(s[j].frequency as int))
}

/// Strictly ascending frequencies.
pub open spec fn sorted_by_frequency(s: Seq<PllFrequency>) -> bool {
    forall|i: int, j: int| 0 <= i < j < s.len() ==> s[i].frequency < s[j].frequency
}

/// A well-formed table is strictly ascending by frequency: rounding to a
/// MHz bin never orders two frequencies the other way around.
pub proof fn lemma_table_sorted(s: Seq<PllFrequency>, xtal: int)
    requires
        table_wf(s, xtal),
    ensures
        sorted_by_frequency(s),
{
    assert forall|i: int, j: int| 0 <= i < j < s.len() implies s[i].frequency
        < s[j].frequency by {
        if s[i].frequency >= s[j].frequency {
            vstd::arithmetic::div_mod::lemma_div_is_ordered(
                s[j].frequency + 500_000,
                s[i].frequency + 500_000,
                1_000_000,
            );
        }
    }
}

/// Whether some table entry produces the target exactly.
pub open spec fn has_exact(s: Seq<PllFrequency>, t: int) -> bool {
    exists|i: int| 0 <= i < s.len() && s[i].frequency == t
}

/// The target misses the table entirely: no exact entry, and it lies below
/// the smallest or above the largest entry (or the table is empty).
pub open spec fn out_of_table(s: Seq<PllFrequency>, t: int) -> bool {
    !has_exact(s, t) && (s.len() == 0 || t < s[0].frequency || t > s[s.len() - 1].frequency)
}

impl PllFrequency {
    /// Precompute the divider table for one crystal frequency.
    ///
    /// The search enumerates `postdiv1`, `refdiv`, `postdiv2` and `fbdiv`
    /// in that nesting order and keeps, per MHz bin, the first divider
    /// whose frequency comes strictly closest to the bin's exact value;
    /// on an exact tie the earlier tuple stays. The result holds the
    /// non-empty bins in ascending order: every entry beats every divider
    /// of its bin under that rule, and every bin in the supported range
    /// that any divider reaches is present.
    pub fn precompute_pll_table(xtal_freq: usize) -> (r: Vec<PllFrequency>)
        requires
            127 * xtal_freq <= u64::MAX,
            127 * xtal_freq + 500_000 <= usize::MAX,
        ensures
            table_wf(r@, xtal_freq as int),
            sorted_by_frequency(r@),
            forall|i: int, t: PllReg|
                #![trigger r@[i], tuple_freq(xtal_freq as int, t)]
                0 <= i < r@.len() && in_search_space(t) && bin_of(tuple_freq(xtal_freq as int, t))
                    == bin_of(r@[i].frequency as int) ==> entry_beats(
                    r@[i],
                    bin_of(r@[i].frequency as int),
                    xtal_freq as int,
                    t,
                ),
            forall|t: PllReg|
                in_search_space(t) && MIN_MHZ <= bin_of(#[trigger] tuple_freq(xtal_freq as int, t))
                    <= MAX_MHZ ==> exists|i: int|
                    0 <= i < r@.len() && bin_of((#[trigger] r@[i]).frequency as int) == bin_of(
                        tuple_freq(xtal_freq as int, t),
                    ),
    {
        let ghost xtal = xtal_freq as int;
        // One bin for each MHz in [0, MAX_MHZ]; each holds nothing or the
        // best approximation found so far.
        let mut freq_bins: Vec<Option<PllFrequency>> = Vec::new();
        let mut b: usize = 0;
        while b <= MAX_MHZ
            invariant
                b <= MAX_MHZ + 1,
                freq_bins@.len() == b,
                forall|k: int| 0 <= k < b ==> freq_bins@[k] is None,
            decreases MAX_MHZ + 1 - b,
        {
            freq_bins.push(None);
            b = b + 1;
        }
        proof {
            assert forall|t: PllReg| !visited(t, 1, 1, 1, 32) by {
                if in_search_space(t) {
                    assert(!lex_before(t, 1, 1, 1, 32));
                }
            }
        }

        let mut postdiv1: usize = 1;
        while postdiv1 <= 7
            invariant
                1 <= postdiv1 <= 8,
                xtal == xtal_freq as int,
                127 * xtal_freq <= u64::MAX,
                127 * xtal_freq + 500_000 <= usize::MAX,
                freq_bins@.len() == MAX_MHZ + 1,
                bins_opt(freq_bins@, xtal, postdiv1 as int, 1, 1, 32),
            decreases 8 - postdiv1,
        {
            let mut refdiv: usize = 1;
            while refdiv <= 63
                invariant
                    1 <= postdiv1 <= 7,
                    1 <= refdiv <= 64,
                    xtal == xtal_freq as int,
                    127 * xtal_freq <= u64::MAX,
                    127 * xtal_freq + 500_000 <= usize::MAX,
                    freq_bins@.len() == MAX_MHZ + 1,
                    bins_opt(freq_bins@, xtal, postdiv1 as int, refdiv as int, 1, 32),
                decreases 64 - refdiv,
            {
                let mut postdiv2: usize = 1;
                while postdiv2 <= postdiv1
                    invariant
                        1 <= postdiv1 <= 7,
                        1 <= refdiv <= 63,
                        1 <= postdiv2 <= postdiv1 + 1,
                        xtal == xtal_freq as int,
                        127 * xtal_freq <= u64::MAX,
                        127 * xtal_freq + 500_000 <= usize::MAX,
                        freq_bins@.len() == MAX_MHZ + 1,
                        bins_opt(
                            freq_bins@,
                            xtal,
                            postdiv1 as int,
                            refdiv as int,
                            postdiv2 as int,
                            32,
                        ),
                    decreases postdiv1 + 1 - postdiv2,
                {
                    let mut fbdiv: usize = 32;
                    while fbdiv < 128
                        invariant
                            1 <= postdiv1 <= 7,
                            1 <= refdiv <= 63,
                            1 <= postdiv2 <= postdiv1,
                            32 <= fbdiv <= 128,
                            xtal == xtal_freq as int,
                            127 * xtal_freq <= u64::MAX,
                            127 * xtal_freq + 500_000 <= usize::MAX,
                            freq_bins@.len() == MAX_MHZ + 1,
                            bins_opt(
                                freq_bins@,
                                xtal,
                                postdiv1 as int,
                                refdiv as int,
                                postdiv2 as int,
                                fbdiv as int,
                            ),
                        decreases 128 - fbdiv,
                    {
                        let ghost p1 = postdiv1 as int;
                        let ghost rd = refdiv as int;
                        let ghost p2 = postdiv2 as int;
                        let ghost fb = fbdiv as int;
                        let reg = PllReg {
                            fbdiv: fbdiv as u8,
                            refdiv: refdiv as u8,
                            postdiv1: postdiv1 as u8,
                            postdiv2: postdiv2 as u8,
                        };
                        proof {
                            assert(xtal_freq * reg.fbdiv <= 127 * xtal_freq) by (nonlinear_arith)
                                requires
                                    reg.fbdiv <= 127,
                                    xtal_freq >= 0,
                            ;
                            assert(reg.refdiv as int * reg.postdiv1 as int * reg.postdiv2 as int
                                >= 1) by (nonlinear_arith)
                                requires
                                    reg.refdiv >= 1 && reg.postdiv1 >= 1 && reg.postdiv2 >= 1,
                            ;
                            vstd::arithmetic::div_mod::lemma_div_nonincreasing(
                                xtal_freq as int * reg.fbdiv as int,
                                reg.refdiv as int * reg.postdiv1 as int * reg.postdiv2 as int,
                            );
                        }
                        // The frequency this divider produces.
                        let frequency = reg.calc(xtal_freq);
                        // Round to the nearest MHz to get the bin number.
                        let bin_no = (frequency + 500_000) / BIN_SIZE_HZ;
                        proof {
                            lemma_visited_step(reg, p1, rd, p2, fb);
                            assert(tuple_freq(xtal, reg) == frequency as int);
                            assert(bin_of(tuple_freq(xtal, reg)) == bin_no as int);
                            assert(visited(reg, p1, rd, p2, fb + 1));
                        }
                        if bin_no >= MIN_MHZ && bin_no <= MAX_MHZ {
                            let bin_freq = bin_no * BIN_SIZE_HZ;
                            let keep_old = match &freq_bins[bin_no] {
                                Some(old) => distance(bin_freq, old.frequency) <= distance(
                                    bin_freq,
                                    frequency,
                                ),
                                None => false,
                            };
                            if !keep_old {
                                let ghost prev_bins = freq_bins@;
                                let pf = PllFrequency { frequency, reg };
                                proof {
                                    assert(entry_ok(pf, xtal));
                                }
                                freq_bins[bin_no] = Some(pf);
                                proof {
                                    assert(freq_bins@ == prev_bins.update(bin_no as int, Some(pf)));
                                    lemma_bins_replace_step(
                                        prev_bins,
                                        freq_bins@,
                                        xtal,
                                        p1,
                                        rd,
                                        p2,
                                        fb,
                                        reg,
                                        pf,
                                        bin_no as int,
                                    );
                                }
                            } else {
                                proof {
                                    lemma_bins_keep_step(
                                        freq_bins@,
                                        xtal,
                                        p1,
                                        rd,
                                        p2,
                                        fb,
                                        reg,
                                        bin_no as int,
                                    );
                                }
                            }
                        } else {
                            proof {
                                lemma_bins_skip_step(
                                    freq_bins@,
                                    xtal,
                                    p1,
                                    rd,
                                    p2,
                                    fb,
                                    reg,
                                    bin_no as int,
                                );
                            }
                        }
                        fbdiv = fbdiv + 1;
                    }
                    proof {
                        assert forall|t: PllReg|
                            #![trigger visited(t, postdiv1 as int, refdiv as int, postdiv2 as int, 128)]
                            visited(t, postdiv1 as int, refdiv as int, postdiv2 as int, 128)
                                == visited(
                                t,
                                postdiv1 as int,
                                refdiv as int,
                                postdiv2 as int + 1,
                                32,
                            ) by {}
                        lemma_bins_opt_shift(
                            freq_bins@,
                            xtal,
                            postdiv1 as int,
                            refdiv as int,
                            postdiv2 as int,
                            128,
                            postdiv1 as int,
                            refdiv as int,
                            postdiv2 as int + 1,
                            32,
                        );
                    }
                    postdiv2 = postdiv2 + 1;
                }
                proof {
                    assert forall|t: PllReg|
                        #![trigger visited(t, postdiv1 as int, refdiv as int, postdiv1 as int + 1, 32)]
                        visited(t, postdiv1 as int, refdiv as int, postdiv1 as int + 1, 32)
                            == visited(t, postdiv1 as int, refdiv as int + 1, 1, 32) by {}
                    lemma_bins_opt_shift(
                        freq_bins@,
                        xtal,
                        postdiv1 as int,
                        refdiv as int,
                        postdiv1 as int + 1,
                        32,
                        postdiv1 as int,
                        refdiv as int + 1,
                        1,
                        32,
                    );
                }
                refdiv = refdiv + 1;
            }
            proof {
                assert forall|t: PllReg|
                    #![trigger visited(t, postdiv1 as int, 64, 1, 32)]
                    visited(t, postdiv1 as int, 64, 1, 32) == visited(
                        t,
                        postdiv1 as int + 1,
                        1,
                        1,
                        32,
                    ) by {}
                lemma_bins_opt_shift(
                    freq_bins@,
                    xtal,
                    postdiv1 as int,
                    64,
                    1,
                    32,
                    postdiv1 as int + 1,
                    1,
                    1,
                    32,
                );
            }
            postdiv1 = postdiv1 + 1;
        }

        // Keep the non-empty bins, in ascending bin order.
        let mut pll_table: Vec<PllFrequency> = Vec::new();
        let mut b: usize = 0;
        while b <= MAX_MHZ
            invariant
                b <= MAX_MHZ + 1,
                xtal == xtal_freq as int,
                freq_bins@.len() == MAX_MHZ + 1,
                bins_opt(freq_bins@, xtal, 8, 1, 1, 32),
                table_wf(pll_table@, xtal),
                forall|i: int| 0 <= i < pll_table@.len() ==> bin_of(
                    #[trigger] pll_table@[i].frequency as int,
                ) < b,
                forall|i: int| 0 <= i < pll_table@.len() ==> freq_bins@[bin_of(
                    (#[trigger] pll_table@[i]).frequency as int,
                )] == Some(pll_table@[i]),
                forall|k: int| MIN_MHZ <= k < b ==> ((#[trigger] freq_bins@[k]) matches Some(e)
                    ==> exists|i: int| 0 <= i < pll_table@.len() && pll_table@[i] == e),
            decreases MAX_MHZ + 1 - b,
        {
            let cur = freq_bins[b];
            match cur {
                Some(pf) => {
                    let ghost prev = pll_table@;
                    pll_table.push(pf);
                    proof {
                        assert(pll_table@ == prev.push(pf));
                        assert(pll_table@[prev.len() as int] == pf);
                        assert forall|i: int, j: int| 0 <= i < j < pll_table@.len() implies bin_of(
                            pll_table@[i].frequency as int,
                        ) < bin_of(pll_table@[j].frequency as int) by {
                            if j < prev.len() {
                                assert(pll_table@[i] == prev[i] && pll_table@[j] == prev[j]);
                            } else {
                                assert(pll_table@[j] == pf);
                                assert(pll_table@[i] == prev[i]);
                            }
                        }
                        assert forall|k: int| MIN_MHZ <= k < b + 1 implies ((
                        #[trigger] freq_bins@[k]) matches Some(e) ==> exists|i: int|
                            0 <= i < pll_table@.len() && pll_table@[i] == e) by {
                            match freq_bins@[k] {
                                Some(e) => {
                                    if k < b {
                                        let i = choose|i: int| 0 <= i < prev.len() && prev[i] == e;
                                        assert(pll_table@[i] == e);
                                    } else {
                                        assert(pll_table@[prev.len() as int] == e);
                                    }
                                },
                                None => {},
                            }
                        }
                    }
                },
                None => {},
            }
            b = b + 1;
        }
        proof {
            lemma_table_sorted(pll_table@, xtal);
            assert forall|t: PllReg| in_search_space(t) implies visited(t, 8, 1, 1, 32) by {}
            assert forall|i: int, t: PllReg|
                0 <= i < pll_table@.len() && in_search_space(t) && bin_of(
                    #[trigger] tuple_freq(xtal, t),
                ) == bin_of((#[trigger] pll_table@[i]).frequency as int) implies entry_beats(
                pll_table@[i],
                bin_of(pll_table@[i].frequency as int),
                xtal,
                t,
            ) by {
                let e = pll_table@[i];
                let k = bin_of(e.frequency as int);
                assert(freq_bins@[k] == Some(e));
                assert(visited(t, 8, 1, 1, 32));
                assert(entry_best(e, k, xtal, 8, 1, 1, 32));
            }
            assert forall|t: PllReg|
                in_search_space(t) && MIN_MHZ <= bin_of(#[trigger] tuple_freq(xtal, t))
                    <= MAX_MHZ implies exists|i: int|
                0 <= i < pll_table@.len() && bin_of((#[trigger] pll_table@[i]).frequency as int)
                    == bin_of(tuple_freq(xtal, t)) by {
                let k = bin_of(tuple_freq(xtal, t));
                assert(visited(t, 8, 1, 1, 32));
                if freq_bins@[k] is None {
                    assert(bin_unreached(k, xtal, 8, 1, 1, 32));
                    assert(false);
                } else {
                    let e = choose|e: PllFrequency| freq_bins@[k] == Some(e);
                    assert(freq_bins@[k] matches Some(q) && q == e);
                    let i = choose|i: int| 0 <= i < pll_table@.len() && pll_table@[i] == e;
                    assert(bin_of(pll_table@[i].frequency as int) == k);
                }
            }
        }
        pll_table
    }

    /// Look up the best divider for a target frequency in a table built by
    /// the precomputation.
    ///
    /// An exact match is returned as is. Otherwise the two neighbors of
    /// the insertion point are considered: if only one exists the target
    /// is outside the synthesizable range and a frequency error is
    /// reported; otherwise the neighbor closest to the target wins, with
    /// ties going to the lower frequency.
    pub fn lookup_freq(table: &Vec<PllFrequency>, target_freq: usize) -> (r: Result<
        PllFrequency,
        Error,
    >)
        requires
            sorted_by_frequency(table@),
        ensures
            r is Err <==> out_of_table(table@, target_freq as int),
            r is Err ==> r == Result::<PllFrequency, Error>::Err(Error::Frequency(target_freq)),
            has_exact(table@, target_freq as int) ==> (r matches Ok(pf) && pf.frequency
                == target_freq && table@.contains(pf)),
            (!has_exact(table@, target_freq as int) && r is Ok) ==> exists|i: int|
                0 < i < table@.len() && table@[i - 1].frequency < target_freq < #[trigger] (
                table@[i].frequency) && r == Result::<PllFrequency, Error>::Ok(
                    if distance_spec(table@[i - 1].frequency as int, target_freq as int)
                        <= distance_spec(table@[i].frequency as int, target_freq as int) {
                        table@[i - 1]
                    } else {
                        table@[i]
                    },
                ),
    {
        let ghost s = table@;
        let ghost t = target_freq as int;
        let mut lo: usize = 0;
        let mut hi: usize = table.len();
        while lo < hi
            invariant
                sorted_by_frequency(s),
                s == table@,
                t == target_freq as int,
                lo <= hi <= s.len(),
                forall|k: int| 0 <= k < lo ==> #[trigger] (s[k].frequency) < t,
                forall|k: int| hi <= k < s.len() ==> #[trigger] (s[k].frequency) > t,
            decreases hi - lo,
        {
            let mid = lo + (hi - lo) / 2;
            let f = table[mid].frequency;
            if f < target_freq {
                proof {
                    assert forall|k: int| 0 <= k < mid + 1 implies #[trigger] (s[k].frequency)
                        < t by {
                        if k < mid {
                            assert(s[k].frequency < s[mid as int].frequency);
                        }
                    }
                }
                lo = mid + 1;
            } else if f > target_freq {
                proof {
                    assert forall|k: int| mid <= k < s.len() implies #[trigger] (s[k].frequency)
                        > t by {
                        if k > mid {
                            assert(s[mid as int].frequency < s[k].frequency);
                        }
                    }
                }
                hi = mid;
            } else {
                // Exact match.
                let pf = table[mid];
                proof {
                    assert(s.contains(s[mid as int]));
                }
                return Ok(pf);
            }
        }
        // `lo == hi` is the insertion point; no entry matches exactly.
        proof {
            assert forall|i: int| 0 <= i < s.len() implies #[trigger] (s[i].frequency) != t by {
                if i < lo {
                    assert(s[i].frequency < t);
                } else {
                    assert(s[i].frequency > t);
                }
            }
        }
        if lo == 0 || lo >= table.len() {
            return Err(Error::Frequency(target_freq));
        }
        let below = table[lo - 1];
        let above = table[lo];
        proof {
            assert(s[0].frequency <= s[lo - 1].frequency);
            assert(s[lo as int].frequency <= s[s.len() - 1].frequency);
            assert(s.contains(s[lo - 1]));
            assert(s.contains(s[lo as int]));
        }
        if distance(below.frequency, target_freq) <= distance(above.frequency, target_freq) {
            proof {
                lemma_lookup_witness(s, t, lo as int);
            }
            Ok(below)
        } else {
            proof {
                lemma_lookup_witness(s, t, lo as int);
            }
            Ok(above)
        }
    }
}

/// The chip frequency a divider tuple synthesizes from the crystal.
pub open spec fn tuple_freq(xtal: int, t: PllReg) -> int {
    pll_frequency_spec(
        xtal,
        t.fbdiv as int,
        t.refdiv as int,
        t.postdiv1 as int,
        t.postdiv2 as int,
    )
}

/// Whether the search enumerates tuple `t` strictly before position
/// `(p1, rd, p2, fb)`: `postdiv1` runs outermost, then `refdiv`, then
/// `postdiv2`, then `fbdiv`.
pub open spec fn lex_before(t: PllReg, p1: int, rd: int, p2: int, fb: int) -> bool {
    ||| (t.postdiv1 as int) < p1
    ||| ((t.postdiv1 as int) == p1 && (t.refdiv as int) < rd)
    ||| ((t.postdiv1 as int) == p1 && (t.refdiv as int) == rd && (t.postdiv2 as int) < p2)
    ||| ((t.postdiv1 as int) == p1 && (t.refdiv as int) == rd && (t.postdiv2 as int) == p2 && (
    t.fbdiv as int) < fb)
}

/// Whether the search has already processed tuple `t` when it stands at
/// the given position.
pub open spec fn visited(t: PllReg, p1: int, rd: int, p2: int, fb: int) -> bool {
    in_search_space(t) && lex_before(t, p1, rd, p2, fb)
}

/// `a` is enumerated no later than `b`.
pub open spec fn reg_lex_le(a: PllReg, b: PllReg) -> bool {
    a == b || lex_before(a, b.postdiv1 as int, b.refdiv as int, b.postdiv2 as int, b.fbdiv as int)
}

/// The entry of bin `k` beats tuple `t`: its frequency lies strictly
/// closer to the bin's exact value, or equally close while `t` comes no
/// earlier in the enumeration. This is the table's tie-break rule: on an
/// exact tie the first tuple found stays.
pub open spec fn entry_beats(e: PllFrequency, k: int, xtal: int, t: PllReg) -> bool {
    ||| distance_spec(k * 1_000_000, e.frequency as int) < distance_spec(
        k * 1_000_000,
        tuple_freq(xtal, t),
    )
    ||| (distance_spec(k * 1_000_000, e.frequency as int) == distance_spec(
        k * 1_000_000,
        tuple_freq(xtal, t),
    ) && reg_lex_le(e.reg, t))
}

/// Entry `e` of bin `k` beats every visited tuple that falls into `k`.
pub open spec fn entry_best(e: PllFrequency, k: int, xtal: int, p1: int, rd: int, p2: int, fb: int) -> bool {
    forall|t: PllReg|
        visited(t, p1, rd, p2, fb) && bin_of(#[trigger] tuple_freq(xtal, t)) == k ==> entry_beats(
            e,
            k,
            xtal,
            t,
        )
}

/// No visited tuple falls into bin `k`.
pub open spec fn bin_unreached(k: int, xtal: int, p1: int, rd: int, p2: int, fb: int) -> bool {
    forall|t: PllReg| visited(t, p1, rd, p2, fb) ==> bin_of(#[trigger] tuple_freq(xtal, t)) != k
}

/// State of one bin at a search position: a filled bin holds a sound
/// entry that rounds to that very bin, was itself visited, and beats
/// every visited tuple of its bin; a supported bin still empty has not
/// been reached by any visited tuple.
pub open spec fn bin_state(
    o: Option<PllFrequency>,
    k: int,
    xtal: int,
    p1: int,
    rd: int,
    p2: int,
    fb: int,
) -> bool {
    &&& (o matches Some(e) ==> entry_ok(e, xtal) && bin_of(e.frequency as int) == k && visited(
        e.reg,
        p1,
        rd,
        p2,
        fb,
    ) && entry_best(e, k, xtal, p1, rd, p2, fb))
    &&& (o is None && MIN_MHZ <= k <= MAX_MHZ ==> bin_unreached(k, xtal, p1, rd, p2, fb))
}

/// Every bin is in the state `bin_state` asks at this search position.
pub open spec fn bins_opt(
    bins: Seq<Option<PllFrequency>>,
    xtal: int,
    p1: int,
    rd: int,
    p2: int,
    fb: int,
) -> bool {
    forall|k: int| 0 <= k < bins.len() ==> bin_state(#[trigger] bins[k], k, xtal, p1, rd, p2, fb)
}

/// Advancing the innermost position by one adds exactly the tuple at that
/// position to the visited set.
proof fn lemma_visited_step(c: PllReg, p1: int, rd: int, p2: int, fb: int)
    requires
        in_search_space(c),
        c.postdiv1 == p1,
        c.refdiv == rd,
        c.postdiv2 == p2,
        c.fbdiv == fb,
    ensures
        forall|t: PllReg|
            visited(t, p1, rd, p2, fb + 1) <==> (visited(t, p1, rd, p2, fb) || t == c),
{
    assert forall|t: PllReg|
        visited(t, p1, rd, p2, fb + 1) <==> (visited(t, p1, rd, p2, fb) || t == c) by {
        if visited(t, p1, rd, p2, fb + 1) && !visited(t, p1, rd, p2, fb) {
            assert(t.postdiv1 == c.postdiv1 && t.refdiv == c.refdiv && t.postdiv2 == c.postdiv2
                && t.fbdiv == c.fbdiv);
            assert(t == c);
        }
    }
}

/// Two positions with the same visited set carry the same bin state.
proof fn lemma_bins_opt_shift(
    bins: Seq<Option<PllFrequency>>,
    xtal: int,
    a1: int,
    a2: int,
    a3: int,
    a4: int,
    b1: int,
    b2: int,
    b3: int,
    b4: int,
)
    requires
        bins_opt(bins, xtal, a1, a2, a3, a4),
        forall|t: PllReg| visited(t, a1, a2, a3, a4) == visited(t, b1, b2, b3, b4),
    ensures
        bins_opt(bins, xtal, b1, b2, b3, b4),
{
    assert forall|k: int| 0 <= k < bins.len() implies bin_state(
        #[trigger] bins[k],
        k,
        xtal,
        b1,
        b2,
        b3,
        b4,
    ) by {
        match bins[k] {
            Some(e) => {
                assert(visited(e.reg, a1, a2, a3, a4));
                assert forall|t: PllReg|
                    visited(t, b1, b2, b3, b4) && bin_of(#[trigger] tuple_freq(xtal, t))
                        == k implies entry_beats(e, k, xtal, t) by {
                    assert(visited(t, a1, a2, a3, a4));
                }
            },
            None => {
                if MIN_MHZ <= k <= MAX_MHZ {
                    assert forall|t: PllReg| visited(t, b1, b2, b3, b4) implies bin_of(
                        #[trigger] tuple_freq(xtal, t),
                    ) != k by {
                        assert(visited(t, a1, a2, a3, a4));
                    }
                }
            },
        }
    }
}

/// After processing the tuple at the current position without storing it
/// (the bin already holds something at least as close), the bin state
/// carries over to the next position.
proof fn lemma_bins_keep_step(
    bins: Seq<Option<PllFrequency>>,
    xtal: int,
    p1: int,
    rd: int,
    p2: int,
    fb: int,
    c: PllReg,
    kc: int,
)
    requires
        bins_opt(bins, xtal, p1, rd, p2, fb),
        in_search_space(c),
        c.postdiv1 as int == p1,
        c.refdiv as int == rd,
        c.postdiv2 as int == p2,
        c.fbdiv as int == fb,
        kc == bin_of(tuple_freq(xtal, c)),
        0 <= kc < bins.len(),
        bins[kc] matches Some(olde) ==> distance_spec(kc * 1_000_000, olde.frequency as int)
            <= distance_spec(kc * 1_000_000, tuple_freq(xtal, c)),
        bins[kc] is Some,
    ensures
        bins_opt(bins, xtal, p1, rd, p2, fb + 1),
{
    lemma_visited_step(c, p1, rd, p2, fb);
    assert forall|k: int| 0 <= k < bins.len() implies bin_state(
        #[trigger] bins[k],
        k,
        xtal,
        p1,
        rd,
        p2,
        fb + 1,
    ) by {
        match bins[k] {
            Some(e) => {
                assert(visited(e.reg, p1, rd, p2, fb));
                assert forall|t: PllReg|
                    visited(t, p1, rd, p2, fb + 1) && bin_of(#[trigger] tuple_freq(xtal, t))
                        == k implies entry_beats(e, k, xtal, t) by {
                    if t == c {
                        assert(k == kc);
                        assert(reg_lex_le(e.reg, t));
                    } else {
                        assert(visited(t, p1, rd, p2, fb));
                    }
                }
            },
            None => {
                if MIN_MHZ <= k <= MAX_MHZ {
                    assert forall|t: PllReg| visited(t, p1, rd, p2, fb + 1) implies bin_of(
                        #[trigger] tuple_freq(xtal, t),
                    ) != k by {
                        if t == c {
                            assert(k != kc);
                        } else {
                            assert(visited(t, p1, rd, p2, fb));
                        }
                    }
                }
            },
        }
    }
}

/// After storing the tuple at the current position (it is strictly closer
/// to its bin's exact value than anything the bin held), the bin state
/// holds at the next position.
proof fn lemma_bins_replace_step(
    prev: Seq<Option<PllFrequency>>,
    bins: Seq<Option<PllFrequency>>,
    xtal: int,
    p1: int,
    rd: int,
    p2: int,
    fb: int,
    c: PllReg,
    pf: PllFrequency,
    kc: int,
)
    requires
        bins_opt(prev, xtal, p1, rd, p2, fb),
        in_search_space(c),
        c.postdiv1 as int == p1,
        c.refdiv as int == rd,
        c.postdiv2 as int == p2,
        c.fbdiv as int == fb,
        pf.reg == c,
        pf.frequency as int == tuple_freq(xtal, c),
        entry_ok(pf, xtal),
        kc == bin_of(tuple_freq(xtal, c)),
        0 <= kc < prev.len(),
        MIN_MHZ <= kc <= MAX_MHZ,
        prev[kc] matches Some(olde) ==> distance_spec(kc * 1_000_000, tuple_freq(xtal, c))
            < distance_spec(kc * 1_000_000, olde.frequency as int),
        bins == prev.update(kc, Some(pf)),
    ensures
        bins_opt(bins, xtal, p1, rd, p2, fb + 1),
{
    lemma_visited_step(c, p1, rd, p2, fb);
    assert forall|k: int| 0 <= k < bins.len() implies bin_state(
        #[trigger] bins[k],
        k,
        xtal,
        p1,
        rd,
        p2,
        fb + 1,
    ) by {
        if k == kc {
            assert(bins[k] == Some(pf));
            assert(visited(pf.reg, p1, rd, p2, fb + 1));
            assert forall|t: PllReg|
                visited(t, p1, rd, p2, fb + 1) && bin_of(#[trigger] tuple_freq(xtal, t))
                    == k implies entry_beats(pf, k, xtal, t) by {
                if t == c {
                    assert(reg_lex_le(pf.reg, t));
                } else {
                    assert(visited(t, p1, rd, p2, fb));
                    match prev[k] {
                        Some(olde) => {
                            assert(entry_beats(olde, k, xtal, t));
                            assert(distance_spec(k * 1_000_000, pf.frequency as int)
                                < distance_spec(k * 1_000_000, olde.frequency as int));
                        },
                        None => {
                            assert(bin_unreached(k, xtal, p1, rd, p2, fb));
                            assert(false);
                        },
                    }
                }
            }
        } else {
            assert(bins[k] == prev[k]);
            match bins[k] {
                Some(e) => {
                    assert(visited(e.reg, p1, rd, p2, fb));
                    assert forall|t: PllReg|
                        visited(t, p1, rd, p2, fb + 1) && bin_of(#[trigger] tuple_freq(xtal, t))
                            == k implies entry_beats(e, k, xtal, t) by {
                        if t != c {
                            assert(visited(t, p1, rd, p2, fb));
                        }
                    }
                },
                None => {
                    if MIN_MHZ <= k <= MAX_MHZ {
                        assert forall|t: PllReg| visited(t, p1, rd, p2, fb + 1) implies bin_of(
                            #[trigger] tuple_freq(xtal, t),
                        ) != k by {
                            if t != c {
                                assert(visited(t, p1, rd, p2, fb));
                            }
                        }
                    }
                },
            }
        }
    }
}

/// After processing a tuple whose bin lies outside the supported range,
/// the bin state holds at the next position: the tuple reaches no
/// supported bin.
proof fn lemma_bins_skip_step(
    bins: Seq<Option<PllFrequency>>,
    xtal: int,
    p1: int,
    rd: int,
    p2: int,
    fb: int,
    c: PllReg,
    kc: int,
)
    requires
        bins_opt(bins, xtal, p1, rd, p2, fb),
        in_search_space(c),
        c.postdiv1 as int == p1,
        c.refdiv as int == rd,
        c.postdiv2 as int == p2,
        c.fbdiv as int == fb,
        kc == bin_of(tuple_freq(xtal, c)),
        !(MIN_MHZ <= kc <= MAX_MHZ),
    ensures
        bins_opt(bins, xtal, p1, rd, p2, fb + 1),
{
    lemma_visited_step(c, p1, rd, p2, fb);
    assert forall|k: int| 0 <= k < bins.len() implies bin_state(
        #[trigger] bins[k],
        k,
        xtal,
        p1,
        rd,
        p2,
        fb + 1,
    ) by {
        match bins[k] {
            Some(e) => {
                assert(visited(e.reg, p1, rd, p2, fb));
                assert forall|t: PllReg|
                    visited(t, p1, rd, p2, fb + 1) && bin_of(#[trigger] tuple_freq(xtal, t))
                        == k implies entry_beats(e, k, xtal, t) by {
                    if t != c {
                        assert(visited(t, p1, rd, p2, fb));
                    } else {
                        assert(k == kc);
                        assert(MIN_MHZ <= bin_of(e.frequency as int) <= MAX_MHZ);
                    }
                }
            },
            None => {
                if MIN_MHZ <= k <= MAX_MHZ {
                    assert forall|t: PllReg| visited(t, p1, rd, p2, fb + 1) implies bin_of(
                        #[trigger] tuple_freq(xtal, t),
                    ) != k by {
                        if t != c {
                            assert(visited(t, p1, rd, p2, fb));
                        } else {
                            assert(k != kc);
                        }
                    }
                }
            },
        }
    }
}

proof fn lemma_lookup_witness(s: Seq<PllFrequency>, t: int, i: int)
    requires
        0 < i < s.len(),
        s[i - 1].frequency < t,
        s[i].frequency > t,
    ensures
        0 < i < s.len() && s[i - 1].frequency < t < s[i].frequency,
{
}

} // verus!
