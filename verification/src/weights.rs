//! Two-dimensional resource-cost quantities and the upgrade call's
//! resource-cost report.

use vstd::prelude::*;

use crate::scale::{compact_at, decode_compact_u64, lemma_compact_prefix_free, spec_compact};

verus! {

/// A two-dimensional resource cost: computation time (picoseconds) and
/// proof size (bytes).
#[derive(Clone, Copy, PartialEq, Eq, Structural, Debug)]
pub struct Weight {
    pub ref_time: u64,
    pub proof_size: u64,
}

/// What a successful upgrade call reports: the weight its migrations
/// consumed, and the total weight budget they were declared against.
#[derive(Clone, Copy, PartialEq, Eq, Structural, Debug)]
pub struct WeightReport {
    pub consumed: Weight,
    pub total: Weight,
}

/// The denominator used when a budget component is reported: a component of
/// zero is floored at one to avoid division by zero.
pub open spec fn spec_budget_floor(total: u64) -> u64 {
    if total == 0 {
        1u64
    } else {
        total
    }
}

/// Share of the budget one component consumed, in hundredths of a percent,
/// with the budget floored at one.
pub open spec fn spec_percent_x100(consumed: u64, total: u64) -> int {
    (consumed * 10000) / (spec_budget_floor(total) as int)
}

impl Weight {
    pub fn from_parts(ref_time: u64, proof_size: u64) -> (r: Weight)
        ensures
            r.ref_time == ref_time,
            r.proof_size == proof_size,
    {
        Weight { ref_time, proof_size }
    }

    /// Whether this cost fits within `budget` in both dimensions.
    pub fn fits_within(&self, budget: &Weight) -> (r: bool)
        ensures
            r == (self.ref_time <= budget.ref_time && self.proof_size <= budget.proof_size),
    {
        self.ref_time <= budget.ref_time && self.proof_size <= budget.proof_size
    }
}

/// Consumed share of the computation-time budget, in hundredths of a percent.
pub fn ref_time_percent_x100(consumed: &Weight, total: &Weight) -> (r: u128)
    ensures
        r == spec_percent_x100(consumed.ref_time, total.ref_time),
{
    let t: u64 = if total.ref_time == 0 { 1 } else { total.ref_time };
    (consumed.ref_time as u128) * 10000 / (t as u128)
}

/// Consumed share of the proof-size budget, in hundredths of a percent.
pub fn proof_size_percent_x100(consumed: &Weight, total: &Weight) -> (r: u128)
    ensures
        r == spec_percent_x100(consumed.proof_size, total.proof_size),
{
    let t: u64 = if total.proof_size == 0 { 1 } else { total.proof_size };
    (consumed.proof_size as u128) * 10000 / (t as u128)
}

/// The encoding of one weight: its two components, each in compact form.
pub open spec fn spec_weight_encoding(w: Weight) -> Seq<u8> {
    spec_compact(w.ref_time) + spec_compact(w.proof_size)
}

/// The encoding of a report: consumed weight, then total weight.
pub open spec fn spec_report_encoding(rep: WeightReport) -> Seq<u8> {
    spec_weight_encoding(rep.consumed) + spec_weight_encoding(rep.total)
}

/// Whether `s` opens with the encoding of `rep`. Trailing bytes are
/// allowed: a caller decodes the report off the front of the raw output.
pub open spec fn report_at(s: Seq<u8>, rep: WeightReport) -> bool {
    &&& spec_report_encoding(rep).len() <= s.len()
    &&& s.take(spec_report_encoding(rep).len() as int) == spec_report_encoding(rep)
}

/// A report prefix places its four compact fields at consecutive offsets.
proof fn lemma_report_parts(s: Seq<u8>, rep: WeightReport)
    requires
        report_at(s, rep),
    ensures
        compact_at(s, 0, rep.consumed.ref_time),
        compact_at(s, spec_compact(rep.consumed.ref_time).len() as int, rep.consumed.proof_size),
        compact_at(
            s,
            spec_compact(rep.consumed.ref_time).len() as int + spec_compact(
                rep.consumed.proof_size,
            ).len() as int,
            rep.total.ref_time,
        ),
        compact_at(
            s,
            spec_compact(rep.consumed.ref_time).len() as int + spec_compact(
                rep.consumed.proof_size,
            ).len() as int + spec_compact(rep.total.ref_time).len() as int,
            rep.total.proof_size,
        ),
{
    let e1 = spec_compact(rep.consumed.ref_time);
    let e2 = spec_compact(rep.consumed.proof_size);
    let e3 = spec_compact(rep.total.ref_time);
    let e4 = spec_compact(rep.total.proof_size);
    let e = spec_report_encoding(rep);
    assert(e =~= e1 + e2 + e3 + e4);
    let n = e.len() as int;
    assert forall|i: int| 0 <= i < n implies s[i] == e[i] by {
        assert(s.take(n)[i] == e[i]);
    }
    let l1 = e1.len() as int;
    let l2 = e2.len() as int;
    let l3 = e3.len() as int;
    let l4 = e4.len() as int;
    assert(s.subrange(0, l1) =~= e1);
    assert(s.subrange(l1, l1 + l2) =~= e2);
    assert(s.subrange(l1 + l2, l1 + l2 + l3) =~= e3);
    assert(s.subrange(l1 + l2 + l3, l1 + l2 + l3 + l4) =~= e4);
}

/// At most one report opens a given byte string: the four compact fields
/// are pinned in turn, since no compact encoding is a prefix of another.
pub proof fn lemma_report_unique(s: Seq<u8>, a: WeightReport, b: WeightReport)
    requires
        report_at(s, a),
        report_at(s, b),
    ensures
        a == b,
{
    lemma_report_parts(s, a);
    lemma_report_parts(s, b);
    lemma_compact_prefix_free(s, 0, a.consumed.ref_time, b.consumed.ref_time);
    let o1 = spec_compact(a.consumed.ref_time).len() as int;
    lemma_compact_prefix_free(s, o1, a.consumed.proof_size, b.consumed.proof_size);
    let o2 = o1 + spec_compact(a.consumed.proof_size).len() as int;
    lemma_compact_prefix_free(s, o2, a.total.ref_time, b.total.ref_time);
    let o3 = o2 + spec_compact(a.total.ref_time).len() as int;
    lemma_compact_prefix_free(s, o3, a.total.proof_size, b.total.proof_size);
}

/// The report a byte string opens with, if any. By
/// [`lemma_report_unique`] there is at most one.
pub open spec fn spec_decoded_report(s: Seq<u8>) -> Option<WeightReport> {
    if exists|rep: WeightReport| report_at(s, rep) {
        Some(choose|rep: WeightReport| report_at(s, rep))
    } else {
        None
    }
}

/// Decode the resource-cost report off the front of a raw output: four
/// compact values, read strictly as (consumed, total). Succeeds exactly
/// when the bytes open with a well-formed report.
pub fn decode_weight_report(bytes: &Vec<u8>) -> (r: Option<WeightReport>)
    ensures
        r == spec_decoded_report(bytes@),
        (match r {
            Some(rep) => report_at(bytes@, rep),
            None => forall|rep: WeightReport| !report_at(bytes@, rep),
        }),
{
    let r1 = decode_compact_u64(bytes, 0);
    let (n1, p1): (u64, usize) = match r1 {
        Some(x) => x,
        None => {
            proof {
                assert forall|rep: WeightReport| !report_at(bytes@, rep) by {
                    if report_at(bytes@, rep) {
                        lemma_report_parts(bytes@, rep);
                    }
                }
            }
            return None;
        },
    };
    let r2 = decode_compact_u64(bytes, p1);
    let (n2, p2): (u64, usize) = match r2 {
        Some(x) => x,
        None => {
            proof {
                assert forall|rep: WeightReport| !report_at(bytes@, rep) by {
                    if report_at(bytes@, rep) {
                        lemma_report_parts(bytes@, rep);
                        lemma_compact_prefix_free(bytes@, 0, rep.consumed.ref_time, n1);
                    }
                }
            }
            return None;
        },
    };
    let r3 = decode_compact_u64(bytes, p2);
    let (n3, p3): (u64, usize) = match r3 {
        Some(x) => x,
        None => {
            proof {
                assert forall|rep: WeightReport| !report_at(bytes@, rep) by {
                    if report_at(bytes@, rep) {
                        lemma_report_parts(bytes@, rep);
                        lemma_compact_prefix_free(bytes@, 0, rep.consumed.ref_time, n1);
                        lemma_compact_prefix_free(
                            bytes@,
                            p1 as int,
                            rep.consumed.proof_size,
                            n2,
                        );
                    }
                }
            }
            return None;
        },
    };
    let r4 = decode_compact_u64(bytes, p3);
    let (n4, p4): (u64, usize) = match r4 {
        Some(x) => x,
        None => {
            proof {
                assert forall|rep: WeightReport| !report_at(bytes@, rep) by {
                    if report_at(bytes@, rep) {
                        lemma_report_parts(bytes@, rep);
                        lemma_compact_prefix_free(bytes@, 0, rep.consumed.ref_time, n1);
                        lemma_compact_prefix_free(
                            bytes@,
                            p1 as int,
                            rep.consumed.proof_size,
                            n2,
                        );
                        lemma_compact_prefix_free(bytes@, p2 as int, rep.total.ref_time, n3);
                    }
                }
            }
            return None;
        },
    };
    let rep = WeightReport {
        consumed: Weight { ref_time: n1, proof_size: n2 },
        total: Weight { ref_time: n3, proof_size: n4 },
    };
    proof {
        assert(bytes@.take(p4 as int) =~= bytes@.subrange(0, p1 as int) + bytes@.subrange(
            p1 as int,
            p2 as int,
        ) + bytes@.subrange(p2 as int, p3 as int) + bytes@.subrange(p3 as int, p4 as int));
        assert(spec_report_encoding(rep) =~= spec_compact(n1) + spec_compact(n2) + spec_compact(n3)
            + spec_compact(n4));
        assert(report_at(bytes@, rep));
        let w = choose|w: WeightReport| report_at(bytes@, w);
        lemma_report_unique(bytes@, rep, w);
    }
    Some(rep)
}

} // verus!
