//! Private time ranges and the interval merger.
//!
//! A `PrivateRange` is a user-declared interval to redact, in milliseconds
//! relative to the start of the session. Ranges arrive unsorted and possibly
//! overlapping; the first step of the redaction pipeline is `merge`, which
//! turns them into a sorted, pairwise-disjoint list covering the same
//! instants.

use vstd::prelude::*;

verus! {

use vstd::multiset::Multiset;

/// A half-open interval `[start, end)` of session-relative milliseconds.
#[derive(Clone, Copy, Debug, PartialEq, Eq, Structural)]
pub struct PrivateRange {
    pub start: i64,
    pub end: i64,
}

impl PrivateRange {
    /// A range is well-formed when it is non-empty.
    pub open spec fn wf(self) -> bool {
        self.start < self.end
    }

    /// The instant `t` lies inside this range.
    pub open spec fn contains_time(self, t: int) -> bool {
        self.start <= t < self.end
    }
}

/// Every range of the list is well-formed.
pub open spec fn ranges_wf(rs: Seq<PrivateRange>) -> bool {
    forall|i: int| 0 <= i < rs.len() ==> #[trigger] rs[i].wf()
}

/// The instant `t` lies inside the union of the listed ranges.
pub open spec fn in_ranges(rs: Seq<PrivateRange>, t: int) -> bool {
    exists|i: int| 0 <= i < rs.len() && #[trigger] rs[i].contains_time(t)
}

/// The ranges are ordered by start time.
pub open spec fn sorted_by_start(rs: Seq<PrivateRange>) -> bool {
    forall|i: int, j: int| 0 <= i <= j < rs.len() ==> #[trigger] rs[i].start <= #[trigger] rs[j].start
}

/// Shape of a merged list: well-formed, sorted, and with a real gap between
/// consecutive ranges (touching ranges have been fused).
pub open spec fn merged_wf(rs: Seq<PrivateRange>) -> bool {
    &&& ranges_wf(rs)
    &&& forall|i: int| 0 <= i && i + 1 < rs.len() ==> #[trigger] rs[i].end < rs[i + 1].start
}

/// Two lists with the same elements cover the same instants.
proof fn lemma_in_ranges_from_multiset(rs1: Seq<PrivateRange>, rs2: Seq<PrivateRange>, t: int)
    requires
        rs1.to_multiset() == rs2.to_multiset(),
        in_ranges(rs1, t),
    ensures
        in_ranges(rs2, t),
{
    broadcast use vstd::seq_lib::group_to_multiset_ensures;

    let i = choose|i: int| 0 <= i < rs1.len() && #[trigger] rs1[i].contains_time(t);
    assert(rs1.contains(rs1[i]));
    assert(rs2.to_multiset().count(rs1[i]) > 0);
    assert(rs2.contains(rs1[i]));
    let j = choose|j: int| 0 <= j < rs2.len() && rs2[j] == rs1[i];
    assert(rs2[j].contains_time(t));
}

/// Sort ranges by start time, returning a permutation of the input.
fn sort_by_start_time(input: Vec<PrivateRange>) -> (out: Vec<PrivateRange>)
    ensures
        sorted_by_start(out@),
        out@.to_multiset() == input@.to_multiset(),
{
    broadcast use vstd::seq_lib::group_to_multiset_ensures;

    let mut rest = input;
    let mut out: Vec<PrivateRange> = Vec::new();
    proof {
        assert(out@.to_multiset().add(rest@.to_multiset()) =~= input@.to_multiset());
    }
    while rest.len() > 0
        invariant
            sorted_by_start(out@),
            out@.to_multiset().add(rest@.to_multiset()) == input@.to_multiset(),
            forall|a: int, b: int|
                0 <= a < out@.len() && 0 <= b < rest@.len()
                    ==> #[trigger] out@[a].start <= #[trigger] rest@[b].start,
        decreases rest.len(),
    {
        // index of a minimal start among the remaining ranges
        let mut m: usize = 0;
        let mut k: usize = 1;
        while k < rest.len()
            invariant
                0 <= m < k <= rest.len(),
                rest.len() > 0,
                forall|x: int| 0 <= x < k ==> rest@[m as int].start <= #[trigger] rest@[x].start,
            decreases rest.len() - k,
        {
            if rest[k].start < rest[m].start {
                m = k;
            }
            k += 1;
        }
        let ghost old_out = out@;
        let ghost old_rest = rest@;
        let r = rest.remove(m);
        out.push(r);
        proof {
            broadcast use vstd::seq_lib::group_to_multiset_ensures;

            assert(out@ =~= old_out.push(r));
            assert(old_out.push(r).to_multiset() =~= old_out.to_multiset().insert(r));
            assert(rest@ =~= old_rest.remove(m as int));
            assert(r == old_rest[m as int]);
            assert(old_rest.remove(m as int).to_multiset() =~= old_rest.to_multiset().remove(r));
            assert(old_rest.contains(old_rest[m as int]));
            assert(old_rest.to_multiset().count(r) > 0);
            assert(out@.to_multiset().add(rest@.to_multiset()) =~= old_out.to_multiset().add(
                old_rest.to_multiset(),
            ));
            assert forall|b: int| 0 <= b < rest@.len() implies r.start <= #[trigger] rest@[b].start by {
                if b < m {
                    assert(rest@[b] == old_rest[b]);
                } else {
                    assert(rest@[b] == old_rest[b + 1]);
                }
            }
        }
    }
    proof {
        assert(rest@.to_multiset() =~= Multiset::<PrivateRange>::empty());
        assert(out@.to_multiset().add(rest@.to_multiset()) =~= out@.to_multiset());
    }
    out
}

/// The union of a prefix grows by exactly the next range.
proof fn lemma_in_ranges_take_step(rs: Seq<PrivateRange>, n: int, t: int)
    requires
        0 <= n < rs.len(),
    ensures
        in_ranges(rs.take(n + 1), t) == (in_ranges(rs.take(n), t) || rs[n].contains_time(t)),
{
    let pre = rs.take(n);
    let ext = rs.take(n + 1);
    assert(ext =~= pre.push(rs[n]));
    if in_ranges(ext, t) {
        let i = choose|i: int| 0 <= i < ext.len() && #[trigger] ext[i].contains_time(t);
        if i < n {
            assert(pre[i].contains_time(t));
        }
    }
    if in_ranges(pre, t) {
        let i = choose|i: int| 0 <= i < pre.len() && #[trigger] pre[i].contains_time(t);
        assert(ext[i].contains_time(t));
    }
    if rs[n].contains_time(t) {
        assert(ext[n].contains_time(t));
    }
}

/// Merge overlapping or touching ranges into a minimal, sorted,
/// pairwise-disjoint list.
///
/// The result covers exactly the instants covered by the input: for every
/// time `t`, `t` lies inside the merged list if and only if it lies inside
/// some input range.
pub fn merge(ranges: Vec<PrivateRange>) -> (out: Vec<PrivateRange>)
    requires
        ranges_wf(ranges@),
    ensures
        merged_wf(out@),
        sorted_by_start(out@),
        forall|t: int| in_ranges(out@, t) == in_ranges(ranges@, t),
        out@.len() <= ranges@.len(),
        out@.len() == 0 <==> ranges@.len() == 0,
{
    broadcast use vstd::seq_lib::group_to_multiset_ensures;

    let ghost orig = ranges@;
    let sorted = sort_by_start_time(ranges);
    proof {
        assert(sorted@.to_multiset().len() == orig.to_multiset().len());
        assert forall|t: int| in_ranges(sorted@, t) == in_ranges(orig, t) by {
            if in_ranges(sorted@, t) {
                lemma_in_ranges_from_multiset(sorted@, orig, t);
            }
            if in_ranges(orig, t) {
                lemma_in_ranges_from_multiset(orig, sorted@, t);
            }
        }
        assert(ranges_wf(sorted@)) by {
            assert forall|i: int| 0 <= i < sorted@.len() implies #[trigger] sorted@[i].wf() by {
                assert(sorted@.contains(sorted@[i]));
                assert(orig.to_multiset().count(sorted@[i]) > 0);
                assert(orig.contains(sorted@[i]));
                let j = choose|j: int| 0 <= j < orig.len() && orig[j] == sorted@[i];
                assert(orig[j].wf());
            }
        }
    }

    let mut out: Vec<PrivateRange> = Vec::new();
    let mut idx: usize = 0;
    while idx < sorted.len()
        invariant
            0 <= idx <= sorted.len(),
            sorted_by_start(sorted@),
            ranges_wf(sorted@),
            merged_wf(out@),
            sorted_by_start(out@),
            forall|t: int| in_ranges(out@, t) == in_ranges(sorted@.take(idx as int), t),
            out@.len() <= idx,
            out@.len() == 0 <==> idx == 0,
            out@.len() > 0 && idx < sorted@.len() ==> out@.last().start <= sorted@[idx as int].start,
        decreases sorted.len() - idx,
    {
        let r = sorted[idx];
        let ghost pre_out = out@;
        if out.len() == 0 {
            out.push(r);
            proof {
                assert forall|t: int| in_ranges(out@, t) == in_ranges(
                    sorted@.take(idx as int + 1),
                    t,
                ) by {
                    lemma_in_ranges_take_step(sorted@, idx as int, t);
                    assert(in_ranges(sorted@.take(idx as int), t) == in_ranges(pre_out, t));
                    if in_ranges(out@, t) {
                        let i = choose|i: int|
                            0 <= i < out@.len() && #[trigger] out@[i].contains_time(t);
                        assert(i == 0);
                        assert(r.contains_time(t));
                    }
                    if r.contains_time(t) {
                        assert(out@[0].contains_time(t));
                    }
                }
            }
        } else {
            let last_pos = out.len() - 1;
            let last = out[last_pos];
            if r.start <= last.end {
                // overlap or touch: extend the running range
                let new_end = if r.end > last.end {
                    r.end
                } else {
                    last.end
                };
                let fused = PrivateRange { start: last.start, end: new_end };
                out.set(last_pos, fused);
                proof {
                    assert(out@ =~= pre_out.update(last_pos as int, fused));
                    assert forall|t: int| in_ranges(out@, t) == in_ranges(
                        sorted@.take(idx as int + 1),
                        t,
                    ) by {
                        lemma_in_ranges_take_step(sorted@, idx as int, t);
                        // fused covers exactly last union r, because r starts
                        // inside or just after last
                        assert(last.start <= r.start);
                        assert(fused.contains_time(t) == (last.contains_time(t)
                            || r.contains_time(t)));
                        if in_ranges(out@, t) {
                            let i = choose|i: int|
                                0 <= i < out@.len() && #[trigger] out@[i].contains_time(t);
                            if i < last_pos {
                                assert(pre_out[i].contains_time(t));
                            }
                        }
                        if in_ranges(pre_out, t) {
                            let i = choose|i: int|
                                0 <= i < pre_out.len() && #[trigger] pre_out[i].contains_time(t);
                            if i < last_pos {
                                assert(out@[i].contains_time(t));
                            } else {
                                assert(out@[last_pos as int].contains_time(t));
                            }
                        }
                        if r.contains_time(t) {
                            assert(out@[last_pos as int].contains_time(t));
                        }
                    }
                }
            } else {
                out.push(r);
                proof {
                    assert forall|t: int| in_ranges(out@, t) == in_ranges(
                        sorted@.take(idx as int + 1),
                        t,
                    ) by {
                        lemma_in_ranges_take_step(sorted@, idx as int, t);
                        if in_ranges(out@, t) {
                            let i = choose|i: int|
                                0 <= i < out@.len() && #[trigger] out@[i].contains_time(t);
                            if i < pre_out.len() {
                                assert(pre_out[i].contains_time(t));
                            } else {
                                assert(r.contains_time(t));
                            }
                        }
                        if in_ranges(pre_out, t) {
                            let i = choose|i: int|
                                0 <= i < pre_out.len() && #[trigger] pre_out[i].contains_time(t);
                            assert(out@[i].contains_time(t));
                        }
                        if r.contains_time(t) {
                            assert(out@[pre_out.len() as int].contains_time(t));
                        }
                    }
                }
            }
        }
        idx += 1;
    }
    proof {
        assert(sorted@.take(sorted@.len() as int) =~= sorted@);
    }
    out
}

} // verus!

