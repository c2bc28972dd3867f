//! The redaction pipeline: filtering event-log lines by private time ranges,
//! and planning the blacked-out re-encode of the session video.
//!
//! Everything here is pure: the callers read the log and probe the video,
//! and hand plain values in; file copies and the actual encode run outside
//! the library.

use vstd::prelude::*;

verus! {

use crate::ranges::{PrivateRange, ranges_wf, in_ranges, merged_wf, sorted_by_start, merge};

/// What a log line holds: `None` when the line is not valid JSON, otherwise
/// the integer `time` field of the object, when there is one.
pub uninterp spec fn parsed_time_of_line(s: Seq<char>) -> Option<Option<i64>>;

/// Relies on serde_json::from_str::<Value>, Value::get and Value::as_i64:
/// whether the line parses as JSON, and if so, its integer `time` field.
/// The result depends on the line's characters alone.
#[verifier::external_body]
fn line_time(line: &str) -> (r: Option<Option<i64>>)
    ensures
        r == parsed_time_of_line(line@),
{
    match serde_json::from_str::<serde_json::Value>(line) {
        Ok(v) => Some(v.get("time").and_then(serde_json::Value::as_i64)),
        Err(_) => None,
    }
}

/// Errors surfaced by the redaction pipeline, and by nothing else.
#[derive(Clone, Copy, Debug, PartialEq, Eq, Structural)]
pub enum RedactionError {
    /// A private range has `start >= end`.
    MalformedRange { index: usize },
    /// A non-empty log line is not valid JSON.
    MalformedLogLine { index: usize },
    /// The probe output for the video could not be understood.
    BadProbeOutput,
}

/// View of each line of a log.
pub open spec fn views_of(lines: Seq<String>) -> Seq<Seq<char>> {
    lines.map_values(|l: String| l@)
}

/// The reference timestamp: the `time` of the first line, or zero when the
/// log is empty or its first line carries no `time` field. An empty first
/// line counts as a line without a timestamp.
pub open spec fn log_reference(ls: Seq<Seq<char>>) -> int {
    if ls.len() == 0 || ls[0].len() == 0 {
        0
    } else {
        match parsed_time_of_line(ls[0]) {
            Some(Some(t)) => t as int,
            _ => 0,
        }
    }
}

/// A line survives redaction when it has no timestamp — an empty line never
/// has one — or its session-relative timestamp lies outside every private
/// range.
pub open spec fn line_kept(l: Seq<char>, reference: int, rs: Seq<PrivateRange>) -> bool {
    if l.len() == 0 {
        true
    } else {
        match parsed_time_of_line(l) {
            Some(Some(t)) => !in_ranges(rs, t - reference),
            _ => true,
        }
    }
}

/// The survival predicate, as a function of the line.
pub open spec fn kept_pred(reference: int, rs: Seq<PrivateRange>) -> spec_fn(Seq<char>) -> bool {
    |l: Seq<char>| line_kept(l, reference, rs)
}

/// Filtering a one-longer prefix filters the prefix, then keeps or drops the
/// new element.
pub proof fn lemma_filter_take_step<A>(s: Seq<A>, p: spec_fn(A) -> bool, i: int)
    requires
        0 <= i < s.len(),
    ensures
        s.take(i + 1).filter(p) == if p(s[i]) {
            s.take(i).filter(p).push(s[i])
        } else {
            s.take(i).filter(p)
        },
{
    reveal(Seq::filter);
    assert(s.take(i + 1).drop_last() =~= s.take(i));
    assert(s.take(i + 1).last() == s[i]);
}

/// A filter that keeps every element returns the sequence unchanged.
proof fn lemma_filter_all_kept<A>(s: Seq<A>, p: spec_fn(A) -> bool)
    requires
        forall|i: int| 0 <= i < s.len() ==> p(#[trigger] s[i]),
    ensures
        s.filter(p) == s,
    decreases s.len(),
{
    reveal(Seq::filter);
    if s.len() > 0 {
        lemma_filter_all_kept(s.drop_last(), p);
        assert(s =~= s.drop_last().push(s.last()));
    }
}

/// With no private ranges declared, redaction keeps every log line: the
/// filtered log equals the original, whatever the reference timestamp.
pub proof fn lemma_empty_ranges_keep_log(ls: Seq<Seq<char>>, reference: int)
    ensures
        ls.filter(kept_pred(reference, Seq::<PrivateRange>::empty())) == ls,
{
    assert forall|i: int| 0 <= i < ls.len() implies kept_pred(
        reference,
        Seq::<PrivateRange>::empty(),
    )(#[trigger] ls[i]) by {
        if ls[i].len() != 0 {
            match parsed_time_of_line(ls[i]) {
                Some(Some(t)) => {
                    assert(!in_ranges(Seq::<PrivateRange>::empty(), t - reference));
                },
                _ => {},
            }
        }
    }
    lemma_filter_all_kept(ls, kept_pred(reference, Seq::<PrivateRange>::empty()));
}

/// Does the session-relative instant `rel` fall inside any listed range?
fn rel_time_in_ranges(rs: &Vec<PrivateRange>, rel: i128) -> (b: bool)
    requires
        i64::MIN - i64::MAX <= rel <= i64::MAX - i64::MIN,
    ensures
        b == in_ranges(rs@, rel as int),
{
    let mut k: usize = 0;
    while k < rs.len()
        invariant
            0 <= k <= rs@.len(),
            i64::MIN - i64::MAX <= rel <= i64::MAX - i64::MIN,
            forall|j: int| 0 <= j < k ==> !(#[trigger] rs@[j].contains_time(rel as int)),
        decreases rs@.len() - k,
    {
        let r = rs[k];
        if (r.start as i128) <= rel && rel < (r.end as i128) {
            proof {
                assert(rs@[k as int].contains_time(rel as int));
            }
            return true;
        }
        k += 1;
    }
    false
}

/// Check declared ranges and turn them into `PrivateRange` values.
///
/// Returns `Ok` exactly when every pair satisfies `start < end`; otherwise
/// names the first malformed pair.
pub fn validate_ranges(pairs: &Vec<(i64, i64)>) -> (r: Result<Vec<PrivateRange>, RedactionError>)
    ensures
        match r {
            Ok(rs) => {
                &&& ranges_wf(rs@)
                &&& rs@.len() == pairs@.len()
                &&& forall|i: int|
                    0 <= i < pairs@.len() ==> #[trigger] rs@[i] == (PrivateRange {
                        start: pairs@[i].0,
                        end: pairs@[i].1,
                    })
            },
            Err(e) => {
                &&& e matches RedactionError::MalformedRange { index }
                &&& (e matches RedactionError::MalformedRange { index } ==> {
                    &&& 0 <= index < pairs@.len()
                    &&& pairs@[index as int].0 >= pairs@[index as int].1
                    &&& forall|j: int| 0 <= j < index ==> pairs@[j].0 < pairs@[j].1
                })
            },
        },
{
    let mut rs: Vec<PrivateRange> = Vec::new();
    let mut i: usize = 0;
    while i < pairs.len()
        invariant
            0 <= i <= pairs@.len(),
            rs@.len() == i,
            forall|j: int|
                0 <= j < i ==> #[trigger] rs@[j] == (PrivateRange {
                    start: pairs@[j].0,
                    end: pairs@[j].1,
                }),
            forall|j: int| 0 <= j < i ==> #[trigger] pairs@[j].0 < pairs@[j].1,
        decreases pairs@.len() - i,
    {
        let (s, e) = pairs[i];
        if s >= e {
            return Err(RedactionError::MalformedRange { index: i });
        }
        rs.push(PrivateRange { start: s, end: e });
        i += 1;
    }
    proof {
        assert forall|j: int| 0 <= j < rs@.len() implies #[trigger] rs@[j].wf() by {
            assert(rs@[j] == (PrivateRange { start: pairs@[j].0, end: pairs@[j].1 }));
        }
    }
    Ok(rs)
}

/// Filter the lines of an event log by the private ranges.
///
/// The reference timestamp is the `time` of the first line; a line is
/// dropped exactly when its time, relative to that reference, falls inside
/// one of the ranges, and lines without a `time` field — empty lines among
/// them — always pass through, so filtering with no ranges declared returns
/// the log unchanged. Returns `Ok` exactly when every non-empty line is
/// valid JSON; otherwise names the first line that is not.
pub fn filter_log_lines(lines: &Vec<String>, rs: &Vec<PrivateRange>) -> (r: Result<
    Vec<String>,
    RedactionError,
>)
    ensures
        match r {
            Ok(out) => {
                let ls = views_of(lines@);
                &&& forall|i: int|
                    0 <= i < ls.len() ==> ((#[trigger] ls[i]).len() == 0 || parsed_time_of_line(
                        ls[i],
                    ) is Some)
                &&& views_of(out@) == ls.filter(kept_pred(log_reference(ls), rs@))
            },
            Err(e) => {
                let ls = views_of(lines@);
                &&& e matches RedactionError::MalformedLogLine { index }
                &&& (e matches RedactionError::MalformedLogLine { index } ==> {
                    &&& 0 <= index < ls.len()
                    &&& ls[index as int].len() != 0
                    &&& parsed_time_of_line(ls[index as int]) is None
                    &&& forall|j: int|
                        0 <= j < index ==> ((#[trigger] ls[j]).len() == 0 || parsed_time_of_line(
                            ls[j],
                        ) is Some)
                })
            },
        },
{
    let ghost ls = views_of(lines@);

    if lines.len() == 0 {
        let out: Vec<String> = Vec::new();
        proof {
            reveal(Seq::filter);
            assert(views_of(out@) =~= Seq::<Seq<char>>::empty());
            assert(ls.filter(kept_pred(log_reference(ls), rs@)) =~= Seq::<Seq<char>>::empty());
        }
        return Ok(out);
    }

    // Reference timestamp: the time of the first line.
    let first = &lines[0];
    proof {
        assert(ls[0] == lines@[0]@);
    }
    let reference: i64 = if first.as_str().is_empty() {
        0
    } else {
        match line_time(first.as_str()) {
            Option::None => {
                return Err(RedactionError::MalformedLogLine { index: 0 });
            },
            Option::Some(Option::Some(t)) => t,
            Option::Some(Option::None) => 0,
        }
    };
    proof {
        assert(reference as int == log_reference(ls));
    }

    let mut out: Vec<String> = Vec::new();
    let mut j: usize = 0;
    while j < lines.len()
        invariant
            0 <= j <= lines@.len(),
            ls == views_of(lines@),
            reference as int == log_reference(ls),
            forall|k: int|
                0 <= k < j ==> ((#[trigger] ls[k]).len() == 0 || parsed_time_of_line(ls[k])
                    is Some),
            views_of(out@) == ls.take(j as int).filter(kept_pred(reference as int, rs@)),
        decreases lines@.len() - j,
    {
        let ghost pre = out@;
        let line = &lines[j];
        proof {
            assert(ls[j as int] == lines@[j as int]@);
        }
        let keep: bool = if line.as_str().is_empty() {
            true
        } else {
            match line_time(line.as_str()) {
                Option::None => {
                    return Err(RedactionError::MalformedLogLine { index: j });
                },
                Option::Some(Option::Some(t)) => {
                    let rel: i128 = (t as i128) - (reference as i128);
                    !rel_time_in_ranges(rs, rel)
                },
                Option::Some(Option::None) => true,
            }
        };
        if keep {
            out.push(line.clone());
        }
        proof {
            lemma_filter_take_step(ls, kept_pred(reference as int, rs@), j as int);
            if kept_pred(reference as int, rs@)(ls[j as int]) {
                assert(views_of(out@) =~= views_of(pre).push(lines@[j as int]@));
            }
        }
        j += 1;
    }
    proof {
        assert(ls.take(lines@.len() as int) =~= ls);
    }
    Ok(out)
}

} // verus!
