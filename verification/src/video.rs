//! Planning the blacked-out re-encode of a session video.
//!
//! Given the probed duration and the merged private ranges, the planner
//! produces an alternating list of segments: spans of the source that stay
//! visible, and spans replaced by solid black of equal length. The segments
//! tile the whole video, and an instant is blacked out exactly when it lies
//! inside a private range.

use vstd::prelude::*;

verus! {

use vstd::string::StringExecFns;
use crate::numfmt::{dec_str, secs_str, u64_to_dec, ms_to_secs};
use crate::ranges::{PrivateRange, in_ranges, merged_wf, sorted_by_start};
use crate::redact::{RedactionError, views_of};
use crate::textparse::{
    trimmed, valid_duration_text, duration_text_ms, valid_resolution_text, resolution_text_wh,
    parse_duration_ms, parse_resolution,
};

/// One span of the output video, in source milliseconds.
#[derive(Clone, Copy, Debug, PartialEq, Eq, Structural)]
pub enum Segment {
    /// The source span `[start_ms, end_ms)`, shown as recorded.
    Trim { start_ms: u64, end_ms: u64 },
    /// The source span `[start_ms, end_ms)`, replaced by solid black.
    Black { start_ms: u64, end_ms: u64 },
}

impl Segment {
    pub open spec fn start(self) -> int {
        match self {
            Segment::Trim { start_ms, .. } => start_ms as int,
            Segment::Black { start_ms, .. } => start_ms as int,
        }
    }

    pub open spec fn end(self) -> int {
        match self {
            Segment::Trim { end_ms, .. } => end_ms as int,
            Segment::Black { end_ms, .. } => end_ms as int,
        }
    }

    pub open spec fn wf(self) -> bool {
        self.start() < self.end()
    }
}

/// How to produce the redacted video.
#[derive(Clone, Debug, PartialEq, Eq)]
pub enum VideoPlan {
    /// Nothing to hide: copy the source file unchanged.
    Copy,
    /// Re-encode once through a filter graph built from these segments.
    Filter { segments: Vec<Segment> },
}

/// The segments cover `[0, dur]` contiguously and in order.
pub open spec fn tiles(segs: Seq<Segment>, dur: int) -> bool {
    &&& forall|i: int| 0 <= i < segs.len() ==> (#[trigger] segs[i]).wf()
    &&& forall|i: int| 0 <= i && i + 1 < segs.len() ==> (#[trigger] segs[i]).end() == segs[i
        + 1].start()
    &&& segs.len() > 0 ==> segs[0].start() == 0 && segs.last().end() == dur
}

/// The instant `t` falls in a blacked-out segment.
pub open spec fn hidden_at(segs: Seq<Segment>, t: int) -> bool {
    exists|i: int|
        0 <= i < segs.len() && (#[trigger] segs[i]) is Black && segs[i].start()
            <= t < segs[i].end()
}

/// Shown and blacked-out spans alternate: no two consecutive segments are
/// of the same kind.
pub open spec fn alternating(segs: Seq<Segment>) -> bool {
    forall|i: int|
        0 <= i && i + 1 < segs.len() ==> ((#[trigger] segs[i]) is Trim <==> !((
        #[trigger] segs[i + 1]) is Trim))
}

/// Clamping an instant into `[0, dur]`.
pub open spec fn clamp(x: int, dur: int) -> int {
    if x < 0 {
        0
    } else if x > dur {
        dur
    } else {
        x
    }
}

proof fn lemma_hidden_push(segs: Seq<Segment>, seg: Segment, t: int)
    ensures
        hidden_at(segs.push(seg), t) == (hidden_at(segs, t) || (seg is Black
            && seg.start() <= t < seg.end())),
{
    let ext = segs.push(seg);
    if hidden_at(ext, t) {
        let i = choose|i: int|
            0 <= i < ext.len() && (#[trigger] ext[i]) is Black && ext[i].start()
                <= t < ext[i].end();
        if i < segs.len() {
            assert(segs[i] == ext[i]);
            assert(hidden_at(segs, t));
        }
    }
    if hidden_at(segs, t) {
        let i = choose|i: int|
            0 <= i < segs.len() && (#[trigger] segs[i]) is Black
                && segs[i].start() <= t < segs[i].end();
        assert(ext[i] == segs[i]);
        assert(hidden_at(ext, t));
    }
    if seg is Black && seg.start() <= t < seg.end() {
        assert(ext[segs.len() as int] == seg);
        assert(hidden_at(ext, t));
    }
}

/// Build the segment list for the redacted video.
///
/// `merged` must be the output of `merge`. The plan is `Copy` if and only
/// if no merged range touches `[0, duration_ms)`; otherwise the segments
/// tile `[0, duration_ms]`, strictly alternate between shown and blacked
/// spans, and black out exactly the instants that lie inside a private
/// range.
#[verifier::rlimit(100)]
pub fn plan_video(duration_ms: u64, merged: &Vec<PrivateRange>) -> (r: VideoPlan)
    requires
        merged_wf(merged@),
        sorted_by_start(merged@),
    ensures
        match r {
            VideoPlan::Copy => forall|t: int| 0 <= t < duration_ms ==> !in_ranges(merged@, t),
            VideoPlan::Filter { segments } => {
                &&& segments@.len() > 0
                &&& tiles(segments@, duration_ms as int)
                &&& alternating(segments@)
                &&& forall|t: int|
                    0 <= t < duration_ms ==> hidden_at(segments@, t) == in_ranges(merged@, t)
            },
        },
        merged@.len() == 0 ==> r is Copy,
        (r is Copy) <==> (forall|t: int|
            0 <= t < duration_ms ==> !(#[trigger] in_ranges(merged@, t))),
{
    let mut segs: Vec<Segment> = Vec::new();
    let mut last_end: u64 = 0;
    let mut idx: usize = 0;
    while idx < merged.len()
        invariant
            0 <= idx <= merged@.len(),
            last_end <= duration_ms,
            merged_wf(merged@),
            sorted_by_start(merged@),
            forall|i: int| 0 <= i < segs@.len() ==> (#[trigger] segs@[i]).wf(),
            forall|i: int|
                0 <= i && i + 1 < segs@.len() ==> (#[trigger] segs@[i]).end() == segs@[i
                    + 1].start(),
            segs@.len() > 0 ==> segs@[0].start() == 0 && segs@.last().end() == last_end,
            segs@.len() == 0 ==> last_end == 0,
            forall|t: int|
                0 <= t < duration_ms && in_ranges(merged@.take(idx as int), t) ==> t < last_end,
            forall|t: int| 0 <= t < last_end ==> hidden_at(segs@, t) == in_ranges(merged@, t),
            forall|t: int| hidden_at(segs@, t) ==> 0 <= t < last_end,
            merged@.len() == 0 ==> segs@.len() == 0,
            alternating(segs@),
            segs@.len() > 0 ==> segs@.last() is Black && last_end > 0,
            idx < merged@.len() ==> last_end as int <= clamp(
                merged@[idx as int].start as int,
                duration_ms as int,
            ),
        decreases merged@.len() - idx,
    {
        let r = merged[idx];
        let si = r.start as i128;
        let ei = r.end as i128;
        let di = duration_ms as i128;
        let s: u64 = if si < 0 {
            0
        } else if si > di {
            duration_ms
        } else {
            si as u64
        };
        let e: u64 = if ei < 0 {
            0
        } else if ei > di {
            duration_ms
        } else {
            ei as u64
        };
        proof {
            assert(s as int == clamp(r.start as int, duration_ms as int));
            assert(e as int == clamp(r.end as int, duration_ms as int));
        }
        let ghost pre = segs@;
        let ghost pre_end = last_end;
        proof {
            // merged ranges are separated, so the clamped span starts at or
            // after the watermark
            assert(last_end as int <= s as int);
            if idx + 1 < merged@.len() {
                assert(merged@[idx as int].end < merged@[idx as int + 1].start);
            }
        }
        if s < e {
            proof {
                // with spans already laid down, the new one starts strictly
                // past the watermark: the last blacked instant lies in an
                // earlier range, and the merge left a gap after it
                if pre.len() > 0 && s == pre_end {
                    let t0 = pre_end - 1;
                    assert(pre[pre.len() - 1] is Black);
                    assert(pre[pre.len() - 1].end() == pre_end);
                    assert(pre[pre.len() - 1].wf());
                    assert(hidden_at(pre, t0));
                    assert(in_ranges(merged@, t0));
                    let k = choose|k: int|
                        0 <= k < merged@.len() && #[trigger] merged@[k].contains_time(t0);
                    assert(e as int <= duration_ms);
                    assert(0 < s < duration_ms);
                    assert(s as int == r.start as int);
                    if k < idx {
                        assert(merged@[k].end < merged@[k + 1].start);
                        assert(merged@[k + 1].start <= merged@[idx as int].start);
                        assert(t0 < merged@[k].end);
                        assert(false);
                    } else {
                        assert(merged@[idx as int].start <= merged@[k].start);
                        assert(merged@[k].start <= t0);
                        assert(false);
                    }
                }
            }
            // the range has a visible intersection with the video
            if s > last_end {
                segs.push(Segment::Trim { start_ms: last_end, end_ms: s });
            }
            segs.push(Segment::Black { start_ms: s, end_ms: e });
            last_end = e;
            proof {
                let mid = if s > pre_end {
                    pre.push(Segment::Trim { start_ms: pre_end, end_ms: s })
                } else {
                    pre
                };
                assert(segs@ =~= mid.push(Segment::Black { start_ms: s, end_ms: e }));
                assert forall|t: int| hidden_at(segs@, t) == (hidden_at(pre, t) || (s <= t
                    < e)) by {
                    lemma_hidden_push(mid, Segment::Black { start_ms: s, end_ms: e }, t);
                    if s > pre_end {
                        lemma_hidden_push(
                            pre,
                            Segment::Trim { start_ms: pre_end, end_ms: s },
                            t,
                        );
                    }
                }
                // instants newly hidden lie inside the current range
                assert forall|t: int| 0 <= t < last_end implies hidden_at(segs@, t) == in_ranges(
                    merged@,
                    t,
                ) by {
                    if t < pre_end {
                        if s <= t < e {
                            // the clamped span lies inside the range itself
                            assert(merged@[idx as int].contains_time(t));
                            assert(in_ranges(merged@, t));
                        } else {
                            assert(hidden_at(segs@, t) == hidden_at(pre, t));
                        }
                    } else {
                        // t in [pre_end, e)
                        assert(!hidden_at(pre, t));
                        if s <= t {
                            assert(r.contains_time(t));
                            assert(merged@[idx as int].contains_time(t));
                            assert(in_ranges(merged@, t));
                        } else {
                            // t in the gap [pre_end, s): no range covers it
                            assert(!in_ranges(merged@, t)) by {
                                if in_ranges(merged@, t) {
                                    let j = choose|j: int|
                                        0 <= j < merged@.len() && #[trigger] merged@[j].contains_time(
                                            t,
                                        );
                                    if j < idx {
                                        assert(in_ranges(merged@.take(idx as int), t)) by {
                                            assert(merged@.take(idx as int)[j].contains_time(t));
                                        }
                                    } else {
                                        // ranges from idx on start at or after this one
                                        assert(merged@[idx as int].start <= merged@[j].start);
                                        assert(t < s <= duration_ms);
                                        assert(t < merged@[idx as int].start);
                                    }
                                }
                            }
                        }
                    }
                }
                assert forall|t: int| hidden_at(segs@, t) implies 0 <= t < last_end by {
                    assert(hidden_at(pre, t) || (s <= t < e));
                    if hidden_at(pre, t) {
                        assert(0 <= t < pre_end);
                    }
                }
                // processed in-bounds instants stay below the new watermark
                assert forall|t: int|
                    0 <= t < duration_ms && #[trigger] in_ranges(
                        merged@.take(idx as int + 1),
                        t,
                    ) implies t < last_end by {
                    let j = choose|j: int|
                        0 <= j < idx + 1 && #[trigger] merged@.take(idx as int + 1)[j].contains_time(
                            t,
                        );
                    if j < idx {
                        assert(merged@.take(idx as int)[j].contains_time(t));
                        assert(in_ranges(merged@.take(idx as int), t));
                        assert(t < pre_end);
                    } else {
                        assert(merged@[idx as int].contains_time(t));
                        assert(t < r.end && t < duration_ms);
                    }
                }
                // the new spans keep the list alternating, Black last
                assert forall|i: int|
                    0 <= i && i + 1 < segs@.len() implies ((#[trigger] segs@[i]) is Trim <==> !((
                    #[trigger] segs@[i + 1]) is Trim)) by {
                    if s > pre_end {
                        let tseg = Segment::Trim { start_ms: pre_end, end_ms: s };
                        let bseg = Segment::Black { start_ms: s, end_ms: e };
                        assert(segs@ =~= pre.push(tseg).push(bseg));
                        if i + 1 < pre.len() {
                            assert(segs@[i] == pre[i] && segs@[i + 1] == pre[i + 1]);
                        } else if i + 1 == pre.len() {
                            assert(segs@[i] == pre[pre.len() - 1]);
                            assert(pre[pre.len() - 1] is Black);
                            assert(segs@[i + 1] == tseg);
                        } else {
                            assert(i == pre.len());
                            assert(segs@[i] == tseg && segs@[i + 1] == bseg);
                        }
                    } else {
                        assert(pre.len() == 0);
                        assert(segs@.len() == 1);
                    }
                }
            }
        } else {
            // the clamped range is empty: it covers no in-bounds instant
            proof {
                assert forall|t: int|
                    0 <= t < duration_ms && #[trigger] in_ranges(
                        merged@.take(idx as int + 1),
                        t,
                    ) implies t < last_end by {
                    let j = choose|j: int|
                        0 <= j < idx + 1 && #[trigger] merged@.take(idx as int + 1)[j].contains_time(
                            t,
                        );
                    if j < idx {
                        assert(merged@.take(idx as int)[j].contains_time(t));
                        assert(in_ranges(merged@.take(idx as int), t));
                    } else {
                        assert(merged@[idx as int].contains_time(t));
                        // s >= e, yet t lies in the range and in the video:
                        // clamping would have kept the span around t
                        if (r.start as int) > (duration_ms as int) {
                            assert(false);  // t >= start, but t < duration
                        } else if (r.end as int) < 0 {
                            assert(false);  // t < end, but t >= 0
                        } else {
                            assert(s as int <= t);
                            assert(t < e as int);
                            assert(false);
                        }
                    }
                }
            }
        }
        idx += 1;
    }
    proof {
        assert(merged@.take(merged@.len() as int) =~= merged@);
    }
    if segs.len() == 0 {
        return VideoPlan::Copy;
    }
    let ghost witness_t: int = last_end - 1;
    proof {
        // some instant is blacked out: the converse of the straight-copy rule
        assert(segs@[segs@.len() - 1] is Black);
        assert(segs@[segs@.len() - 1].end() == last_end);
        assert(segs@[segs@.len() - 1].wf());
        assert(hidden_at(segs@, witness_t));
        assert(in_ranges(merged@, witness_t));
        assert(0 <= witness_t < duration_ms);
    }
    if last_end < duration_ms {
        let ghost pre = segs@;
        segs.push(Segment::Trim { start_ms: last_end, end_ms: duration_ms });
        proof {
            assert forall|t: int| hidden_at(segs@, t) == hidden_at(pre, t) by {
                lemma_hidden_push(
                    pre,
                    Segment::Trim { start_ms: last_end, end_ms: duration_ms },
                    t,
                );
            }
            // the closing shown span follows a blacked one
            assert forall|i: int|
                0 <= i && i + 1 < segs@.len() implies ((#[trigger] segs@[i]) is Trim <==> !((
                #[trigger] segs@[i + 1]) is Trim)) by {
                if i + 1 < pre.len() {
                    assert(segs@[i] == pre[i] && segs@[i + 1] == pre[i + 1]);
                } else {
                    assert(i + 1 == pre.len());
                    assert(segs@[i] == pre[pre.len() - 1]);
                    assert(pre[pre.len() - 1] is Black);
                    assert(segs@[i + 1] == (Segment::Trim {
                        start_ms: last_end,
                        end_ms: duration_ms,
                    }));
                }
            }
        }
    }
    VideoPlan::Filter { segments: segs }
}


/// The filter-graph text for one shown span.
pub open spec fn trim_part_str(start: int, end: int, i: int) -> Seq<char> {
    "[0:v]trim=start="@ + secs_str(start) + ":end="@ + secs_str(end)
        + ",setpts=PTS-STARTPTS[v"@ + dec_str(i) + "]"@
}

/// The filter-graph text for one blacked-out span.
pub open spec fn black_part_str(w: int, h: int, start: int, end: int, i: int) -> Seq<char> {
    "color=c=black:s="@ + dec_str(w) + "x"@ + dec_str(h) + ":d="@ + secs_str(end - start)
        + "[v"@ + dec_str(i) + "]"@
}

/// The filter-graph text for the `i`-th segment.
pub open spec fn part_str(seg: Segment, i: int, w: int, h: int) -> Seq<char> {
    match seg {
        Segment::Trim { start_ms, end_ms } => trim_part_str(start_ms as int, end_ms as int, i),
        Segment::Black { start_ms, end_ms } => black_part_str(
            w,
            h,
            start_ms as int,
            end_ms as int,
            i,
        ),
    }
}

/// The first `n` segment filters, each ended by a semicolon.
pub open spec fn parts_str(segs: Seq<Segment>, w: int, h: int, n: int) -> Seq<char>
    decreases n,
{
    if n <= 0 {
        Seq::<char>::empty()
    } else {
        parts_str(segs, w, h, n - 1) + part_str(segs[n - 1], n - 1, w, h) + ";"@
    }
}

/// The concat inputs `[v0][v1]...` for the first `n` segments.
pub open spec fn inputs_str(n: int) -> Seq<char>
    decreases n,
{
    if n <= 0 {
        Seq::<char>::empty()
    } else {
        inputs_str(n - 1) + "[v"@ + dec_str(n - 1) + "]"@
    }
}

/// The whole filter graph: every segment filter, then one concat of them.
pub open spec fn graph_str(segs: Seq<Segment>, w: int, h: int) -> Seq<char> {
    parts_str(segs, w, h, segs.len() as int) + inputs_str(segs.len() as int) + "concat=n="@
        + dec_str(segs.len() as int) + ":v=1:a=0[outv]"@
}

/// Render the filter graph for the segments at the given resolution.
pub fn render_filter_graph(segments: &Vec<Segment>, width: u32, height: u32) -> (g: String)
    requires
        forall|i: int| 0 <= i < segments@.len() ==> (#[trigger] segments@[i]).wf(),
    ensures
        g@ == graph_str(segments@, width as int, height as int),
{
    let ghost w = width as int;
    let ghost h = height as int;
    let mut parts = String::new();
    let mut inputs = String::new();
    let mut i: usize = 0;
    while i < segments.len()
        invariant
            0 <= i <= segments@.len(),
            forall|k: int| 0 <= k < segments@.len() ==> (#[trigger] segments@[k]).wf(),
            parts@ == parts_str(segments@, w, h, i as int),
            inputs@ == inputs_str(i as int),
            w == width as int,
            h == height as int,
        decreases segments@.len() - i,
    {
        let ghost pre_parts = parts@;
        let idx = u64_to_dec(i as u64);
        match segments[i] {
            Segment::Trim { start_ms, end_ms } => {
                parts.append("[0:v]trim=start=");
                let st = ms_to_secs(start_ms);
                parts.append(st.as_str());
                parts.append(":end=");
                let en = ms_to_secs(end_ms);
                parts.append(en.as_str());
                parts.append(",setpts=PTS-STARTPTS[v");
                parts.append(idx.as_str());
                parts.append("]");
                proof {
                    assert(parts@ =~= pre_parts + part_str(segments@[i as int], i as int, w, h));
                }
            },
            Segment::Black { start_ms, end_ms } => {
                parts.append("color=c=black:s=");
                let ws = u64_to_dec(width as u64);
                parts.append(ws.as_str());
                parts.append("x");
                let hs = u64_to_dec(height as u64);
                parts.append(hs.as_str());
                parts.append(":d=");
                let du = ms_to_secs(end_ms - start_ms);
                parts.append(du.as_str());
                parts.append("[v");
                parts.append(idx.as_str());
                parts.append("]");
                proof {
                    assert(parts@ =~= pre_parts + part_str(segments@[i as int], i as int, w, h));
                }
            },
        }
        parts.append(";");
        let ghost pre_inputs = inputs@;
        inputs.append("[v");
        inputs.append(idx.as_str());
        inputs.append("]");
        proof {
            assert(parts@ =~= parts_str(segments@, w, h, i as int + 1));
            assert(inputs@ =~= inputs_str(i as int + 1));
        }
        i += 1;
    }
    let mut g = parts;
    g.append(inputs.as_str());
    g.append("concat=n=");
    let cnt = u64_to_dec(segments.len() as u64);
    g.append(cnt.as_str());
    g.append(":v=1:a=0[outv]");
    proof {
        assert(g@ =~= graph_str(segments@, w, h));
    }
    g
}

/// The probe command line that asks for a container duration.
pub fn probe_duration_args(input_path: &str) -> (args: Vec<String>)
    ensures
        views_of(args@) =~= seq![
            "-v"@,
            "error"@,
            "-show_entries"@,
            "format=duration"@,
            "-of"@,
            "default=noprint_wrappers=1:nokey=1"@,
            input_path@,
        ],
{
    let mut args: Vec<String> = Vec::new();
    args.push("-v".to_owned());
    args.push("error".to_owned());
    args.push("-show_entries".to_owned());
    args.push("format=duration".to_owned());
    args.push("-of".to_owned());
    args.push("default=noprint_wrappers=1:nokey=1".to_owned());
    args.push(input_path.to_owned());
    args
}

/// The probe command line that asks for the first video stream's resolution.
pub fn probe_resolution_args(input_path: &str) -> (args: Vec<String>)
    ensures
        views_of(args@) =~= seq![
            "-v"@,
            "error"@,
            "-select_streams"@,
            "v:0"@,
            "-show_entries"@,
            "stream=width,height"@,
            "-of"@,
            "csv=s=x:p=0"@,
            input_path@,
        ],
{
    let mut args: Vec<String> = Vec::new();
    args.push("-v".to_owned());
    args.push("error".to_owned());
    args.push("-select_streams".to_owned());
    args.push("v:0".to_owned());
    args.push("-show_entries".to_owned());
    args.push("stream=width,height".to_owned());
    args.push("-of".to_owned());
    args.push("csv=s=x:p=0".to_owned());
    args.push(input_path.to_owned());
    args
}

/// The encoder command line that applies a filter graph once.
pub open spec fn encode_cmd(input: Seq<char>, graph: Seq<char>, output: Seq<char>) -> Seq<
    Seq<char>,
> {
    seq![
        "-i"@,
        input,
        "-filter_complex"@,
        graph,
        "-map"@,
        "[outv]"@,
        "-c:v"@,
        "libx264"@,
        "-preset"@,
        "fast"@,
        "-y"@,
        output,
    ]
}

/// How the caller should produce the redacted video file.
#[derive(Debug)]
pub enum VideoJob {
    /// Copy the source file unchanged.
    CopyFile,
    /// Re-encode once with this argument list, built from these segments.
    Encode { segments: Vec<Segment>, args: Vec<String> },
}

/// Build the whole video job from the probe outputs and the merged ranges.
///
/// Returns `Err(BadProbeOutput)` exactly when one of the two probe texts
/// cannot be understood. Otherwise the job is a plain copy if and only if
/// no merged range touches the video; when one does, the encode's segments
/// alternate and black out exactly the private instants.
pub fn build_video_job(
    input_path: &str,
    output_path: &str,
    duration_text: &str,
    resolution_text: &str,
    merged: &Vec<PrivateRange>,
) -> (r: Result<VideoJob, RedactionError>)
    requires
        merged_wf(merged@),
        sorted_by_start(merged@),
    ensures
        match r {
            Ok(job) => {
                let dur = duration_text_ms(trimmed(duration_text@));
                let wh = resolution_text_wh(trimmed(resolution_text@));
                &&& valid_duration_text(trimmed(duration_text@))
                &&& valid_resolution_text(trimmed(resolution_text@))
                &&& ((job is CopyFile) <==> (forall|t: int|
                    0 <= t < dur ==> !(#[trigger] in_ranges(merged@, t))))
                &&& match job {
                    VideoJob::CopyFile => forall|t: int| 0 <= t < dur ==> !in_ranges(merged@, t),
                    VideoJob::Encode { segments, args } => {
                        &&& segments@.len() > 0
                        &&& tiles(segments@, dur)
                        &&& alternating(segments@)
                        &&& forall|t: int|
                            0 <= t < dur ==> hidden_at(segments@, t) == in_ranges(merged@, t)
                        &&& views_of(args@) == encode_cmd(
                            input_path@,
                            graph_str(segments@, wh.0, wh.1),
                            output_path@,
                        )
                    },
                }
            },
            Err(e) => {
                &&& e is BadProbeOutput
                &&& (!valid_duration_text(trimmed(duration_text@)) || !valid_resolution_text(
                    trimmed(resolution_text@),
                ))
            },
        },
{
    let duration_ms = match parse_duration_ms(duration_text) {
        Option::Some(ms) => ms,
        Option::None => {
            return Err(RedactionError::BadProbeOutput);
        },
    };
    let (width, height) = match parse_resolution(resolution_text) {
        Option::Some(wh) => wh,
        Option::None => {
            return Err(RedactionError::BadProbeOutput);
        },
    };
    match plan_video(duration_ms, merged) {
        VideoPlan::Copy => Ok(VideoJob::CopyFile),
        VideoPlan::Filter { segments } => {
            let graph = render_filter_graph(&segments, width, height);
            let mut args: Vec<String> = Vec::new();
            args.push("-i".to_owned());
            args.push(input_path.to_owned());
            args.push("-filter_complex".to_owned());
            args.push(graph);
            args.push("-map".to_owned());
            args.push("[outv]".to_owned());
            args.push("-c:v".to_owned());
            args.push("libx264".to_owned());
            args.push("-preset".to_owned());
            args.push("fast".to_owned());
            args.push("-y".to_owned());
            args.push(output_path.to_owned());
            proof {
                assert(views_of(args@) =~= encode_cmd(
                    input_path@,
                    graph_str(
                        segments@,
                        resolution_text_wh(trimmed(resolution_text@)).0,
                        resolution_text_wh(trimmed(resolution_text@)).1,
                    ),
                    output_path@,
                ));
            }
            Ok(VideoJob::Encode { segments, args })
        },
    }
}

} // verus!
