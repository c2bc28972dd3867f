use desktop_recorder::ranges::{merge, PrivateRange};
use desktop_recorder::redact::RedactionError;
use desktop_recorder::textparse::{parse_duration_ms, parse_resolution, trim_ascii};
use desktop_recorder::video::{
    build_video_job, plan_video, probe_duration_args, probe_resolution_args, render_filter_graph,
    Segment, VideoJob, VideoPlan,
};

fn range(start: i64, end: i64) -> PrivateRange {
    PrivateRange { start, end }
}

#[test]
fn plan_three_segments_for_one_inner_range() {
    // one private range of 2s..5s on a 10s video
    let merged = merge(vec![range(2000, 5000)]);
    let plan = plan_video(10_000, &merged);
    assert_eq!(
        plan,
        VideoPlan::Filter {
            segments: vec![
                Segment::Trim { start_ms: 0, end_ms: 2000 },
                Segment::Black { start_ms: 2000, end_ms: 5000 },
                Segment::Trim { start_ms: 5000, end_ms: 10_000 },
            ],
        }
    );
}

#[test]
fn plan_with_no_ranges_copies() {
    let plan = plan_video(10_000, &Vec::new());
    assert_eq!(plan, VideoPlan::Copy);
}

#[test]
fn plan_with_out_of_bounds_range_copies() {
    let merged = merge(vec![range(20_000, 30_000)]);
    let plan = plan_video(10_000, &merged);
    assert_eq!(plan, VideoPlan::Copy);
}

#[test]
fn plan_clamps_into_the_video() {
    let merged = merge(vec![range(-1000, 3000), range(8000, 99_000)]);
    let plan = plan_video(10_000, &merged);
    assert_eq!(
        plan,
        VideoPlan::Filter {
            segments: vec![
                Segment::Black { start_ms: 0, end_ms: 3000 },
                Segment::Trim { start_ms: 3000, end_ms: 8000 },
                Segment::Black { start_ms: 8000, end_ms: 10_000 },
            ],
        }
    );
}

#[test]
fn graph_text_for_three_segments() {
    let segments = vec![
        Segment::Trim { start_ms: 0, end_ms: 2000 },
        Segment::Black { start_ms: 2000, end_ms: 5000 },
        Segment::Trim { start_ms: 5000, end_ms: 10_000 },
    ];
    let graph = render_filter_graph(&segments, 1280, 720);
    assert_eq!(
        graph,
        "[0:v]trim=start=0.000:end=2.000,setpts=PTS-STARTPTS[v0];color=c=black:s=1280x720:d=3.000[v1];[0:v]trim=start=5.000:end=10.000,setpts=PTS-STARTPTS[v2];[v0][v1][v2]concat=n=3:v=1:a=0[outv]"
    );
}

#[test]
fn job_encodes_with_the_expected_arguments() {
    let merged = merge(vec![range(2000, 5000)]);
    let job = build_video_job("in.mp4", "out.mp4", "10.000000\n", "1280x720\n", &merged).unwrap();
    match job {
        VideoJob::Encode { segments, args } => {
            assert_eq!(segments.len(), 3);
            let graph = "[0:v]trim=start=0.000:end=2.000,setpts=PTS-STARTPTS[v0];color=c=black:s=1280x720:d=3.000[v1];[0:v]trim=start=5.000:end=10.000,setpts=PTS-STARTPTS[v2];[v0][v1][v2]concat=n=3:v=1:a=0[outv]";
            let expected: Vec<String> = vec![
                "-i", "in.mp4", "-filter_complex", graph, "-map", "[outv]", "-c:v", "libx264",
                "-preset", "fast", "-y", "out.mp4",
            ]
            .into_iter()
            .map(|s| s.to_string())
            .collect();
            assert_eq!(args, expected);
        },
        VideoJob::CopyFile => panic!("expected an encode job"),
    }
}

#[test]
fn job_copies_when_nothing_is_private() {
    let job = build_video_job("in.mp4", "out.mp4", "10.0", "1280x720", &Vec::new()).unwrap();
    assert!(matches!(job, VideoJob::CopyFile));
}

#[test]
fn job_rejects_unreadable_probe_output() {
    let merged = merge(vec![range(0, 1000)]);
    let err = build_video_job("in.mp4", "out.mp4", "", "1280x720", &merged).unwrap_err();
    assert_eq!(err, RedactionError::BadProbeOutput);
    let err = build_video_job("in.mp4", "out.mp4", "10.0", "1280", &merged).unwrap_err();
    assert_eq!(err, RedactionError::BadProbeOutput);
}

#[test]
fn duration_parsing() {
    assert_eq!(parse_duration_ms("12.345678\n"), Some(12_345));
    assert_eq!(parse_duration_ms("7"), Some(7000));
    assert_eq!(parse_duration_ms(" 0.5 "), Some(500));
    assert_eq!(parse_duration_ms("12."), Some(12_000));
    assert_eq!(parse_duration_ms(""), None);
    assert_eq!(parse_duration_ms("abc"), None);
    assert_eq!(parse_duration_ms("1.2.3"), None);
}

#[test]
fn resolution_parsing() {
    assert_eq!(parse_resolution("1280x720\n"), Some((1280, 720)));
    assert_eq!(parse_resolution("1920x1080"), Some((1920, 1080)));
    assert_eq!(parse_resolution("1280"), None);
    assert_eq!(parse_resolution("axb"), None);
    assert_eq!(parse_resolution("1280x720x9"), None);
}

#[test]
fn trimming() {
    assert_eq!(trim_ascii("  12.5\r\n"), "12.5");
    assert_eq!(trim_ascii("\t\n "), "");
    assert_eq!(trim_ascii("x"), "x");
}

#[test]
fn probe_argument_lists() {
    let d = probe_duration_args("v.mp4");
    assert_eq!(
        d,
        vec![
            "-v",
            "error",
            "-show_entries",
            "format=duration",
            "-of",
            "default=noprint_wrappers=1:nokey=1",
            "v.mp4",
        ]
        .into_iter()
        .map(String::from)
        .collect::<Vec<String>>()
    );
    let r = probe_resolution_args("v.mp4");
    assert_eq!(r[1], "error");
    assert_eq!(r[7], "csv=s=x:p=0");
    assert_eq!(r[8], "v.mp4");
}
