use desktop_recorder::backend::{
    describe_launch_failure, device_index_from_line, screen_device_index, stop_grace_decision,
    CaptureInput, FFmpegRecorder, StopStep, ENCODER_GRACE_MS,
};
use desktop_recorder::export::{
    export_manifest, file_return_mode, image_data_url, video_data_url, ExportSource,
    FileReturnMode,
};
use desktop_recorder::numfmt::{i64_to_dec, ms_to_secs, u64_to_dec};
use desktop_recorder::settings::Settings;
use desktop_recorder::textparse::{find_substring, starts_with, str_eq};
use desktop_recorder::tools::{
    extract_binary_plan, extract_retry_decision, ArchivePlan, BinaryMetadata, ExtractOutcome,
    ExtractStep,
};

#[test]
fn decimal_rendering() {
    assert_eq!(u64_to_dec(0), "0");
    assert_eq!(u64_to_dec(1234), "1234");
    assert_eq!(u64_to_dec(10), "10");
    assert_eq!(i64_to_dec(-5), "-5");
    assert_eq!(i64_to_dec(0), "0");
    assert_eq!(i64_to_dec(i64::MIN), "-9223372036854775808");
    assert_eq!(ms_to_secs(2500), "2.500");
    assert_eq!(ms_to_secs(0), "0.000");
    assert_eq!(ms_to_secs(10_000), "10.000");
    assert_eq!(ms_to_secs(12_045), "12.045");
}

#[test]
fn encoder_arguments_for_the_display_server() {
    let rec = FFmpegRecorder::new_with_input(
        0,
        0,
        1920,
        1080,
        30,
        "rec.mp4".to_string(),
        CaptureInput::X11Grab,
    );
    let args = rec.encoder_args();
    let expected: Vec<String> = vec![
        "-f", "x11grab", "-video_size", "1920x1080", "-framerate", "30", "-i", ":0.0", "-c:v",
        "libx264", "-preset", "ultrafast", "-crf", "23", "-pix_fmt", "yuv420p", "-movflags",
        "+faststart", "-profile:v", "high", "-tune", "zerolatency", "-y", "rec.mp4",
    ]
    .into_iter()
    .map(String::from)
    .collect();
    assert_eq!(args, expected);
}

#[test]
fn encoder_arguments_for_the_desktop_grabber() {
    let rec = FFmpegRecorder::new_with_input(
        5,
        -3,
        1280,
        720,
        30,
        "rec.mp4".to_string(),
        CaptureInput::GdiGrab,
    );
    let args = rec.encoder_args();
    assert_eq!(&args[0..2], &["-f".to_string(), "gdigrab".to_string()]);
    assert_eq!(args[7], "1");
    assert_eq!(args[9], "5");
    assert_eq!(args[11], "-3");
    assert_eq!(args[16], "-i");
    assert_eq!(args[17], "desktop");
}

#[test]
fn launch_failure_messages_carry_hints() {
    let plain = describe_launch_failure("exit code: 1", "", true);
    assert_eq!(plain, "FFmpeg process exited immediately with status: exit code: 1");
    let with_output = describe_launch_failure("exit code: 1", "weird", false);
    assert_eq!(
        with_output,
        "FFmpeg process exited immediately with status: exit code: 1\nFFmpeg error output: weird"
    );
    let hinted = describe_launch_failure("exit code: 1", "Could not find video device 0", true);
    assert!(hinted.ends_with(
        "\nHint: On Windows, make sure you have permission to access screen recording."
    ));
    let denied = describe_launch_failure("exit code: 1", "Permission denied", true);
    assert!(denied.ends_with("\nHint: Try running the application as administrator."));
    // away from Windows, no hint is added
    let other = describe_launch_failure("exit code: 1", "Permission denied", false);
    assert!(!other.contains("Hint"));
}

#[test]
fn grace_policy() {
    assert_eq!(stop_grace_decision(true, 0), StopStep::Done);
    assert_eq!(stop_grace_decision(false, ENCODER_GRACE_MS - 1), StopStep::KeepWaiting);
    assert_eq!(stop_grace_decision(false, ENCODER_GRACE_MS), StopStep::Kill);
}

#[test]
fn device_listing_is_parsed() {
    let line = "[AVFoundation indev @ 0x7f9] [1] Capture screen 0";
    assert_eq!(device_index_from_line(line), Some(1));
    assert_eq!(device_index_from_line("[AVFoundation indev @ 0x7f9] [0] FaceTime Camera"), None);
    assert_eq!(device_index_from_line("no brackets, Capture screen"), None);
    let lines = vec![
        "AVFoundation video devices:".to_string(),
        "[AVFoundation indev @ 0x7f9] [0] FaceTime Camera".to_string(),
        "[AVFoundation indev @ 0x7f9] [2] Capture screen 0".to_string(),
    ];
    assert_eq!(screen_device_index(&lines), Some(2));
    assert_eq!(screen_device_index(&vec!["nothing".to_string()]), None);
}

#[test]
fn substring_and_prefix_search() {
    assert_eq!(find_substring("hello world", "world"), Some(6));
    assert_eq!(find_substring("hello", "world"), None);
    assert_eq!(find_substring("aaa", ""), Some(0));
    assert!(starts_with("windows-x64", "windows"));
    assert!(!starts_with("win", "windows"));
    assert!(str_eq("ffmpeg", "ffmpeg"));
    assert!(!str_eq("ffmpeg", "ffprobe"));
}

#[test]
fn archive_plans_per_platform() {
    match extract_binary_plan("windows", "ffmpeg").unwrap() {
        ArchivePlan::Zip { pattern } => assert_eq!(pattern, "/bin/ffmpeg.exe"),
        _ => panic!("expected a zip plan"),
    }
    match extract_binary_plan("macos", "ffprobe").unwrap() {
        ArchivePlan::Zip { pattern } => assert_eq!(pattern, "ffprobe"),
        _ => panic!("expected a zip plan"),
    }
    match extract_binary_plan("linux", "ffmpeg").unwrap() {
        ArchivePlan::TarXz { pattern, exclude } => {
            assert_eq!(pattern, "ffmpeg");
            assert_eq!(exclude, Some("ffprobe".to_string()));
        },
        _ => panic!("expected a tar plan"),
    }
    match extract_binary_plan("linux", "ffprobe").unwrap() {
        ArchivePlan::TarXz { exclude, .. } => assert_eq!(exclude, None),
        _ => panic!("expected a tar plan"),
    }
    let err = extract_binary_plan("plan9", "ffmpeg").unwrap_err();
    assert_eq!(err, "Unsupported OS type: plan9");
}

#[test]
fn corrupted_archives_are_retried_once() {
    assert!(matches!(
        extract_retry_decision(ExtractOutcome::Extracted, "ffmpeg", false, true),
        ExtractStep::Done
    ));
    assert!(matches!(
        extract_retry_decision(ExtractOutcome::CorruptArchive, "ffmpeg", false, true),
        ExtractStep::Redownload
    ));
    match extract_retry_decision(ExtractOutcome::CorruptArchive, "ffmpeg", false, false) {
        ExtractStep::Fail { message } => {
            assert_eq!(message, "Archive is corrupted and no URL provided for retry")
        },
        _ => panic!("expected failure without a url"),
    }
    match extract_retry_decision(ExtractOutcome::NotFound, "ffprobe", false, true) {
        ExtractStep::Fail { message } => {
            assert_eq!(message, "Could not find ffprobe binary in archive")
        },
        _ => panic!("expected failure"),
    }
}

#[test]
fn metadata_record() {
    let m = BinaryMetadata::new("7.1".to_string(), 1700000000);
    assert_eq!(m.version, "7.1");
    assert_eq!(m.to_json(), "{\"version\":\"7.1\",\"build_timestamp\":1700000000}");
}

#[test]
fn export_substitutes_redacted_copies() {
    let entries = export_manifest(true);
    assert_eq!(entries.len(), 3);
    assert_eq!(entries[0].name, "input_log.jsonl");
    assert_eq!(entries[0].source, ExportSource::Redacted);
    assert_eq!(entries[1].name, "meta.json");
    assert_eq!(entries[1].source, ExportSource::Original);
    assert_eq!(entries[2].name, "recording.mp4");
    assert_eq!(entries[2].source, ExportSource::Redacted);
    let plain = export_manifest(false);
    assert_eq!(plain[0].source, ExportSource::Original);
    assert_eq!(plain[2].source, ExportSource::Original);
}

#[test]
fn data_urls_are_base64() {
    assert_eq!(video_data_url(&b"abc".to_vec()), "data:video/mp4;base64,YWJj");
    assert_eq!(image_data_url(&b"ab".to_vec()), "data:image/png;base64,YWI=");
}

#[test]
fn file_return_modes() {
    assert_eq!(file_return_mode(Some(true), Some(true)), FileReturnMode::DataUrl);
    assert_eq!(file_return_mode(None, Some(true)), FileReturnMode::Path);
    assert_eq!(file_return_mode(Some(false), None), FileReturnMode::Text);
    assert_eq!(file_return_mode(None, None), FileReturnMode::Text);
}

#[test]
fn settings_switches() {
    let mut s = Settings::default();
    assert!(!s.upload_confirmed && !s.onboarding_complete);
    s.set_upload_confirmed(true);
    s.set_onboarding_complete(true);
    assert!(s.upload_confirmed && s.onboarding_complete);
    s.set_upload_confirmed(false);
    assert!(!s.upload_confirmed && s.onboarding_complete);
}
