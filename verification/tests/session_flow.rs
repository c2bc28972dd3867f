use desktop_recorder::axtree::{process_dump_line, stop_dump_tree_polling, PollStep, PollerState};
use desktop_recorder::input::{
    button_event, has_input_permissions, joystick_button_event, key_event, log_input,
    mouse_move_event, wheel_event, InputEvent, InputListener,
};
use desktop_recorder::logger::{render_envelope, Logger};
use desktop_recorder::session::{
    log_ffmpeg, sort_recordings_newest_first, MonitorInfo, Orchestrator, OrchestratorError,
    RecordingMeta, SessionStatus,
};

fn new_meta() -> RecordingMeta {
    RecordingMeta::new(
        "20240101_120000".to_string(),
        "2024-01-01T12:00:00+00:00".to_string(),
        "linux".to_string(),
        "x86_64".to_string(),
        "6.1".to_string(),
        "en-US".to_string(),
        MonitorInfo { width: 1280, height: 720 },
        None,
        None,
    )
}

#[test]
fn second_start_is_rejected_while_recording() {
    let mut orch = Orchestrator::new();
    assert!(orch.begin_start("s1".to_string()).is_ok());
    // still starting: the slot is taken
    assert_eq!(
        orch.begin_start("s2".to_string()),
        Err(OrchestratorError::AlreadyRecording)
    );
    orch.backend_started();
    orch.logger_opened();
    orch.funnel_started();
    orch.poller_started();
    orch.complete_start();
    assert!(orch.is_recording());
    // recording: a second start still fails, and spawns nothing
    assert_eq!(
        orch.begin_start("s3".to_string()),
        Err(OrchestratorError::AlreadyRecording)
    );
    assert!(orch.is_recording());
}

#[test]
fn failed_health_check_rolls_back_without_open_log() {
    let mut orch = Orchestrator::new();
    assert!(orch.begin_start("s1".to_string()).is_ok());
    // the backend process exited within the health-check window: the log
    // writer was never opened, so the rollback must not touch one
    let rollback = orch.abort_start();
    assert!(!rollback.close_logger);
    assert!(!rollback.kill_backend);
    assert!(!rollback.stop_funnel);
    assert!(!rollback.stop_poller);
    assert!(rollback.mark_meta_failed);
    let mut meta = new_meta();
    assert_eq!(meta.status, "recording");
    meta.mark_failed();
    assert_ne!(meta.status, "recording");
    // the orchestrator is idle again and can start a fresh session
    assert!(orch.begin_start("s2".to_string()).is_ok());
}

#[test]
fn stop_with_empty_output_is_a_hard_error() {
    let mut orch = Orchestrator::new();
    assert!(orch.begin_start("s1".to_string()).is_ok());
    orch.backend_started();
    orch.logger_opened();
    orch.funnel_started();
    orch.poller_started();
    orch.complete_start();
    assert!(orch.begin_stop().is_ok());
    orch.funnel_stopped();
    orch.poller_stopped();
    orch.logger_closed();
    // funnel and poller stopped cleanly, but the encoder left a zero-byte
    // file
    assert_eq!(orch.finish_stop(true, 0), Err(OrchestratorError::EmptyOutput));
}

#[test]
fn stop_returns_the_session_id() {
    let mut orch = Orchestrator::new();
    assert!(orch.begin_start("20240101_120000".to_string()).is_ok());
    orch.backend_started();
    orch.logger_opened();
    orch.funnel_started();
    orch.poller_started();
    orch.complete_start();
    assert!(orch.begin_stop().is_ok());
    orch.funnel_stopped();
    orch.poller_stopped();
    orch.logger_closed();
    assert_eq!(orch.finish_stop(true, 1024), Ok("20240101_120000".to_string()));
}

#[test]
fn stop_without_session_fails() {
    let mut orch = Orchestrator::new();
    assert_eq!(orch.begin_stop(), Err(OrchestratorError::NoSession));
}

#[test]
fn meta_finalize_sets_duration_and_completion() {
    let mut meta = new_meta();
    assert_eq!(meta.duration_seconds, 0);
    meta.finalize(42, Some("done".to_string()));
    assert_eq!(meta.duration_seconds, 42);
    assert_eq!(meta.status, "completed");
    assert_eq!(meta.reason, Some("done".to_string()));
    assert_eq!(meta.title, "Recording Session");
}

#[test]
fn envelope_is_one_json_object() {
    let line = render_envelope("mousemove", "{\"x\":1,\"y\":2}", 42);
    assert_eq!(line, "{\"event\":\"mousemove\",\"data\":{\"x\":1,\"y\":2},\"time\":42}");
    let v: serde_json::Value = serde_json::from_str(&line).unwrap();
    assert_eq!(v.get("event").and_then(serde_json::Value::as_str), Some("mousemove"));
    assert_eq!(v.get("time").and_then(serde_json::Value::as_i64), Some(42));
}

#[test]
fn closed_writer_drops_events_silently() {
    let mut logger = Logger::new();
    let first = logger.log_event("{\"a\":1}".to_string());
    assert_eq!(first, Some("{\"a\":1}".to_string()));
    logger.close();
    let late = logger.log_event("{\"b\":2}".to_string());
    assert_eq!(late, None);
}

#[test]
fn ffmpeg_diagnostics_become_log_lines() {
    let mut logger = Logger::new();
    let line = log_ffmpeg(&mut logger, "frame=10", true).unwrap();
    let v: serde_json::Value = serde_json::from_str(&line).unwrap();
    assert_eq!(v.get("event").and_then(serde_json::Value::as_str), Some("ffmpeg_stderr"));
    assert_eq!(
        v.get("data").and_then(|d| d.get("output")).and_then(serde_json::Value::as_str),
        Some("frame=10")
    );
    logger.close();
    assert_eq!(log_ffmpeg(&mut logger, "tail", false), None);
}

#[test]
fn input_events_have_their_kinds_and_payloads() {
    let m = mouse_move_event("10.5", "20");
    assert_eq!(m.event, "mousemove");
    assert_eq!(m.data, "{\"x\":10.5,\"y\":20}");
    let k = key_event(true, "KeyA");
    assert_eq!(k.event, "keydown");
    assert_eq!(k.data, "{\"key\":\"KeyA\"}");
    let k = key_event(false, "KeyA");
    assert_eq!(k.event, "keyup");
    let b = button_event(true, "Left");
    assert_eq!(b.event, "mousedown");
    assert_eq!(b.data, "{\"button\":\"Left\"}");
    let w = wheel_event("-1");
    assert_eq!(w.event, "mousewheel");
    assert_eq!(w.data, "{\"delta\":-1}");
    let j = joystick_button_event(true, 0, 7);
    assert_eq!(j.event, "joystickdown");
    assert_eq!(j.data, "{\"id\":0,\"button\":7}");
}

#[test]
fn input_event_log_entry_round_trips() {
    let e = InputEvent::new("keydown", "{\"key\":\"Escape\"}".to_string());
    let line = e.to_log_entry(-3);
    assert_eq!(line, "{\"event\":\"keydown\",\"data\":{\"key\":\"Escape\"},\"time\":-3}");
    let mut logger = Logger::new();
    let out = log_input(&mut logger, &e, 7).unwrap();
    let v: serde_json::Value = serde_json::from_str(&out).unwrap();
    assert_eq!(v.get("time").and_then(serde_json::Value::as_i64), Some(7));
}

#[test]
fn listener_flag_and_permissions() {
    let mut l = InputListener::new();
    l.stop();
    assert!(has_input_permissions(false));
    assert!(!has_input_permissions(true));
}

#[test]
fn dump_lines_are_tagged_and_forwarded() {
    let mut logger = Logger::new();
    let out = process_dump_line(&mut logger, "{\"role\":\"window\",\"time\":5}").unwrap();
    let v: serde_json::Value = serde_json::from_str(&out).unwrap();
    assert_eq!(v.get("event").and_then(serde_json::Value::as_str), Some("axtree"));
    assert_eq!(v.get("role").and_then(serde_json::Value::as_str), Some("window"));
    // a non-object line is dropped, not logged
    assert_eq!(process_dump_line(&mut logger, "not json"), None);
    assert_eq!(process_dump_line(&mut logger, "[1,2]"), None);
}

#[test]
fn poller_spawns_while_running_and_exits_after_stop() {
    let mut p = PollerState::new();
    p.start();
    assert_eq!(p.next_run(), PollStep::SpawnDump);
    assert_eq!(p.after_run(), PollStep::Backoff);
    assert!(stop_dump_tree_polling(&mut p).is_ok());
    assert_eq!(p.next_run(), PollStep::Exit);
    assert_eq!(p.after_run(), PollStep::Exit);
}

#[test]
fn session_status_values_are_distinct() {
    assert_ne!(SessionStatus::Idle, SessionStatus::Recording);
    assert_ne!(SessionStatus::Starting, SessionStatus::Stopping);
}

fn meta_with_timestamp(id: &str, ts: &str) -> RecordingMeta {
    RecordingMeta::new(
        id.to_string(),
        ts.to_string(),
        "linux".to_string(),
        "x86_64".to_string(),
        "6.1".to_string(),
        "en-US".to_string(),
        MonitorInfo { width: 1, height: 1 },
        None,
        None,
    )
}

#[test]
fn recordings_are_listed_newest_first() {
    let metas = vec![
        meta_with_timestamp("b", "2024-02-01T00:00:00Z"),
        meta_with_timestamp("c", "2024-03-01T00:00:00Z"),
        meta_with_timestamp("a", "2024-01-01T00:00:00Z"),
    ];
    let sorted = sort_recordings_newest_first(metas);
    let ids: Vec<&str> = sorted.iter().map(|m| m.id.as_str()).collect();
    assert_eq!(ids, vec!["c", "b", "a"]);
}
