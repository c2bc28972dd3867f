use desktop_recorder::engine::{
    engine_probe_commands, engine_status_after_start, plan_shell_command, safe_string_from_bytes,
    sanitize_string, CommandJob, EngineConfig, EngineStatus, EngineType, JobBoard, JobStatus,
    ProbeOutcome, SSHConfig, WSLConfig,
};

#[test]
fn sanitize_removes_nul_bytes() {
    assert_eq!(sanitize_string("a\0b\0"), "ab");
    assert_eq!(sanitize_string("plain"), "plain");
    assert_eq!(sanitize_string(""), "");
}

#[test]
fn bytes_are_decoded_lossily_and_sanitized() {
    assert_eq!(safe_string_from_bytes(b"ok\0!"), "ok!");
    // an invalid UTF-8 byte becomes the replacement character
    assert_eq!(safe_string_from_bytes(&[0x61, 0xFF]), "a\u{FFFD}");
}

#[test]
fn native_commands_run_under_a_shell() {
    let c = plan_shell_command("ls -l", EngineType::Native, None, None, false).unwrap();
    assert_eq!(c.program, "bash");
    assert_eq!(c.args, vec!["-c".to_string(), "ls -l".to_string()]);
    let c = plan_shell_command("dir", EngineType::Native, None, None, true).unwrap();
    assert_eq!(c.program, "cmd");
    assert_eq!(c.args, vec!["/C".to_string(), "dir".to_string()]);
}

#[test]
fn wsl_needs_windows_and_a_config() {
    let e = plan_shell_command("ls", EngineType::WSL, None, None, false).unwrap_err();
    assert_eq!(e, "WSL is only supported on Windows");
    let e = plan_shell_command("ls", EngineType::WSL, None, None, true).unwrap_err();
    assert_eq!(e, "WSL config is missing");
    let w = WSLConfig { distro: "Ubuntu".to_string() };
    let c = plan_shell_command("ls", EngineType::WSL, Some(&w), None, true).unwrap();
    assert_eq!(c.program, "wsl");
    assert_eq!(
        c.args,
        vec!["-d", "Ubuntu", "-e", "bash", "-c", "ls"]
            .into_iter()
            .map(String::from)
            .collect::<Vec<String>>()
    );
    let w = WSLConfig { distro: "".to_string() };
    let c = plan_shell_command("ls", EngineType::WSL, Some(&w), None, true).unwrap();
    assert_eq!(
        c.args,
        vec!["-e", "bash", "-c", "ls"].into_iter().map(String::from).collect::<Vec<String>>()
    );
}

#[test]
fn ssh_commands_carry_user_host_and_port() {
    let mut cfg = SSHConfig::default();
    cfg.host = "example.net".to_string();
    cfg.username = "me".to_string();
    cfg.port = 2222;
    let c = plan_shell_command("echo hi", EngineType::SSH, None, Some(&cfg), false).unwrap();
    assert_eq!(c.program, "ssh");
    assert_eq!(
        c.args,
        vec!["me@example.net", "-p", "2222", "echo hi"]
            .into_iter()
            .map(String::from)
            .collect::<Vec<String>>()
    );
    let c = plan_shell_command("echo \"hi\"", EngineType::SSH, None, Some(&cfg), true).unwrap();
    assert_eq!(c.program, "cmd");
    assert_eq!(
        c.args,
        vec![
            "/C".to_string(),
            "ssh me@example.net -p 2222 \"echo \\\"hi\\\"\"".to_string(),
        ]
    );
}

#[test]
fn probe_commands_per_engine() {
    let (sys, gpu) = engine_probe_commands(EngineType::WSL, true);
    assert_eq!(sys, "uname -a");
    assert_eq!(gpu, "nvidia-smi");
    let (sys, _) = engine_probe_commands(EngineType::Native, true);
    assert_eq!(sys, "ver");
    let (sys, gpu) = engine_probe_commands(EngineType::SSH, false);
    assert_eq!(sys, "uname -a");
    assert!(gpu.contains("nvidia-smi"));
}

#[test]
fn engine_start_fails_only_on_the_system_probe() {
    let st = engine_status_after_start(
        ProbeOutcome::Output {
            success: true,
            stdout: "Linux host".to_string(),
            stderr: "".to_string(),
        },
        ProbeOutcome::Output {
            success: false,
            stdout: "".to_string(),
            stderr: "no gpu".to_string(),
        },
    )
    .unwrap();
    assert!(st.running);
    assert_eq!(st.system_info, Some("Linux host".to_string()));
    assert_eq!(st.gpu_info, Some("GPU info command failed: no gpu".to_string()));
    let err = engine_status_after_start(
        ProbeOutcome::Output {
            success: false,
            stdout: "".to_string(),
            stderr: "boom".to_string(),
        },
        ProbeOutcome::SpawnFailed { error: "unused".to_string() },
    )
    .unwrap_err();
    assert_eq!(err, "System info command failed: boom");
}

#[test]
fn job_board_tracks_one_command() {
    let mut board = JobBoard::new();
    let job = CommandJob::new("job-1".to_string(), "ls".to_string());
    assert_eq!(job.status, JobStatus::Running);
    assert!(board.insert(job));
    let again = CommandJob::new("job-1".to_string(), "pwd".to_string());
    assert!(!board.insert(again));
    assert!(board.complete(&"job-1".to_string(), true, "files".to_string(), "".to_string()));
    let got = board.get(&"job-1".to_string()).unwrap();
    assert_eq!(got.status, JobStatus::Success);
    assert_eq!(got.output, "files");
    assert!(board.get(&"job-2".to_string()).is_none());
}

#[test]
fn clearing_keeps_only_running_jobs() {
    let mut board = JobBoard::new();
    assert!(board.insert(CommandJob::new("a".to_string(), "one".to_string())));
    assert!(board.insert(CommandJob::new("b".to_string(), "two".to_string())));
    assert!(board.insert(CommandJob::new("c".to_string(), "three".to_string())));
    assert!(board.complete(&"b".to_string(), false, "".to_string(), "bad".to_string()));
    board.clear_finished();
    let left = board.all();
    assert_eq!(left.len(), 2);
    assert_eq!(left[0].id, "a");
    assert_eq!(left[1].id, "c");
}

#[test]
fn engine_defaults() {
    let cfg = EngineConfig::default();
    assert_eq!(cfg.engine_type, EngineType::Native);
    assert_eq!(cfg.ssh_config.unwrap().port, 22);
    assert_eq!(cfg.wsl_config.unwrap().distro, "");
    let st = EngineStatus::default();
    assert!(!st.running);
    assert!(st.error.is_none());
}
