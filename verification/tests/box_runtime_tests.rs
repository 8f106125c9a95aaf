use sagens::box_lifecycle::{
    ensure_runtime_step, finish_start, new_box_record, running_sandbox, started_sandbox,
    usage_after_stats, EnsureStep, UsageOutcome,
};
use sagens::boxes::{BoxRuntimeUsage, BoxStatus};
use sagens::error::SandboxError;
use sagens::guest_rpc::{route_guest_event, shell_open_outcome, GuestEvent, GuestResponse, GuestRoute};
use sagens::config::{IsolationMode, SandboxSpec};
use sagens::runtime::{
    create_step, idle_candidates, unknown_active_sandbox, CreateAction, CreateEvent, CreateStage, DestroyStart,
    IdleProbe, SessionRegistry,
};

const BOX: u128 = 0x67e5_5044_10b1_426f_9247_bb68_0e5f_e0c8;

#[test]
fn running_sandbox_needs_a_running_box_and_a_known_sandbox() {
    let mut record = new_box_record(BOX, None, None, "/w".to_string(), 1);
    assert_eq!(
        running_sandbox(&record, Some(9)).unwrap_err().to_message(),
        "conflict: BOX 67e55044-10b1-426f-9247-bb680e5fe0c8 is not running"
    );
    finish_start(&mut record, Ok(9), 2).unwrap();
    assert_eq!(running_sandbox(&record, Some(9)).unwrap(), 9);
    assert_eq!(
        running_sandbox(&record, None).unwrap_err().to_message(),
        "backend failure: BOX 67e55044-10b1-426f-9247-bb680e5fe0c8 is missing runtime state"
    );
}

#[test]
fn ensure_runtime_reuses_restarts_or_starts() {
    let mut record = new_box_record(BOX, None, None, "/w".to_string(), 1);
    assert!(matches!(ensure_runtime_step(&record), EnsureStep::Start));
    assert_eq!(
        started_sandbox(BOX, &record).unwrap_err().to_message(),
        "backend failure: BOX 67e55044-10b1-426f-9247-bb680e5fe0c8 started without an active sandbox"
    );
    finish_start(&mut record, Ok(4), 2).unwrap();
    assert!(matches!(ensure_runtime_step(&record), EnsureStep::Touch(4)));
    assert_eq!(started_sandbox(BOX, &record).unwrap(), 4);
    record.active_sandbox_id = None;
    assert!(matches!(ensure_runtime_step(&record), EnsureStep::StopThenStart));
}

#[test]
fn usage_after_stats_measures_stops_or_fails() {
    let usage = BoxRuntimeUsage { cpu_millicores: 250, memory_used_mib: 64, fs_used_mib: 10, process_count: 3 };
    let mut record = new_box_record(BOX, None, None, "/w".to_string(), 1);
    finish_start(&mut record, Ok(4), 2).unwrap();
    match usage_after_stats(record, Ok(usage)) {
        UsageOutcome::Measured(r) => {
            assert_eq!(r.runtime_usage, Some(usage));
            assert_eq!(r.status, BoxStatus::Running);
        }
        _ => panic!("measured expected"),
    }
    let record = new_box_record(BOX, None, None, "/w".to_string(), 1);
    assert!(matches!(usage_after_stats(record, Err(unknown_active_sandbox(4))), UsageOutcome::MarkStopped));
    let record = new_box_record(BOX, None, None, "/w".to_string(), 1);
    match usage_after_stats(record, Err(SandboxError::backend("agent hung".to_string()))) {
        UsageOutcome::MarkFailed(message) => assert_eq!(message, "backend failure: agent hung"),
        _ => panic!("failure expected"),
    }
}

#[test]
fn idle_candidates_keeps_probe_order() {
    let probes = vec![
        IdleProbe { sandbox_id: 1, command_running: false, since_activity_ms: Some(5_000) },
        IdleProbe { sandbox_id: 2, command_running: true, since_activity_ms: Some(9_000) },
        IdleProbe { sandbox_id: 3, command_running: false, since_activity_ms: None },
        IdleProbe { sandbox_id: 4, command_running: false, since_activity_ms: Some(4_000) },
        IdleProbe { sandbox_id: 5, command_running: false, since_activity_ms: Some(3_999) },
    ];
    assert_eq!(idle_candidates(&probes, 4_000), vec![1, 4]);
    assert_eq!(idle_candidates(&Vec::new(), 0), Vec::<u128>::new());
}

#[test]
fn shell_open_needs_the_asked_shell() {
    assert!(shell_open_outcome::<()>(Ok(GuestResponse::ShellOpened(7)), 7).is_ok());
    match shell_open_outcome::<()>(Ok(GuestResponse::ShellOpened(8)), 7) {
        Err(SandboxError::Protocol(m)) => assert_eq!(m, "guest returned an unexpected shell response"),
        other => panic!("unexpected {other:?}"),
    }
    assert!(matches!(shell_open_outcome::<()>(Ok(GuestResponse::Ack), 7), Err(SandboxError::Protocol(_))));
    assert!(matches!(
        shell_open_outcome::<()>(Err(SandboxError::timeout("slow".to_string())), 7),
        Err(SandboxError::Timeout(_))
    ));
}

#[test]
fn registry_destroys_once_and_remembers_the_record() {
    let mut registry: SessionRegistry<&str, String> = SessionRegistry::new();
    registry.insert(7, "session seven");
    assert_eq!(*registry.active(7).unwrap(), "session seven");
    assert_eq!(
        registry.active(8).unwrap_err().to_message(),
        "invalid configuration: unknown active sandbox 00000000-0000-0000-0000-000000000008"
    );
    match registry.begin_destroy(7) {
        DestroyStart::TearDown(session) => assert_eq!(session, "session seven"),
        _ => panic!("tear down expected"),
    }
    assert!(registry.active(7).is_err());
    registry.save_history(7, "record seven".to_string());
    assert!(matches!(registry.begin_destroy(7), DestroyStart::AlreadyDestroyed));
    assert_eq!(registry.history_record(7), Some(&"record seven".to_string()));
    assert!(matches!(registry.begin_destroy(9), DestroyStart::Unknown(_)));
    assert!(registry.remove_active(9).is_err());
}

#[test]
fn sandbox_creation_runs_its_steps_in_order() {
    let mut spec = SandboxSpec::new("ws1".to_string());
    spec.restore_commit = Some("c1".to_string());
    let mode = IsolationMode::Compat;
    let (stage, action) = create_step(CreateStage::Checking, mode, &spec, CreateEvent::Checked { active_workspaces: vec!["ws2".to_string()] });
    assert_eq!(stage, CreateStage::Restoring);
    assert!(matches!(action, CreateAction::RestoreCheckpoint(ref c) if c == "c1"));
    let (stage, action) = create_step(stage, mode, &spec, CreateEvent::Succeeded);
    assert!(matches!(action, CreateAction::PrepareWorkspace));
    let (stage, action) = create_step(stage, mode, &spec, CreateEvent::Succeeded);
    assert!(matches!(action, CreateAction::TakeWarmRun));
    let (stage, action) = create_step(stage, mode, &spec, CreateEvent::WarmRun { found: true });
    assert!(matches!(action, CreateAction::RecycleRun));
    let (stage, action) = create_step(stage, mode, &spec, CreateEvent::Succeeded);
    assert!(matches!(action, CreateAction::Launch));
    let (stage, action) = create_step(stage, mode, &spec, CreateEvent::Succeeded);
    assert!(matches!(action, CreateAction::ConnectGuest));
    let (stage, action) = create_step(stage, mode, &spec, CreateEvent::Succeeded);
    assert!(matches!(action, CreateAction::SnapshotBaseline));
    let (stage, action) = create_step(stage, mode, &spec, CreateEvent::Succeeded);
    assert_eq!(stage, CreateStage::Finished);
    assert!(matches!(action, CreateAction::Register));
    let (stage, action) = create_step(stage, mode, &spec, CreateEvent::Succeeded);
    assert_eq!(stage, CreateStage::Finished);
    assert!(matches!(action, CreateAction::Ignore));
}

#[test]
fn sandbox_creation_refuses_early_and_explains_launch_failures() {
    let spec = SandboxSpec::new("ws1".to_string());
    let (stage, action) = create_step(
        CreateStage::Checking,
        IsolationMode::Compat,
        &spec,
        CreateEvent::Checked { active_workspaces: vec!["ws1".to_string()] },
    );
    assert_eq!(stage, CreateStage::Failed);
    match action {
        CreateAction::Fail(e) => assert_eq!(e.to_message(), "invalid configuration: workspace ws1 already has an active sandbox"),
        _ => panic!("refusal expected"),
    }
    let (_, action) = create_step(CreateStage::Checking, IsolationMode::Compat, &spec, CreateEvent::Checked { active_workspaces: vec![] });
    assert!(matches!(action, CreateAction::PrepareWorkspace));
    let (_, action) = create_step(CreateStage::TakingWarmRun, IsolationMode::Compat, &spec, CreateEvent::WarmRun { found: false });
    assert!(matches!(action, CreateAction::PrepareRun));
    let panic_line = "Kernel panic - not syncing: VFS: Unable to mount root fs on unknown-block(254,0)";
    let (stage, action) = create_step(
        CreateStage::Connecting,
        IsolationMode::Compat,
        &spec,
        CreateEvent::Failed {
            error: SandboxError::timeout("timed out waiting for guest vsock bridge".to_string()),
            guest_console: Some(format!("booting\n{panic_line}\n")),
            runner_log: None,
        },
    );
    assert_eq!(stage, CreateStage::Failed);
    match action {
        CreateAction::Fail(e) => assert_eq!(e.to_message(), format!("backend failure: guest connect failed: {panic_line}")),
        _ => panic!("failure expected"),
    }
    let (_, action) = create_step(
        CreateStage::Snapshotting,
        IsolationMode::Compat,
        &spec,
        CreateEvent::Failed { error: SandboxError::backend("snap".to_string()), guest_console: Some("x".to_string()), runner_log: None },
    );
    match action {
        CreateAction::Fail(e) => assert_eq!(e.to_message(), "backend failure: snap"),
        _ => panic!("failure expected"),
    }
}

#[test]
fn a_file_that_cannot_be_converted_fails_its_request() {
    let failed: GuestEvent<Vec<u8>> = GuestEvent::FileRead {
        request_id: "9".to_string(),
        file: Err(SandboxError::protocol("file contents are not valid base64".to_string())),
    };
    match route_guest_event(failed, false, false) {
        Ok(GuestRoute::Respond { request_id, response: Err(SandboxError::Protocol(m)) }) => {
            assert_eq!(request_id, "9");
            assert_eq!(m, "file contents are not valid base64");
        }
        _ => panic!("failed response expected"),
    }
    let read: GuestEvent<Vec<u8>> = GuestEvent::FileRead { request_id: "10".to_string(), file: Ok(vec![1, 2]) };
    match route_guest_event(read, false, false) {
        Ok(GuestRoute::Respond { request_id, response: Ok(GuestResponse::Payload(bytes)) }) => {
            assert_eq!(request_id, "10");
            assert_eq!(bytes, vec![1, 2]);
        }
        _ => panic!("file expected"),
    }
}
