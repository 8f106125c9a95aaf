use sagens::box_lifecycle::{
    check_startable, check_stoppable, finish_start, finish_stop, new_box_record, shutdown_step,
    usage_source, ShutdownStep, UsageSource,
};
use sagens::boxes::BoxStatus;
use sagens::client_state::ClientTables;
use sagens::error::SandboxError;
use sagens::private_fs::{check_private_dir, check_private_file_mode};
use sagens::protocol::{ExecExit, ExecutionEvent, OutputStream, CompletedExecution};
use sagens::box_api::InteractiveTarget;
use sagens::runtime::{exec_gate, exec_timeout, is_idle_for, keep_forwarding, unknown_active_sandbox};
use sagens::config::ExecutionPolicy;
use sagens::session::{
    collect_exec_event, exec_event_message, piped_exec_command, recovery_step, shell_output_message,
    BoxEvent, ClientRoute, ExecProgress, Recovery,
};

const ID: u128 = 0x67e5_5044_10b1_426f_9247_bb68_0e5f_e0c8;

#[test]
fn box_start_and_stop_transitions() {
    let mut record = new_box_record(ID, None, None, "/w/workspace.raw".to_string(), 1);
    assert_eq!(record.status, BoxStatus::Created);
    assert!(check_startable(&record).is_ok());
    assert!(check_stoppable(&record).is_err());
    assert!(finish_start(&mut record, Ok(42), 10).is_ok());
    assert_eq!(record.status, BoxStatus::Running);
    assert_eq!(record.active_sandbox_id, Some(42));
    assert_eq!(
        check_startable(&record).unwrap_err().to_message(),
        "conflict: BOX 67e55044-10b1-426f-9247-bb680e5fe0c8 is already running"
    );
    let gone = unknown_active_sandbox(42);
    assert!(finish_stop(&mut record, Err(gone), 20).is_ok());
    assert_eq!(record.status, BoxStatus::Stopped);
    assert_eq!(record.last_stop_at_ms, Some(20));
    assert!(finish_start(&mut record, Err(SandboxError::backend("no vm".to_string())), 30).is_err());
    assert_eq!(record.status, BoxStatus::Failed);
    assert_eq!(record.last_error, Some("backend failure: no vm".to_string()));
    assert_eq!(record.created_at_ms, 1);
}

#[test]
fn usage_and_shutdown_follow_the_sandbox() {
    let mut record = new_box_record(ID, None, None, "/w".to_string(), 1);
    assert!(matches!(usage_source(&record, Some(3)), UsageSource::NotRunning));
    assert!(matches!(shutdown_step(&record, Some(3), true), ShutdownStep::Forget));
    finish_start(&mut record, Ok(7), 2).unwrap();
    assert!(matches!(usage_source(&record, Some(3)), UsageSource::Sandbox(7)));
    assert!(matches!(shutdown_step(&record, None, true), ShutdownStep::Destroy(7)));
    assert!(matches!(shutdown_step(&record, None, false), ShutdownStep::MarkStopped));
}

#[test]
fn client_tables_route_and_forget_finished_waiters() {
    let mut tables: ClientTables<u8> = ClientTables::new();
    tables.expect_response("r1".to_string());
    tables.expect_exec("r2".to_string());
    assert!(tables.register_shell(9).is_empty());
    let answer = || BoxEvent::Response { request_id: "r1".to_string(), response: 1u8 };
    let (route, back) = tables.dispatch(answer());
    assert_eq!(route, ClientRoute::ResolveResponse);
    assert!(matches!(back, Some(BoxEvent::Response { response: 1, .. })));
    assert_eq!(tables.dispatch(answer()).0, ClientRoute::Drop);
    let out = || BoxEvent::ExecOutput { request_id: "r2".to_string(), stream: OutputStream::Stdout, data: String::new() };
    assert_eq!(tables.dispatch(out()).0, ClientRoute::ForwardExec);
    let exit = BoxEvent::ExecExit { request_id: "r2".to_string(), status: ExecExit::Success };
    assert_eq!(tables.dispatch(exit).0, ClientRoute::ForwardExecAndClose);
    assert_eq!(tables.dispatch(out()).0, ClientRoute::Drop);
    let shell_exit = BoxEvent::ShellExit { shell_id: 9, code: 0 };
    assert_eq!(tables.dispatch(shell_exit).0, ClientRoute::ForwardShellAndClose);
}

#[test]
fn early_shell_events_are_held_until_registered() {
    let mut tables: ClientTables<u8> = ClientTables::new();
    let (route, back) = tables.dispatch(BoxEvent::ShellOutput { shell_id: 4, data: "YQ==".to_string() });
    assert_eq!(route, ClientRoute::BufferShell);
    assert!(back.is_none());
    tables.dispatch(BoxEvent::ShellOutput { shell_id: 5, data: "eA==".to_string() });
    tables.dispatch(BoxEvent::ShellExit { shell_id: 4, code: 2 });
    let held = tables.register_shell(4);
    assert_eq!(held.len(), 2);
    assert!(matches!(&held[0], BoxEvent::ShellOutput { shell_id: 4, data } if data == "YQ=="));
    assert!(matches!(&held[1], BoxEvent::ShellExit { shell_id: 4, code: 2 }));
    assert!(tables.register_shell(4).is_empty());
    let error = BoxEvent::Error { request_id: None, message: "down".to_string() };
    assert_eq!(tables.dispatch(error).0, ClientRoute::FailAll);
    assert!(tables.register_shell(5).is_empty());
}

#[test]
fn exec_output_survives_the_websocket() {
    let request_id = "req-1".to_string();
    let event: BoxEvent<()> = exec_event_message(
        &request_id,
        ExecutionEvent::Output { stream: OutputStream::Stderr, data: vec![0, 159, 255] },
    );
    let mut collected = CompletedExecution::empty();
    assert_eq!(collect_exec_event(&mut collected, "req-1", event).unwrap(), ExecProgress::Continue);
    assert_eq!(collected.output, vec![0, 159, 255]);
    assert_eq!(collected.stderr, vec![0, 159, 255]);
    let done: BoxEvent<()> = exec_event_message(&request_id, ExecutionEvent::Exit { status: ExecExit::ExitCode(3) });
    assert_eq!(collect_exec_event(&mut collected, "req-1", done).unwrap(), ExecProgress::Done);
    assert_eq!(collected.exit_code, Some(3));
    match shell_output_message::<()>(5, b"ok") {
        BoxEvent::ShellOutput { shell_id, data } => {
            assert_eq!(shell_id, 5);
            assert_eq!(data, "b2s=");
        }
        _ => panic!("shell output expected"),
    }
}

#[test]
fn piped_interactive_input_runs_as_a_here_document() {
    assert_eq!(
        piped_exec_command(InteractiveTarget::Python, "print(1)", 1),
        "python3 <<'SAGENS_EOF_00000000000000000000000000000001'\nprint(1)\nSAGENS_EOF_00000000000000000000000000000001\n"
    );
}

#[test]
fn recovers_a_stopped_box_after_a_lost_connection() {
    let lost = SandboxError::backend("websocket connection closed".to_string());
    assert!(matches!(recovery_step(&Ok(BoxStatus::Stopped), false), Recovery::Stopped));
    assert!(matches!(recovery_step(&Ok(BoxStatus::Running), false), Recovery::Retry));
    assert!(matches!(recovery_step(&Ok(BoxStatus::Running), true), Recovery::GiveUp));
    assert!(matches!(recovery_step(&Err(lost), false), Recovery::Retry));
    let other = SandboxError::backend("denied".to_string());
    assert!(matches!(recovery_step(&Err(other), false), Recovery::GiveUp));
}

#[test]
fn exec_gate_timeout_and_idleness() {
    let mut policy = ExecutionPolicy::default();
    policy.timeout_ms = Some(9);
    assert_eq!(exec_timeout(None, &policy), Some(9));
    assert_eq!(exec_timeout(Some(3), &policy), Some(3));
    assert!(exec_gate(true).is_ok());
    assert_eq!(
        exec_gate(false).unwrap_err().to_message(),
        "conflict: parallel exec is not supported for a running BOX"
    );
    assert!(is_idle_for(false, Some(10), 10));
    assert!(!is_idle_for(true, Some(10), 10));
    assert!(!is_idle_for(false, None, 0));
    assert!(!keep_forwarding(true, &ExecutionEvent::Exit { status: ExecExit::Killed }));
    assert!(keep_forwarding(true, &ExecutionEvent::Output { stream: OutputStream::Stdout, data: vec![] }));
}

#[test]
fn private_files_and_directories() {
    assert!(check_private_dir(false, true, "state directory", "/s").is_ok());
    assert_eq!(
        check_private_dir(true, true, "state directory", "/s").unwrap_err().to_message(),
        "invalid configuration: state directory must be a real directory: /s"
    );
    assert!(check_private_file_mode(0o100600, "credentials", "/s/c.json").is_ok());
    assert_eq!(
        check_private_file_mode(0o644, "credentials", "/s/c.json").unwrap_err().to_message(),
        "invalid configuration: credentials /s/c.json must have 0600 permissions"
    );
}
