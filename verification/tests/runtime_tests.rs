use sagens::config::{ExecutionPolicy, IsolationMode, SandboxSpec};
use sagens::error::SandboxError;
use sagens::host_log::{file_excerpt_messages, format_log_lines, tail_lines, ExcerptRead};
use sagens::runtime::{
    boot_failure_detail, check_checkpoint_restore, check_sandbox_request, enrich_launch_error,
    has_active_workspace, last_nonempty_line, list_sessions, select_boot_failure_line,
    should_attach_boot_detail, SandboxSessionState, SandboxSessionSummary, WarmPool,
};

const KERNEL_PANIC: &str =
    "Kernel panic - not syncing: VFS: Unable to mount root fs on unknown-block(254,0)";

#[test]
fn lifecycle_prefers_kernel_panic_from_guest_console() {
    let guest_console = format!("booting\n{KERNEL_PANIC}\n");
    let runner_log = "thread 'fc_vcpu 0' panicked at unexpected exception: 0x20\n";
    let detail = boot_failure_detail(Some(&guest_console), Some(runner_log)).expect("detail");
    assert_eq!(detail, KERNEL_PANIC);
}

#[test]
fn lifecycle_falls_back_to_runner_log_when_guest_console_is_empty() {
    let runner_log = "thread 'fc_vcpu 0' panicked at src/main.rs: unexpected exception: 0x20\n";
    let detail = boot_failure_detail(Some("\n"), Some(runner_log)).expect("detail");
    assert_eq!(
        detail,
        "thread 'fc_vcpu 0' panicked at src/main.rs: unexpected exception: 0x20"
    );
}

#[test]
fn lifecycle_replaces_guest_connect_timeout_with_boot_detail() {
    let guest_console = format!("{KERNEL_PANIC}\n");
    let error = enrich_launch_error(
        "guest connect",
        SandboxError::timeout("timed out waiting for guest vsock bridge".to_string()),
        Some(&guest_console),
        None,
    );
    assert_eq!(
        error.to_message(),
        format!("backend failure: guest connect failed: {KERNEL_PANIC}")
    );
}

#[test]
fn tests_prefers_kernel_panic_from_guest_console() {
    let guest_console = format!("booting\n{KERNEL_PANIC}\n");
    let detail = boot_failure_detail(
        Some(&guest_console),
        Some("thread 'fc_vcpu 0' panicked at unexpected exception: 0x20\n"),
    )
    .expect("detail");
    assert_eq!(detail, KERNEL_PANIC);
}

#[test]
fn tests_falls_back_to_runner_log_when_guest_console_is_empty() {
    let detail = boot_failure_detail(
        Some("\n"),
        Some("thread 'fc_vcpu 0' panicked at src/main.rs: unexpected exception: 0x20\n"),
    )
    .expect("detail");
    assert_eq!(
        detail,
        "thread 'fc_vcpu 0' panicked at src/main.rs: unexpected exception: 0x20"
    );
}

#[test]
fn tests_replaces_guest_connect_timeout_with_boot_detail() {
    let guest_console = format!("{KERNEL_PANIC}\n");
    let error = enrich_launch_error(
        "guest connect",
        SandboxError::timeout("timed out waiting for guest vsock bridge".to_string()),
        Some(&guest_console),
        None,
    );
    assert_eq!(
        error.to_message(),
        format!("backend failure: guest connect failed: {KERNEL_PANIC}")
    );
}

#[test]
fn keeps_errors_the_boot_logs_do_not_explain() {
    let original = SandboxError::backend("BOX is not running".to_string());
    let kept = enrich_launch_error("backend launch", original, Some("error: disk\n"), None);
    assert_eq!(kept.to_message(), "backend failure: BOX is not running");
    let quoted = SandboxError::timeout("boom: error: disk".to_string());
    let kept = enrich_launch_error("backend launch", quoted, Some("error: disk\n"), None);
    assert_eq!(kept.to_message(), "timeout: boom: error: disk");
    let nothing = enrich_launch_error(
        "guest connect",
        SandboxError::protocol("bad frame".to_string()),
        None,
        None,
    );
    assert_eq!(nothing.to_message(), "protocol error: bad frame");
}

#[test]
fn decides_which_launch_failures_get_boot_detail() {
    assert!(should_attach_boot_detail("guest connect", &SandboxError::timeout("t".to_string())));
    assert!(should_attach_boot_detail(
        "guest connect",
        &SandboxError::io("connecting to guest vsock bridge".to_string(), "refused".to_string())
    ));
    assert!(should_attach_boot_detail(
        "backend launch",
        &SandboxError::backend("runner exited before startup".to_string())
    ));
    assert!(!should_attach_boot_detail(
        "backend launch",
        &SandboxError::backend("other".to_string())
    ));
    assert!(!should_attach_boot_detail("restore", &SandboxError::timeout("t".to_string())));
}

#[test]
fn selects_last_matching_line_and_last_nonempty_line() {
    let patterns = vec!["error".to_string(), "failed".to_string()];
    let text = "ok\n  mount failed here  \nerror one\n   \n";
    assert_eq!(select_boot_failure_line(Some(text), &patterns), Some("error one".to_string()));
    assert_eq!(select_boot_failure_line(Some("fine\n"), &patterns), None);
    assert_eq!(select_boot_failure_line(None, &patterns), None);
    assert_eq!(last_nonempty_line(Some("a\n b \n\n")), Some("b".to_string()));
    assert_eq!(last_nonempty_line(Some("\n  \n")), None);
}

#[test]
fn reads_only_requested_tail_lines() {
    assert_eq!(tail_lines("one\ntwo\nthree\nfour\n", 2), "three\nfour");
}

#[test]
fn returns_empty_tail_for_zero_lines() {
    assert!(tail_lines("one\ntwo\n", 0).is_empty());
}

#[test]
fn tail_keeps_everything_when_short() {
    assert_eq!(tail_lines("a\r\nb", 10), "a\nb");
}

#[test]
fn formats_log_lines_per_message_line() {
    assert_eq!(
        format_log_lines(12, "runtime", "one\ntwo"),
        vec!["[12] [runtime] one", "[12] [runtime] two"]
    );
    assert_eq!(format_log_lines(7, "box", ""), vec!["[7] [box]"]);
}

#[test]
fn formats_file_excerpts() {
    assert_eq!(
        file_excerpt_messages("guest-console", "/r/g.log", 40, &ExcerptRead::Text("  \n".to_string())),
        vec!["guest-console log is empty path=/r/g.log"]
    );
    assert_eq!(
        file_excerpt_messages("runner", "/r/r.log", 40, &ExcerptRead::Text("x\ny".to_string())),
        vec!["runner log excerpt path=/r/r.log tail_lines=40", "runner | x", "runner | y"]
    );
    assert_eq!(
        file_excerpt_messages("runner", "/r/r.log", 40, &ExcerptRead::Missing),
        vec!["runner log is missing path=/r/r.log"]
    );
    assert_eq!(
        file_excerpt_messages("runner", "/r/r.log", 40, &ExcerptRead::Failed("denied".to_string())),
        vec!["failed to read runner log path=/r/r.log error=denied"]
    );
}

#[test]
fn refuses_networking_in_secure_mode_and_busy_workspaces() {
    let mut spec = SandboxSpec::new("ws1".to_string());
    let active = vec!["ws2".to_string()];
    assert!(check_sandbox_request(IsolationMode::Secure, &spec, &active).is_ok());
    spec.policy.network_enabled = true;
    assert_eq!(
        check_sandbox_request(IsolationMode::Secure, &spec, &active).unwrap_err().to_message(),
        "invalid configuration: networking is unsupported in secure isolation mode"
    );
    assert!(check_sandbox_request(IsolationMode::Compat, &spec, &active).is_ok());
    let busy = SandboxSpec::new("ws2".to_string());
    assert_eq!(
        check_sandbox_request(IsolationMode::Compat, &busy, &active).unwrap_err().to_message(),
        "invalid configuration: workspace ws2 already has an active sandbox"
    );
    assert!(has_active_workspace(&active, "ws2"));
    assert!(check_checkpoint_restore("ws2", &active).is_err());
    assert!(check_checkpoint_restore("ws1", &active).is_ok());
}

#[test]
fn warm_pool_keeps_the_newest_runs() {
    let mut pool = WarmPool::new();
    pool.store("a", 2);
    pool.store("b", 2);
    pool.store("c", 2);
    assert_eq!(pool.len(), 2);
    assert_eq!(pool.take(), Some("c"));
    assert_eq!(pool.take(), Some("b"));
    assert_eq!(pool.take(), None);
    pool.store("d", 0);
    assert_eq!(pool.len(), 0);
}

fn summary(id: u128, started: u64) -> SandboxSessionSummary {
    SandboxSessionSummary::active(id, format!("ws{id}"), ExecutionPolicy::default(), started)
}

#[test]
fn lists_sessions_by_start_time_then_id() {
    let mut finished = summary(1, 5);
    finished.mark_destroyed(9);
    assert_eq!(finished.state, SandboxSessionState::Destroyed);
    assert_eq!(finished.ended_at_ms, Some(9));
    let listed = list_sessions(vec![summary(3, 7), summary(2, 7)], vec![finished], true);
    let ids: Vec<u128> = listed.iter().map(|s| s.sandbox_id).collect();
    assert_eq!(ids, vec![1, 2, 3]);
    let active_only = list_sessions(vec![summary(3, 7)], vec![summary(1, 1)], false);
    assert_eq!(active_only.len(), 1);
}
