use sagens::box_store::{is_box_record_file, unknown_box, BoxStore};
use sagens::bundle::{
    detect_kernel_format, has_embedded_assets, plan_guest_paths, resolved_guest, Compression,
    EmbeddedAsset, EmbeddedBundle, PathChoice,
};
use sagens::config::{GuestConfig, GuestKernelFormat};
use sagens::daemon::{
    close_result, embedded_user_config, into_internal_paths, resolve_managed_daemon_paths,
    startup_result, AdminCredential, ManagedDaemonOptions, SagensPaths, StartupReport, ThreadEnd,
};
use sagens::error::SandboxError;
use sagens::guest_rpc::{
    failure_message, route_guest_event, GuestEvent, GuestResponse, GuestRoute, ReadEnd,
};
use sagens::guest_transport::{
    connect_step, socket_wait_step, ConnectStep, GuestTransportEndpoint, SocketWait,
    DEFAULT_GUEST_RPC_PORT,
};
use sagens::hardening::{cgroup_limits, landlock_abi, require_landlock, HardeningStatus};
use sagens::config::ExecutionPolicy;
use sagens::protocol::{ExecExit, ExecutionEvent, OutputStream, ShellEvent};
use sagens::session::is_connection_lost_error;
use sagens::terminal::{window_size, TerminalMode};

#[test]
fn detects_connection_reset_errors() {
    assert!(is_connection_lost_error(&SandboxError::backend(
        "reading websocket message failed: WebSocket protocol error: Connection reset without closing handshake".to_string(),
    )));
    assert!(is_connection_lost_error(&SandboxError::backend(
        "backend failure: websocket connection closed".to_string(),
    )));
    assert!(!is_connection_lost_error(&SandboxError::backend(
        "BOX is not running".to_string(),
    )));
}

fn guest(libkrun: &str, kernel: &str, rootfs: &str, firmware: Option<&str>) -> GuestConfig {
    GuestConfig {
        libkrun_library: libkrun.to_string(),
        kernel_image: kernel.to_string(),
        kernel_format: GuestKernelFormat::Raw,
        rootfs_image: rootfs.to_string(),
        firmware: firmware.map(|f| f.to_string()),
        guest_agent_path: "/usr/local/bin/sagens-guest-agent".to_string(),
        guest_vsock_port: 11_000,
        boot_timeout_ms: 30_000,
        guest_uid: 65_534,
        guest_gid: 65_534,
        guest_tmpfs_mib: 256,
    }
}

fn empty_bundle() -> EmbeddedBundle {
    EmbeddedBundle { libkrun: None, kernel: None, rootfs: None, firmware: None, runtime_support: vec![] }
}

fn path(choice: &PathChoice) -> String {
    match choice {
        PathChoice::Configured(p) | PathChoice::Extracted(p) => p.clone(),
        PathChoice::Unset => String::new(),
    }
}

#[test]
fn keeps_explicit_paths_when_present() {
    let guest = guest("/tmp/libkrun.dylib", "/tmp/kernel", "/tmp/rootfs.raw", Some("/tmp/firmware.fd"));
    let plan = plan_guest_paths(&empty_bundle(), "/state", "test", &guest).expect("resolve");
    let resolved = resolved_guest(&guest, &plan, GuestKernelFormat::Raw);
    assert_eq!(resolved.libkrun_library, guest.libkrun_library);
    assert_eq!(resolved.kernel_image, guest.kernel_image);
    assert_eq!(resolved.rootfs_image, guest.rootfs_image);
    assert_eq!(resolved.firmware, guest.firmware);
}

#[test]
fn rejects_missing_required_assets_without_bundle() {
    let bundle = empty_bundle();
    let result = plan_guest_paths(&bundle, "/state", "missing", &guest("", "", "", None));
    if has_embedded_assets(&bundle) {
        assert!(result.is_ok());
    } else {
        assert!(result.is_err());
    }
}

#[test]
fn partial_bundle_resolves_with_empty_paths() {
    let kernel = EmbeddedAsset {
        file_name: "vmlinux".to_string(),
        bytes: vec![1, 2, 3],
        compression: Compression::Uncompressed,
        mode: 0o644,
    };
    let bundle = EmbeddedBundle { kernel: Some(kernel), ..empty_bundle() };
    assert!(has_embedded_assets(&bundle));
    let plan = plan_guest_paths(&bundle, "/state", "missing", &guest("", "", "", None)).expect("plan");
    assert!(matches!(plan.libkrun_library, PathChoice::Unset));
    assert!(matches!(plan.rootfs_image, PathChoice::Unset));
    assert_eq!(path(&plan.kernel_image), "/state/embedded-bundle/missing/vmlinux");
    let resolved = resolved_guest(&guest("", "", "", None), &plan, GuestKernelFormat::Raw);
    assert_eq!(resolved.libkrun_library, "");
    assert_eq!(resolved.rootfs_image, "");
    match plan_guest_paths(&empty_bundle(), "/state", "missing", &guest("/lib.so", "", "", None)) {
        Err(error) => assert_eq!(
            error.to_message(),
            "invalid configuration: missing required embedded asset and no explicit path was configured for /state/embedded-bundle/missing"
        ),
        Ok(_) => panic!("an empty bundle without a root filesystem path must be refused"),
    }
}

#[test]
fn extracts_embedded_assets_into_the_bundle_directory() {
    let asset = |name: &str| EmbeddedAsset {
        file_name: name.to_string(),
        bytes: vec![1, 2, 3],
        compression: Compression::Uncompressed,
        mode: 0o644,
    };
    let bundle = EmbeddedBundle {
        libkrun: Some(asset("libkrun.so")),
        kernel: None,
        rootfs: Some(asset("rootfs.raw")),
        firmware: Some(asset("edk2.fd")),
        runtime_support: vec![asset("libkrunfw.so")],
    };
    assert!(has_embedded_assets(&bundle));
    let plan = plan_guest_paths(&bundle, "/state", "b1", &guest("", "", "", None)).expect("plan");
    assert_eq!(plan.bundle_dir, "/state/embedded-bundle/b1");
    assert_eq!(plan.runtime_support, vec!["/state/embedded-bundle/b1/libkrunfw.so"]);
    assert_eq!(path(&plan.libkrun_library), "/state/embedded-bundle/b1/libkrun.so");
    assert!(matches!(plan.kernel_image, PathChoice::Unset));
    assert_eq!(path(plan.firmware.as_ref().unwrap()), "/state/embedded-bundle/b1/edk2.fd");
}

#[test]
fn detects_linux_x86_kernel_format_from_explicit_vmlinuz_path() {
    let probe: &[u8] = b"MZ\x00\x00stub\x1f\x8b\x08payload";
    assert_eq!(
        detect_kernel_format("/tmp/vmlinuz-virt", Some(probe), GuestKernelFormat::Raw),
        GuestKernelFormat::ImageGz
    );
    assert_eq!(detect_kernel_format("", Some(probe), GuestKernelFormat::Raw), GuestKernelFormat::Raw);
    assert_eq!(detect_kernel_format("/k", None, GuestKernelFormat::PeGz), GuestKernelFormat::PeGz);
}

#[test]
fn box_store_paths_and_record_names() {
    let store = BoxStore::new("/state".to_string());
    let id: u128 = 0x67e5_5044_10b1_426f_9247_bb68_0e5f_e0c8;
    assert_eq!(store.boxes_dir(), "/state/boxes");
    assert_eq!(store.box_path(id), "/state/boxes/67e55044-10b1-426f-9247-bb680e5fe0c8.json");
    assert_eq!(store.temp_path(id), "/state/boxes/67e55044-10b1-426f-9247-bb680e5fe0c8.json.tmp");
    assert!(is_box_record_file("67e55044-10b1-426f-9247-bb680e5fe0c8.json"));
    assert!(!is_box_record_file("credentials.json"));
    assert!(!is_box_record_file("67e55044-10b1-426f-9247-bb680e5fe0c8.json.tmp"));
    assert!(!is_box_record_file(".json"));
    assert_eq!(
        unknown_box(id).to_message(),
        "not found: unknown BOX 67e55044-10b1-426f-9247-bb680e5fe0c8"
    );
}

#[test]
fn resolves_managed_daemon_paths_from_options_and_defaults() {
    let defaults = SagensPaths {
        state_dir: "/home/u/.sagens".to_string(),
        user_config_path: "/home/u/.sagens/user.json".to_string(),
        endpoint: "ws://127.0.0.1:7000".to_string(),
        pid_path: "/home/u/.sagens/daemon.pid".to_string(),
    };
    let paths = resolve_managed_daemon_paths(ManagedDaemonOptions::default(), &defaults);
    assert_eq!(paths.state_dir, "/home/u/.sagens");
    assert_eq!(paths.pid_path, "/home/u/.sagens/daemon.pid");
    let options = ManagedDaemonOptions {
        state_dir: Some("/srv/sagens".to_string()),
        user_config_path: None,
        endpoint: Some("ws://10.0.0.1:7000".to_string()),
    };
    let paths = resolve_managed_daemon_paths(options, &defaults);
    assert_eq!(paths.pid_path, "/srv/sagens/daemon.pid");
    assert_eq!(paths.user_config_path, "/home/u/.sagens/user.json");
    assert_eq!(paths.endpoint, "ws://10.0.0.1:7000");
    let internal = into_internal_paths(&paths);
    assert_eq!(internal.pid_path, "/srv/sagens/daemon.pid");
}

#[test]
fn embedded_daemon_reports() {
    let credential = AdminCredential { admin_uuid: 7, admin_token: "tok".to_string() };
    let config = embedded_user_config(&credential, "127.0.0.1:7001");
    assert_eq!(config.endpoint, "ws://127.0.0.1:7001");
    assert_eq!(config.version, 1);
    assert_eq!(
        startup_result(StartupReport::TimedOut).unwrap_err().to_message(),
        "timeout: timed out waiting for embedded daemon startup"
    );
    assert_eq!(
        startup_result(StartupReport::Exited(Ok(()))).unwrap_err().to_message(),
        "backend failure: embedded daemon exited before reporting startup state"
    );
    assert!(close_result(ThreadEnd::AlreadyClosed).is_ok());
    assert_eq!(
        close_result(ThreadEnd::Panicked).unwrap_err().to_message(),
        "backend failure: embedded daemon thread panicked"
    );
}

#[test]
fn waits_for_the_guest_bridge_socket() {
    let endpoint = GuestTransportEndpoint::new("/run/g.sock".to_string(), DEFAULT_GUEST_RPC_PORT);
    assert_eq!(endpoint.port, 11000);
    assert!(matches!(socket_wait_step(true, 10_000, 5, &endpoint.socket_path), SocketWait::Ready));
    assert!(matches!(socket_wait_step(false, 5, 5, &endpoint.socket_path), SocketWait::Retry));
    match socket_wait_step(false, 6, 5, &endpoint.socket_path) {
        SocketWait::GiveUp(error) => assert_eq!(
            error.to_message(),
            "timeout: timed out waiting for guest vsock bridge /run/g.sock"
        ),
        _ => panic!("should give up"),
    }
    assert!(matches!(connect_step(2_000, None), ConnectStep::Attempt(750)));
    assert!(matches!(connect_step(100, None), ConnectStep::Attempt(100)));
    match connect_step(0, None) {
        ConnectStep::GiveUp(error) => assert_eq!(error.to_message(), "timeout: guest RPC did not become ready"),
        _ => panic!("should give up"),
    }
}

#[test]
fn routes_guest_events() {
    let route = route_guest_event::<()>(
        GuestEvent::ExecOutput { exec_id: 5, stream: OutputStream::Stdout, data: "aGk=".to_string() },
        true,
        false,
    );
    match route {
        Ok(GuestRoute::ToExec { exec_id, events, close }) => {
            assert_eq!(exec_id, 5);
            assert!(!close);
            assert!(matches!(&events[0], ExecutionEvent::Output { data, .. } if data == b"hi"));
        }
        _ => panic!("exec output expected"),
    }
    assert!(matches!(
        route_guest_event::<()>(GuestEvent::ExecExit { exec_id: 5, status: ExecExit::Success }, false, false),
        Ok(GuestRoute::Drop)
    ));
    match route_guest_event::<()>(
        GuestEvent::Error { request_id: None, target: Some(9), message: "gone".to_string() },
        false,
        true,
    ) {
        Ok(GuestRoute::ToShell { session_id, events, close }) => {
            assert_eq!(session_id, 9);
            assert!(close);
            assert!(matches!(&events[0], ShellEvent::Output(data) if data == b"gone"));
            assert!(matches!(events[1], ShellEvent::Exit(-1)));
        }
        _ => panic!("shell failure expected"),
    }
    match route_guest_event::<()>(GuestEvent::Pong { request_id: "r1".to_string() }, false, false) {
        Ok(GuestRoute::Respond { request_id, response: Ok(GuestResponse::Pong) }) => assert_eq!(request_id, "r1"),
        _ => panic!("pong expected"),
    }
    assert!(route_guest_event::<()>(
        GuestEvent::Error { request_id: None, target: None, message: "bad".to_string() },
        false,
        false
    )
    .is_err());
    assert!(route_guest_event::<()>(
        GuestEvent::ShellOutput { session_id: 1, data: "!!".to_string() },
        false,
        true
    )
    .is_err());
    assert_eq!(failure_message(ReadEnd::Closed), "guest RPC connection closed");
    assert_eq!(failure_message(ReadEnd::ReadFailed("eof".to_string())), "guest RPC read error: eof");
}

#[test]
fn cgroup_limits_follow_the_policy() {
    let policy = ExecutionPolicy::default();
    let (dir, files) = cgroup_limits("/sys/fs/cgroup/sagens", 1, &policy, 4242);
    assert_eq!(dir, "/sys/fs/cgroup/sagens/00000000-0000-0000-0000-000000000001");
    assert_eq!(files[0], ("memory.max".to_string(), "536870912\n".to_string()));
    assert_eq!(files[1], ("cpu.max".to_string(), "100000 100000\n".to_string()));
    assert_eq!(files[2], ("pids.max".to_string(), "288\n".to_string()));
    assert_eq!(files[3], ("cgroup.procs".to_string(), "4242\n".to_string()));
    assert!(require_landlock(true).is_ok());
    assert!(require_landlock(false).is_err());
    assert_eq!(landlock_abi(3, "").unwrap(), 3);
    assert!(landlock_abi(-1, "ENOSYS").is_err());
    assert!(HardeningStatus::default().warnings.is_empty());
}

#[test]
fn terminal_mode_from_probes() {
    let mode = TerminalMode::from_probes(Some((80, 24)), false, None);
    assert!(mode.is_tty());
    assert_eq!(mode.size(), Some((80, 24)));
    let mode = TerminalMode::from_probes(None, false, Some((1, 1)));
    assert!(!mode.is_tty());
    assert_eq!(mode.size(), None);
    assert_eq!(window_size(0, 24), None);
    assert_eq!(window_size(100, 30), Some((100, 30)));
}

fn record(box_id: u128, created_at_ms: u64) -> sagens::boxes::BoxRecord {
    sagens::box_lifecycle::new_box_record(box_id, None, None, "/tmp/workspace.raw".to_string(), created_at_ms)
}

#[test]
fn runtime_usage_is_not_persisted() {
    let mut running = record(1, 1);
    running.status = sagens::boxes::BoxStatus::Running;
    running.runtime_usage = Some(sagens::boxes::BoxRuntimeUsage {
        cpu_millicores: 250,
        memory_used_mib: 128,
        fs_used_mib: 64,
        process_count: 4,
    });
    let persisted = running.into_persisted();
    assert_eq!(persisted.runtime_usage, None);
    assert_eq!(persisted.status, sagens::boxes::BoxStatus::Running);
}

#[test]
fn list_ignores_non_box_json_files() {
    let store = BoxStore::new("/state".to_string());
    let names = ["credentials.json", "00000000-0000-0000-0000-000000000002.json", "notes.txt"];
    let kept: Vec<&str> = names.iter().copied().filter(|name| is_box_record_file(name)).collect();
    assert_eq!(kept.len(), 1);
    let listed = store.list_order(vec![record(3, 5), record(2, 5), record(9, 1)]);
    let ids: Vec<u128> = listed.iter().map(|r| r.box_id).collect();
    assert_eq!(ids, vec![9, 2, 3]);
}
