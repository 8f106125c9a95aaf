use sagens::config::{
    detect_kernel_format_from_probe, ArtifactBundle, BindAddress, ControlPlaneConfig, ExecutionPolicy,
    GuestConfig, GuestKernelFormat, HardeningConfig, HostPlatform, IpAddress, IsolationMode,
    LifecycleConfig, RuntimeConfig, WorkspaceConfig,
};

fn linux_host() -> HostPlatform {
    HostPlatform { os: "linux".to_string(), arch: "x86_64".to_string() }
}

fn guest_config() -> GuestConfig {
    GuestConfig {
        libkrun_library: "/box/libkrun.so".to_string(),
        kernel_image: "/box/vmlinux".to_string(),
        kernel_format: GuestKernelFormat::Raw,
        rootfs_image: "/box/rootfs.raw".to_string(),
        firmware: None,
        guest_agent_path: "/usr/local/bin/sagens-guest-agent".to_string(),
        guest_vsock_port: 11_000,
        boot_timeout_ms: 5_000,
        guest_uid: 65_534,
        guest_gid: 65_534,
        guest_tmpfs_mib: 256,
    }
}

#[test]
fn rejects_reserved_guest_vsock_port() {
    let mut config = guest_config();
    config.guest_vsock_port = 1000;
    assert!(config.validate(&linux_host()).is_err());
}

#[test]
fn rejects_remote_bind_without_opt_in() {
    let config = RuntimeConfig {
        state_dir: "/tmp/sagens".to_string(),
        guest: guest_config(),
        workspace: WorkspaceConfig { disk_size_mib: 512 },
        control: ControlPlaneConfig {
            bind_addr: BindAddress { ip: IpAddress::V4(0, 0, 0, 0), port: 7000 },
            allow_remote_bind: false,
        },
        lifecycle: LifecycleConfig::default(),
        isolation_mode: IsolationMode::Compat,
        hardening: HardeningConfig {
            enable_landlock: false,
            cgroup_parent: None,
            runner_log_limit_bytes: 4 * 1024 * 1024,
        },
        artifact_bundle: ArtifactBundle::default(),
        default_policy: ExecutionPolicy::default(),
    };
    assert!(config.validate(&linux_host()).is_err());
}

#[test]
fn rejects_secure_mode_without_cgroup_parent() {
    let config = RuntimeConfig {
        state_dir: "/tmp/sagens".to_string(),
        guest: guest_config(),
        workspace: WorkspaceConfig { disk_size_mib: 512 },
        control: ControlPlaneConfig::default(),
        lifecycle: LifecycleConfig::default(),
        isolation_mode: IsolationMode::Secure,
        hardening: HardeningConfig {
            enable_landlock: false,
            cgroup_parent: None,
            runner_log_limit_bytes: 4 * 1024 * 1024,
        },
        artifact_bundle: ArtifactBundle::default(),
        default_policy: ExecutionPolicy::default(),
    };
    assert!(config.validate(&linux_host()).is_err());
}

#[test]
fn accepts_the_default_runtime_on_linux() {
    let config = RuntimeConfig {
        state_dir: "/tmp/sagens".to_string(),
        guest: guest_config(),
        workspace: WorkspaceConfig { disk_size_mib: 512 },
        control: ControlPlaneConfig::default(),
        lifecycle: LifecycleConfig::default(),
        isolation_mode: IsolationMode::Compat,
        hardening: HardeningConfig {
            enable_landlock: false,
            cgroup_parent: None,
            runner_log_limit_bytes: 4 * 1024 * 1024,
        },
        artifact_bundle: ArtifactBundle::default(),
        default_policy: ExecutionPolicy::default(),
    };
    assert!(config.validate(&linux_host()).is_ok());
}

#[test]
fn detects_gzip_wrapped_x86_kernel_probe() {
    let probe = b"MZ\x00\x00padding\x1f\x8b\x08";
    assert_eq!(
        GuestKernelFormat::detect_from_probe(probe, GuestKernelFormat::Raw),
        GuestKernelFormat::ImageGz
    );
}

#[test]
fn falls_back_when_probe_is_unknown() {
    assert_eq!(
        GuestKernelFormat::detect_from_probe(b"raw-kernel", GuestKernelFormat::Raw),
        GuestKernelFormat::Raw
    );
}

#[test]
fn detects_embedded_elf_payload_in_pe_wrapped_linux_kernel() {
    let probe = b"MZ\x00\x00stub\x1f\x8b\x08rest";
    assert_eq!(
        detect_kernel_format_from_probe(probe, GuestKernelFormat::Raw),
        GuestKernelFormat::ImageGz
    );
}

#[test]
fn keeps_explicit_pe_gz_fallback_for_plain_gzip_kernel_files() {
    let probe = b"\x1f\x8b\x08plain gzip stream";
    assert_eq!(
        detect_kernel_format_from_probe(probe, GuestKernelFormat::PeGz),
        GuestKernelFormat::PeGz
    );
}

#[test]
fn detects_elf_and_other_compressed_payloads() {
    assert_eq!(
        detect_kernel_format_from_probe(b"\x7fELFrest", GuestKernelFormat::Raw),
        GuestKernelFormat::Elf
    );
    assert_eq!(
        detect_kernel_format_from_probe(b"MZxxBZh91", GuestKernelFormat::Raw),
        GuestKernelFormat::ImageBz2
    );
    assert_eq!(
        detect_kernel_format_from_probe(b"MZxx\x28\xb5\x2f\xfd", GuestKernelFormat::Raw),
        GuestKernelFormat::ImageZstd
    );
}
