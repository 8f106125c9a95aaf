//! Runtime configuration and the checks that a configuration is usable.

use vstd::prelude::*;
use crate::error::SandboxError;
use crate::text::{
    bytes_at, bytes_at_exec, bytes_contain, bytes_contain_exec, chars_eq, chars_of, concat_chars,
    lower, lower_exec, owned, string_of, trim, trim_chars,
};

verus! {

/// The host the daemon runs on, as `std::env::consts::{OS, ARCH}` name it.
#[derive(Debug, Clone)]
pub struct HostPlatform {
    pub os: String,
    pub arch: String,
}

impl HostPlatform {
    pub open spec fn is_linux(&self) -> bool {
        self.os@ == "linux"@
    }

    pub open spec fn is_macos_x86_64(&self) -> bool {
        self.os@ == "macos"@ && self.arch@ == "x86_64"@
    }

    pub fn linux(&self) -> (r: bool)
        ensures
            r == self.is_linux(),
    {
        chars_eq(&chars_of(self.os.as_str()), &chars_of("linux"))
    }

    pub fn macos_x86_64(&self) -> (r: bool)
        ensures
            r == self.is_macos_x86_64(),
    {
        chars_eq(&chars_of(self.os.as_str()), &chars_of("macos")) && chars_eq(
            &chars_of(self.arch.as_str()),
            &chars_of("x86_64"),
        )
    }
}

#[derive(Debug, Clone, Copy, PartialEq, Eq, Structural)]
pub enum IsolationMode {
    Compat,
    Secure,
}

impl IsolationMode {
    /// Secure isolation on Linux hosts that delegate a cgroup parent
    /// (`SAGENS_CGROUP_PARENT` set and non-empty), compat otherwise.
    pub fn default_for_host(host: &HostPlatform, cgroup_parent_env: &Option<String>) -> (m:
        IsolationMode)
        ensures
            m == (if host.is_linux() && (cgroup_parent_env matches Some(v) && v@.len() > 0) {
                IsolationMode::Secure
            } else {
                IsolationMode::Compat
            }),
    {
        let set = match cgroup_parent_env {
            Some(v) => chars_of(v.as_str()).len() > 0,
            None => false,
        };
        if host.linux() && set {
            IsolationMode::Secure
        } else {
            IsolationMode::Compat
        }
    }
}

#[derive(Debug, Clone, Copy, PartialEq, Eq, Structural)]
pub enum GuestKernelFormat {
    Raw,
    Elf,
    PeGz,
    ImageBz2,
    ImageGz,
    ImageZstd,
}

/// The format a (trimmed, lowercased) kernel format name stands for.
pub open spec fn kernel_format_named(name: Seq<char>) -> Option<GuestKernelFormat> {
    if name == "raw"@ {
        Some(GuestKernelFormat::Raw)
    } else if name == "elf"@ {
        Some(GuestKernelFormat::Elf)
    } else if name == "pegz"@ || name == "pe_gz"@ || name == "pe-gz"@ {
        Some(GuestKernelFormat::PeGz)
    } else if name == "imagebz2"@ || name == "image_bz2"@ || name == "image-bz2"@ {
        Some(GuestKernelFormat::ImageBz2)
    } else if name == "imagegz"@ || name == "image_gz"@ || name == "image-gz"@ {
        Some(GuestKernelFormat::ImageGz)
    } else if name == "imagezstd"@ || name == "image_zstd"@ || name == "image-zstd"@ {
        Some(GuestKernelFormat::ImageZstd)
    } else {
        None
    }
}

/// The format a kernel image probe announces: an ELF header, or a DOS/PE
/// stub (`MZ`) wrapping a gzip, bzip2 or zstd payload; otherwise `fallback`.
pub open spec fn kernel_format_of_probe(probe: Seq<u8>, fallback: GuestKernelFormat) -> GuestKernelFormat {
    if bytes_at(probe, seq![0x7fu8, 0x45u8, 0x4cu8, 0x46u8], 0) {
        GuestKernelFormat::Elf
    } else if bytes_at(probe, seq![0x4du8, 0x5au8], 0) {
        if bytes_contain(probe, seq![0x1fu8, 0x8bu8, 0x08u8]) {
            GuestKernelFormat::ImageGz
        } else if bytes_contain(probe, seq![0x42u8, 0x5au8, 0x68u8]) {
            GuestKernelFormat::ImageBz2
        } else if bytes_contain(probe, seq![0x28u8, 0xb5u8, 0x2fu8, 0xfdu8]) {
            GuestKernelFormat::ImageZstd
        } else {
            fallback
        }
    } else {
        fallback
    }
}

/// Detects the kernel format from the first bytes of the kernel image.
pub fn detect_kernel_format_from_probe(probe: &[u8], fallback: GuestKernelFormat) -> (f:
    GuestKernelFormat)
    ensures
        f == kernel_format_of_probe(probe@, fallback),
{
    let elf: [u8; 4] = [0x7f, 0x45, 0x4c, 0x46];
    let mz: [u8; 2] = [0x4d, 0x5a];
    let gz: [u8; 3] = [0x1f, 0x8b, 0x08];
    let bz: [u8; 3] = [0x42, 0x5a, 0x68];
    let zstd: [u8; 4] = [0x28, 0xb5, 0x2f, 0xfd];
    assert(elf@ =~= seq![0x7fu8, 0x45u8, 0x4cu8, 0x46u8]);
    assert(mz@ =~= seq![0x4du8, 0x5au8]);
    assert(gz@ =~= seq![0x1fu8, 0x8bu8, 0x08u8]);
    assert(bz@ =~= seq![0x42u8, 0x5au8, 0x68u8]);
    assert(zstd@ =~= seq![0x28u8, 0xb5u8, 0x2fu8, 0xfdu8]);
    if bytes_at_exec(probe, &elf, 0) {
        return GuestKernelFormat::Elf;
    }
    if bytes_at_exec(probe, &mz, 0) {
        if bytes_contain_exec(probe, &gz) {
            return GuestKernelFormat::ImageGz;
        }
        if bytes_contain_exec(probe, &bz) {
            return GuestKernelFormat::ImageBz2;
        }
        if bytes_contain_exec(probe, &zstd) {
            return GuestKernelFormat::ImageZstd;
        }
    }
    fallback
}

impl GuestKernelFormat {
    /// Parses a kernel format name; surrounding whitespace and ASCII case are
    /// ignored.
    pub fn parse(value: &str) -> (r: Result<GuestKernelFormat, SandboxError>)
        ensures
            match r {
                Ok(f) => kernel_format_named(lower(trim(value@))) == Some(f),
                Err(e) => kernel_format_named(lower(trim(value@))) is None && e
                    == SandboxError::InvalidConfig(e->InvalidConfig_0) && e->InvalidConfig_0@
                    == "unsupported guest kernel format: "@ + value@,
            },
    {
        let v = chars_of(value);
        let name = lower_exec(&trim_chars(&v));
        if chars_eq(&name, &chars_of("raw")) {
            return Ok(GuestKernelFormat::Raw);
        }
        if chars_eq(&name, &chars_of("elf")) {
            return Ok(GuestKernelFormat::Elf);
        }
        if chars_eq(&name, &chars_of("pegz")) || chars_eq(&name, &chars_of("pe_gz")) || chars_eq(
            &name,
            &chars_of("pe-gz"),
        ) {
            return Ok(GuestKernelFormat::PeGz);
        }
        if chars_eq(&name, &chars_of("imagebz2")) || chars_eq(&name, &chars_of("image_bz2"))
            || chars_eq(&name, &chars_of("image-bz2")) {
            return Ok(GuestKernelFormat::ImageBz2);
        }
        if chars_eq(&name, &chars_of("imagegz")) || chars_eq(&name, &chars_of("image_gz"))
            || chars_eq(&name, &chars_of("image-gz")) {
            return Ok(GuestKernelFormat::ImageGz);
        }
        if chars_eq(&name, &chars_of("imagezstd")) || chars_eq(&name, &chars_of("image_zstd"))
            || chars_eq(&name, &chars_of("image-zstd")) {
            return Ok(GuestKernelFormat::ImageZstd);
        }
        Err(SandboxError::invalid(prefixed_str("unsupported guest kernel format: ", value)))
    }

    /// The format a kernel image probe announces, `fallback` when it
    /// announces none.
    pub fn detect_from_probe(probe: &[u8], fallback: GuestKernelFormat) -> (f: GuestKernelFormat)
        ensures
            f == kernel_format_of_probe(probe@, fallback),
    {
        detect_kernel_format_from_probe(probe, fallback)
    }
}

/// `prefix` followed by `value`, as a `String`.
pub fn prefixed_str(prefix: &str, value: &str) -> (s: String)
    ensures
        s@ == prefix@ + value@,
{
    string_of(&concat_chars(&chars_of(prefix), &chars_of(value)))
}


/// What the guest VM boots from and how the host talks to it. Paths are
/// kept as text; durations are whole milliseconds.
#[derive(Debug, Clone)]
pub struct GuestConfig {
    pub libkrun_library: String,
    pub kernel_image: String,
    pub kernel_format: GuestKernelFormat,
    pub rootfs_image: String,
    pub firmware: Option<String>,
    pub guest_agent_path: String,
    pub guest_vsock_port: u32,
    pub boot_timeout_ms: u64,
    pub guest_uid: u32,
    pub guest_gid: u32,
    pub guest_tmpfs_mib: u32,
}

/// The first reason a guest configuration is unusable on `host`, if any.
pub open spec fn guest_config_problem(g: GuestConfig, host: HostPlatform) -> Option<Seq<char>> {
    if g.libkrun_library@.len() == 0 {
        Some("libkrun_library must not be empty"@)
    } else if g.rootfs_image@.len() == 0 {
        Some("rootfs_image must not be empty"@)
    } else if g.guest_agent_path@.len() == 0 {
        Some("guest_agent_path must not be empty"@)
    } else if host.is_macos_x86_64() && g.firmware is None {
        Some("firmware must be configured for libkrun on macOS"@)
    } else if g.guest_vsock_port < 1024 {
        Some("guest_vsock_port must be >= 1024 for sandbox RPC"@)
    } else if g.boot_timeout_ms < 1000 {
        Some("boot_timeout must be at least one second"@)
    } else if g.guest_tmpfs_mib < 32 {
        Some("guest_tmpfs_mib must be at least 32"@)
    } else {
        None
    }
}

/// `r` is `Ok` exactly when `problem` is `None`, and otherwise the
/// invalid-configuration error that carries `problem`.
pub open spec fn reports(r: Result<(), SandboxError>, problem: Option<Seq<char>>) -> bool {
    match r {
        Ok(()) => problem is None,
        Err(e) => e is InvalidConfig && problem == Some(e->InvalidConfig_0@),
    }
}

fn invalid(message: &str) -> (r: Result<(), SandboxError>)
    ensures
        r matches Err(e) && e is InvalidConfig && e->InvalidConfig_0@ == message@,
{
    Err(SandboxError::invalid(owned(message)))
}

impl GuestConfig {
    /// A copy of the configuration, field for field.
    pub fn copied(&self) -> (r: GuestConfig)
        ensures
            r == *self,
    {
        GuestConfig {
            libkrun_library: self.libkrun_library.clone(),
            kernel_image: self.kernel_image.clone(),
            kernel_format: self.kernel_format,
            rootfs_image: self.rootfs_image.clone(),
            firmware: match &self.firmware {
                Some(f) => Some(f.clone()),
                None => None,
            },
            guest_agent_path: self.guest_agent_path.clone(),
            guest_vsock_port: self.guest_vsock_port,
            boot_timeout_ms: self.boot_timeout_ms,
            guest_uid: self.guest_uid,
            guest_gid: self.guest_gid,
            guest_tmpfs_mib: self.guest_tmpfs_mib,
        }
    }

    pub fn validate(&self, host: &HostPlatform) -> (r: Result<(), SandboxError>)
        ensures
            reports(r, guest_config_problem(*self, *host)),
    {
        if chars_of(self.libkrun_library.as_str()).len() == 0 {
            return invalid("libkrun_library must not be empty");
        }
        if chars_of(self.rootfs_image.as_str()).len() == 0 {
            return invalid("rootfs_image must not be empty");
        }
        if chars_of(self.guest_agent_path.as_str()).len() == 0 {
            return invalid("guest_agent_path must not be empty");
        }
        if host.macos_x86_64() && self.firmware.is_none() {
            return invalid("firmware must be configured for libkrun on macOS");
        }
        if self.guest_vsock_port < 1024 {
            return invalid("guest_vsock_port must be >= 1024 for sandbox RPC");
        }
        if self.boot_timeout_ms < 1000 {
            return invalid("boot_timeout must be at least one second");
        }
        if self.guest_tmpfs_mib < 32 {
            return invalid("guest_tmpfs_mib must be at least 32");
        }
        Ok(())
    }
}

#[derive(Debug, Clone, Copy, PartialEq, Eq, Structural)]
pub struct WorkspaceConfig {
    pub disk_size_mib: u64,
}

pub open spec fn workspace_config_problem(w: WorkspaceConfig) -> Option<Seq<char>> {
    if w.disk_size_mib < 64 {
        Some("workspace disk must be at least 64 MiB"@)
    } else {
        None
    }
}

impl WorkspaceConfig {
    pub fn validate(&self) -> (r: Result<(), SandboxError>)
        ensures
            reports(r, workspace_config_problem(*self)),
    {
        if self.disk_size_mib < 64 {
            return invalid("workspace disk must be at least 64 MiB");
        }
        Ok(())
    }
}

/// An IP address: four octets, or eight 16-bit groups.
#[derive(Debug, Clone, Copy, PartialEq, Eq, Structural)]
pub enum IpAddress {
    V4(u8, u8, u8, u8),
    V6(u16, u16, u16, u16, u16, u16, u16, u16),
}

/// `IpAddr::is_loopback`: `127.0.0.0/8`, or `::1`.
pub open spec fn is_loopback(ip: IpAddress) -> bool {
    match ip {
        IpAddress::V4(a, _, _, _) => a == 127,
        IpAddress::V6(a, b, c, d, e, f, g, h) => a == 0 && b == 0 && c == 0 && d == 0 && e == 0
            && f == 0 && g == 0 && h == 1,
    }
}

impl IpAddress {
    pub fn is_loopback(&self) -> (r: bool)
        ensures
            r == is_loopback(*self),
    {
        match self {
            IpAddress::V4(a, _, _, _) => *a == 127,
            IpAddress::V6(a, b, c, d, e, f, g, h) => *a == 0 && *b == 0 && *c == 0 && *d == 0
                && *e == 0 && *f == 0 && *g == 0 && *h == 1,
        }
    }
}

/// A socket address: an IP address and a port.
#[derive(Debug, Clone, Copy, PartialEq, Eq, Structural)]
pub struct BindAddress {
    pub ip: IpAddress,
    pub port: u16,
}

#[derive(Debug, Clone, Copy, PartialEq, Eq, Structural)]
pub struct ControlPlaneConfig {
    pub bind_addr: BindAddress,
    pub allow_remote_bind: bool,
}

pub open spec fn control_plane_problem(c: ControlPlaneConfig) -> Option<Seq<char>> {
    if !c.allow_remote_bind && !is_loopback(c.bind_addr.ip) {
        Some("control-plane bind must stay on loopback unless remote bind is explicitly allowed"@)
    } else {
        None
    }
}

impl ControlPlaneConfig {
    /// `127.0.0.1:7000`, remote bind not allowed.
    pub fn default() -> (c: ControlPlaneConfig)
        ensures
            c == (ControlPlaneConfig {
                bind_addr: BindAddress { ip: IpAddress::V4(127, 0, 0, 1), port: 7000 },
                allow_remote_bind: false,
            }),
    {
        ControlPlaneConfig {
            bind_addr: BindAddress { ip: IpAddress::V4(127, 0, 0, 1), port: 7000 },
            allow_remote_bind: false,
        }
    }

    pub fn validate(&self) -> (r: Result<(), SandboxError>)
        ensures
            reports(r, control_plane_problem(*self)),
    {
        if !self.allow_remote_bind && !self.bind_addr.ip.is_loopback() {
            return invalid(
                "control-plane bind must stay on loopback unless remote bind is explicitly allowed",
            );
        }
        Ok(())
    }
}

#[derive(Debug, Clone)]
pub struct HardeningConfig {
    pub enable_landlock: bool,
    pub cgroup_parent: Option<String>,
    pub runner_log_limit_bytes: u64,
}

pub open spec fn hardening_problem(h: HardeningConfig, mode: IsolationMode) -> Option<Seq<char>> {
    if h.runner_log_limit_bytes < 1048576 {
        Some("runner_log_limit_bytes must be at least 1048576"@)
    } else if mode == IsolationMode::Secure && h.cgroup_parent is None {
        Some("secure isolation mode requires SAGENS_CGROUP_PARENT"@)
    } else {
        None
    }
}

impl HardeningConfig {
    pub fn validate(&self, isolation_mode: IsolationMode) -> (r: Result<(), SandboxError>)
        ensures
            reports(r, hardening_problem(*self, isolation_mode)),
    {
        if self.runner_log_limit_bytes < 1_048_576 {
            return invalid("runner_log_limit_bytes must be at least 1048576");
        }
        if isolation_mode == IsolationMode::Secure && self.cgroup_parent.is_none() {
            return invalid("secure isolation mode requires SAGENS_CGROUP_PARENT");
        }
        Ok(())
    }
}

#[derive(Debug, Clone, Copy, PartialEq, Eq, Structural)]
pub struct LifecycleConfig {
    pub idle_timeout_ms: u64,
    pub shutdown_grace_ms: u64,
    pub warm_pool_size: usize,
    pub reap_interval_ms: u64,
}

pub open spec fn lifecycle_problem(l: LifecycleConfig) -> Option<Seq<char>> {
    if l.idle_timeout_ms < 1000 {
        Some("idle_timeout must be at least one second"@)
    } else if l.shutdown_grace_ms < 100 {
        Some("shutdown_grace must be at least 100ms"@)
    } else if l.reap_interval_ms < 100 {
        Some("reap_interval must be at least 100ms"@)
    } else {
        None
    }
}

impl LifecycleConfig {
    /// 20 s idle timeout, 2 s shutdown grace, one warm run, 500 ms reaping.
    pub fn default() -> (l: LifecycleConfig)
        ensures
            l == (LifecycleConfig {
                idle_timeout_ms: 20000,
                shutdown_grace_ms: 2000,
                warm_pool_size: 1,
                reap_interval_ms: 500,
            }),
    {
        LifecycleConfig {
            idle_timeout_ms: 20_000,
            shutdown_grace_ms: 2_000,
            warm_pool_size: 1,
            reap_interval_ms: 500,
        }
    }

    pub fn validate(&self) -> (r: Result<(), SandboxError>)
        ensures
            reports(r, lifecycle_problem(*self)),
    {
        if self.idle_timeout_ms < 1000 {
            return invalid("idle_timeout must be at least one second");
        }
        if self.shutdown_grace_ms < 100 {
            return invalid("shutdown_grace must be at least 100ms");
        }
        if self.reap_interval_ms < 100 {
            return invalid("reap_interval must be at least 100ms");
        }
        Ok(())
    }
}

#[derive(Debug, Clone)]
pub struct ArtifactBundle {
    pub bundle_id: String,
}

impl ArtifactBundle {
    /// The development bundle, `dev`.
    pub fn default() -> (b: ArtifactBundle)
        ensures
            b.bundle_id@ == "dev"@,
    {
        ArtifactBundle { bundle_id: owned("dev") }
    }
}

/// The resources and limits of one sandbox.
#[derive(Debug, Clone, Copy, PartialEq, Eq, Structural)]
pub struct ExecutionPolicy {
    pub cpu_cores: u32,
    pub memory_mb: u32,
    pub max_processes: u32,
    pub network_enabled: bool,
    pub timeout_ms: Option<u64>,
}

pub type SandboxPolicy = ExecutionPolicy;

pub open spec fn policy_problem(p: ExecutionPolicy) -> Option<Seq<char>> {
    if p.cpu_cores == 0 {
        Some("cpu_cores must be at least 1"@)
    } else if p.memory_mb < 128 {
        Some("memory_mb must be at least 128"@)
    } else if p.max_processes == 0 {
        Some("max_processes must be at least 1"@)
    } else if p.timeout_ms == Some(0u64) {
        Some("timeout_ms must be greater than zero when configured"@)
    } else {
        None
    }
}

/// One core, 512 MB, 256 processes, no network, no timeout.
pub open spec fn default_policy() -> ExecutionPolicy {
    ExecutionPolicy {
        cpu_cores: 1,
        memory_mb: 512,
        max_processes: 256,
        network_enabled: false,
        timeout_ms: None,
    }
}

impl ExecutionPolicy {
    pub fn validate(&self) -> (r: Result<(), SandboxError>)
        ensures
            reports(r, policy_problem(*self)),
    {
        if self.cpu_cores == 0 {
            return invalid("cpu_cores must be at least 1");
        }
        if self.memory_mb < 128 {
            return invalid("memory_mb must be at least 128");
        }
        if self.max_processes == 0 {
            return invalid("max_processes must be at least 1");
        }
        if let Some(0) = self.timeout_ms {
            return invalid("timeout_ms must be greater than zero when configured");
        }
        Ok(())
    }

    pub fn default() -> (p: ExecutionPolicy)
        ensures
            p == default_policy(),
    {
        ExecutionPolicy {
            cpu_cores: 1,
            memory_mb: 512,
            max_processes: 256,
            network_enabled: false,
            timeout_ms: None,
        }
    }
}

/// The default policy passes its own validation.
pub proof fn lemma_default_policy_is_valid()
    ensures
        policy_problem(default_policy()) is None,
{
}

/// What a new sandbox runs: a workspace, its policy, and optionally a
/// checkpoint to restore first.
#[derive(Debug, Clone)]
pub struct SandboxSpec {
    pub workspace_id: String,
    pub policy: ExecutionPolicy,
    pub restore_commit: Option<String>,
}

impl SandboxSpec {
    pub fn new(workspace_id: String) -> (s: SandboxSpec)
        ensures
            s.workspace_id == workspace_id,
            s.policy == default_policy(),
            s.restore_commit is None,
    {
        SandboxSpec { workspace_id, policy: ExecutionPolicy::default(), restore_commit: None }
    }
}

#[derive(Debug, Clone)]
pub struct RuntimeConfig {
    pub state_dir: String,
    pub guest: GuestConfig,
    pub workspace: WorkspaceConfig,
    pub control: ControlPlaneConfig,
    pub lifecycle: LifecycleConfig,
    pub isolation_mode: IsolationMode,
    pub hardening: HardeningConfig,
    pub artifact_bundle: ArtifactBundle,
    pub default_policy: ExecutionPolicy,
}

/// The first reason a runtime configuration is unusable on `host`, checked
/// part by part in the order the daemon checks them.
pub open spec fn runtime_config_problem(c: RuntimeConfig, host: HostPlatform) -> Option<Seq<char>> {
    if c.state_dir@.len() == 0 {
        Some("state_dir must not be empty"@)
    } else if guest_config_problem(c.guest, host) is Some {
        guest_config_problem(c.guest, host)
    } else if workspace_config_problem(c.workspace) is Some {
        workspace_config_problem(c.workspace)
    } else if control_plane_problem(c.control) is Some {
        control_plane_problem(c.control)
    } else if lifecycle_problem(c.lifecycle) is Some {
        lifecycle_problem(c.lifecycle)
    } else if hardening_problem(c.hardening, c.isolation_mode) is Some {
        hardening_problem(c.hardening, c.isolation_mode)
    } else if policy_problem(c.default_policy) is Some {
        policy_problem(c.default_policy)
    } else if c.isolation_mode == IsolationMode::Secure && !host.is_linux() {
        Some("secure isolation mode is only supported on Linux"@)
    } else {
        None
    }
}

impl RuntimeConfig {
    pub fn validate(&self, host: &HostPlatform) -> (r: Result<(), SandboxError>)
        ensures
            reports(r, runtime_config_problem(*self, *host)),
    {
        if chars_of(self.state_dir.as_str()).len() == 0 {
            return invalid("state_dir must not be empty");
        }
        self.guest.validate(host)?;
        self.workspace.validate()?;
        self.control.validate()?;
        self.lifecycle.validate()?;
        self.hardening.validate(self.isolation_mode)?;
        self.default_policy.validate()?;
        if self.isolation_mode == IsolationMode::Secure && !host.linux() {
            return invalid("secure isolation mode is only supported on Linux");
        }
        Ok(())
    }
}

} // verus!
