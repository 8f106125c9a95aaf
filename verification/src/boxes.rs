//! BOX records and settings: the settings a BOX may have on this host, the
//! changes a user may make to them, and the state changes of a BOX's life.

use vstd::prelude::*;
use crate::config::{ExecutionPolicy, IsolationMode};
use crate::error::{SandboxError, error_message};
use crate::ids::{uuid_string, uuid_text};
use crate::text::{chars_of, contains, contains_exec, decimal, decimal_exec, text3};
use vstd::string::*;

verus! {

/// A numeric setting: its current value and the most it may be raised to.
#[derive(Debug, Clone, Copy, PartialEq, Eq, Structural)]
pub struct BoxNumericSetting<T> {
    pub current: T,
    pub max: T,
}

#[derive(Debug, Clone, Copy, PartialEq, Eq, Structural)]
pub struct BoxBooleanSetting {
    pub current: bool,
    pub max: bool,
}

#[derive(Debug, Clone, Copy, PartialEq, Eq, Structural)]
pub struct BoxSettings {
    pub cpu_cores: BoxNumericSetting<u32>,
    pub memory_mb: BoxNumericSetting<u32>,
    pub fs_size_mib: BoxNumericSetting<u64>,
    pub max_processes: BoxNumericSetting<u32>,
    pub network_enabled: BoxBooleanSetting,
}

/// The most this host can give one BOX.
#[derive(Debug, Clone, Copy, PartialEq, Eq, Structural)]
pub struct BoxCaps {
    pub cpu_cores: u32,
    pub memory_mb: u32,
    pub fs_size_mib: u64,
    pub max_processes: u32,
    pub network_enabled: bool,
}

pub open spec fn max_u(a: int, b: int) -> int {
    if a >= b {
        a
    } else {
        b
    }
}

/// `Ord::clamp`: `v` brought into `[lo, hi]` (`lo <= hi`).
pub open spec fn clamp(v: int, lo: int, hi: int) -> int {
    if v < lo {
        lo
    } else if v > hi {
        hi
    } else {
        v
    }
}

/// The settings of a BOX that has none yet: the default policy's values,
/// capped by what the host gives.
pub open spec fn initial_settings(
    policy: ExecutionPolicy,
    default_fs_size_mib: u64,
    actual_fs_size_mib: u64,
    detected: BoxCaps,
) -> BoxSettings {
    BoxSettings {
        cpu_cores: BoxNumericSetting { current: policy.cpu_cores, max: detected.cpu_cores },
        memory_mb: BoxNumericSetting { current: policy.memory_mb, max: detected.memory_mb },
        fs_size_mib: BoxNumericSetting {
            current: max_u(actual_fs_size_mib as int, default_fs_size_mib as int) as u64,
            max: detected.fs_size_mib,
        },
        max_processes: BoxNumericSetting {
            current: policy.max_processes,
            max: detected.max_processes,
        },
        network_enabled: BoxBooleanSetting {
            current: policy.network_enabled && detected.network_enabled,
            max: detected.network_enabled,
        },
    }
}

/// The settings normalization starts from.
pub open spec fn base_settings(
    existing: Option<BoxSettings>,
    policy: ExecutionPolicy,
    default_fs_size_mib: u64,
    actual_fs_size_mib: u64,
    detected: BoxCaps,
) -> BoxSettings {
    match existing {
        Some(s) => s,
        None => initial_settings(policy, default_fs_size_mib, actual_fs_size_mib, detected),
    }
}

/// Normalization can run: every maximum it computes admits the setting's
/// least value (one core, 128 MB, one process, 64 MiB of disk).
pub open spec fn normalize_admissible(
    existing: Option<BoxSettings>,
    policy: ExecutionPolicy,
    default_fs_size_mib: u64,
    actual_fs_size_mib: u64,
    detected: BoxCaps,
) -> bool {
    let b = base_settings(existing, policy, default_fs_size_mib, actual_fs_size_mib, detected);
    &&& max_u(detected.cpu_cores as int, b.cpu_cores.current as int) >= 1
    &&& max_u(detected.memory_mb as int, b.memory_mb.current as int) >= 128
    &&& max_u(detected.max_processes as int, b.max_processes.current as int) >= 1
    &&& max_u(detected.fs_size_mib as int, actual_fs_size_mib as int) >= 64
}

/// The normalized settings: each maximum is at least what the host gives
/// and at least the current value; each current value is brought into its
/// range; the disk size follows the workspace's actual size; networking is
/// allowed only as far as the host allows it.
pub open spec fn normalized(
    existing: Option<BoxSettings>,
    policy: ExecutionPolicy,
    default_fs_size_mib: u64,
    actual_fs_size_mib: u64,
    detected: BoxCaps,
) -> BoxSettings {
    let b = base_settings(existing, policy, default_fs_size_mib, actual_fs_size_mib, detected);
    let cpu_max = max_u(detected.cpu_cores as int, b.cpu_cores.current as int);
    let mem_max = max_u(detected.memory_mb as int, b.memory_mb.current as int);
    let proc_max = max_u(detected.max_processes as int, b.max_processes.current as int);
    let fs_max = max_u(detected.fs_size_mib as int, actual_fs_size_mib as int);
    BoxSettings {
        cpu_cores: BoxNumericSetting {
            current: clamp(b.cpu_cores.current as int, 1, cpu_max) as u32,
            max: cpu_max as u32,
        },
        memory_mb: BoxNumericSetting {
            current: clamp(b.memory_mb.current as int, 128, mem_max) as u32,
            max: mem_max as u32,
        },
        fs_size_mib: BoxNumericSetting {
            current: clamp(actual_fs_size_mib as int, 64, fs_max) as u64,
            max: fs_max as u64,
        },
        max_processes: BoxNumericSetting {
            current: clamp(b.max_processes.current as int, 1, proc_max) as u32,
            max: proc_max as u32,
        },
        network_enabled: BoxBooleanSetting {
            current: b.network_enabled.current && detected.network_enabled,
            max: detected.network_enabled,
        },
    }
}

fn max_u32(a: u32, b: u32) -> (r: u32)
    ensures
        r == max_u(a as int, b as int),
{
    if a >= b {
        a
    } else {
        b
    }
}

fn max_u64(a: u64, b: u64) -> (r: u64)
    ensures
        r == max_u(a as int, b as int),
{
    if a >= b {
        a
    } else {
        b
    }
}

fn clamp_u32(v: u32, lo: u32, hi: u32) -> (r: u32)
    requires
        lo <= hi,
    ensures
        r == clamp(v as int, lo as int, hi as int),
{
    if v < lo {
        lo
    } else if v > hi {
        hi
    } else {
        v
    }
}

fn clamp_u64(v: u64, lo: u64, hi: u64) -> (r: u64)
    requires
        lo <= hi,
    ensures
        r == clamp(v as int, lo as int, hi as int),
{
    if v < lo {
        lo
    } else if v > hi {
        hi
    } else {
        v
    }
}

/// Brings a BOX's settings in line with the default policy, the workspace's
/// actual disk size and what the host can give.
pub fn normalize_settings(
    existing: Option<BoxSettings>,
    default_policy: ExecutionPolicy,
    default_fs_size_mib: u64,
    actual_fs_size_mib: u64,
    detected: BoxCaps,
) -> (s: BoxSettings)
    requires
        normalize_admissible(
            existing,
            default_policy,
            default_fs_size_mib,
            actual_fs_size_mib,
            detected,
        ),
    ensures
        s == normalized(existing, default_policy, default_fs_size_mib, actual_fs_size_mib, detected),
{
    let mut settings = match existing {
        Some(s) => s,
        None => BoxSettings {
            cpu_cores: BoxNumericSetting {
                current: default_policy.cpu_cores,
                max: detected.cpu_cores,
            },
            memory_mb: BoxNumericSetting {
                current: default_policy.memory_mb,
                max: detected.memory_mb,
            },
            fs_size_mib: BoxNumericSetting {
                current: max_u64(actual_fs_size_mib, default_fs_size_mib),
                max: detected.fs_size_mib,
            },
            max_processes: BoxNumericSetting {
                current: default_policy.max_processes,
                max: detected.max_processes,
            },
            network_enabled: BoxBooleanSetting {
                current: default_policy.network_enabled && detected.network_enabled,
                max: detected.network_enabled,
            },
        },
    };
    settings.cpu_cores.max = max_u32(detected.cpu_cores, settings.cpu_cores.current);
    settings.cpu_cores.current = clamp_u32(settings.cpu_cores.current, 1, settings.cpu_cores.max);
    settings.memory_mb.max = max_u32(detected.memory_mb, settings.memory_mb.current);
    settings.memory_mb.current = clamp_u32(
        settings.memory_mb.current,
        128,
        settings.memory_mb.max,
    );
    settings.max_processes.max = max_u32(
        detected.max_processes,
        settings.max_processes.current,
    );
    settings.max_processes.current = clamp_u32(
        settings.max_processes.current,
        1,
        settings.max_processes.max,
    );
    settings.fs_size_mib.max = max_u64(detected.fs_size_mib, actual_fs_size_mib);
    settings.fs_size_mib.current = clamp_u64(actual_fs_size_mib, 64, settings.fs_size_mib.max);
    settings.network_enabled.max = detected.network_enabled;
    settings.network_enabled.current = settings.network_enabled.current
        && settings.network_enabled.max;
    settings
}

/// Every value of normalized settings lies within its range, and every
/// maximum is at least what the host gives.
pub proof fn lemma_normalized_in_range(
    existing: Option<BoxSettings>,
    policy: ExecutionPolicy,
    default_fs_size_mib: u64,
    actual_fs_size_mib: u64,
    detected: BoxCaps,
)
    requires
        normalize_admissible(existing, policy, default_fs_size_mib, actual_fs_size_mib, detected),
    ensures
        ({
            let s = normalized(existing, policy, default_fs_size_mib, actual_fs_size_mib, detected);
            &&& 1 <= s.cpu_cores.current <= s.cpu_cores.max
            &&& detected.cpu_cores <= s.cpu_cores.max
            &&& 128 <= s.memory_mb.current <= s.memory_mb.max
            &&& detected.memory_mb <= s.memory_mb.max
            &&& 1 <= s.max_processes.current <= s.max_processes.max
            &&& detected.max_processes <= s.max_processes.max
            &&& 64 <= s.fs_size_mib.current <= s.fs_size_mib.max
            &&& detected.fs_size_mib <= s.fs_size_mib.max
            &&& actual_fs_size_mib <= s.fs_size_mib.max
            &&& s.network_enabled.max == detected.network_enabled
            &&& (s.network_enabled.current ==> s.network_enabled.max)
        }),
{
}

/// Normalizing settings that are already normalized changes nothing.
pub proof fn lemma_normalize_idempotent(
    existing: Option<BoxSettings>,
    policy: ExecutionPolicy,
    default_fs_size_mib: u64,
    actual_fs_size_mib: u64,
    detected: BoxCaps,
)
    requires
        normalize_admissible(existing, policy, default_fs_size_mib, actual_fs_size_mib, detected),
    ensures
        normalize_admissible(
            Some(normalized(existing, policy, default_fs_size_mib, actual_fs_size_mib, detected)),
            policy,
            default_fs_size_mib,
            actual_fs_size_mib,
            detected,
        ),
        normalized(
            Some(normalized(existing, policy, default_fs_size_mib, actual_fs_size_mib, detected)),
            policy,
            default_fs_size_mib,
            actual_fs_size_mib,
            detected,
        ) == normalized(existing, policy, default_fs_size_mib, actual_fs_size_mib, detected),
{
}


/// Normalization keeps what is already allowed: a current value at or
/// above its floor stays as it is (for a BOX without settings, the default
/// policy's value), each maximum is the larger of the host's capacity and
/// the current value, the disk size follows the workspace's actual size,
/// and networking stays on only where it was on and the host allows it.
pub proof fn lemma_normalize_keeps_allowed_values(
    existing: Option<BoxSettings>,
    policy: ExecutionPolicy,
    default_fs_size_mib: u64,
    actual_fs_size_mib: u64,
    detected: BoxCaps,
)
    requires
        normalize_admissible(existing, policy, default_fs_size_mib, actual_fs_size_mib, detected),
    ensures
        ({
            let s = normalized(existing, policy, default_fs_size_mib, actual_fs_size_mib, detected);
            let cpu = match existing { Some(e) => e.cpu_cores.current, None => policy.cpu_cores };
            let mem = match existing { Some(e) => e.memory_mb.current, None => policy.memory_mb };
            let procs = match existing { Some(e) => e.max_processes.current, None => policy.max_processes };
            let net = match existing {
                Some(e) => e.network_enabled.current,
                None => policy.network_enabled,
            };
            &&& cpu >= 1 ==> s.cpu_cores.current == cpu
            &&& s.cpu_cores.max == (if detected.cpu_cores >= cpu { detected.cpu_cores } else { cpu })
            &&& mem >= 128 ==> s.memory_mb.current == mem
            &&& s.memory_mb.max == (if detected.memory_mb >= mem { detected.memory_mb } else { mem })
            &&& procs >= 1 ==> s.max_processes.current == procs
            &&& s.max_processes.max == (if detected.max_processes >= procs { detected.max_processes } else { procs })
            &&& actual_fs_size_mib >= 64 ==> s.fs_size_mib.current == actual_fs_size_mib
            &&& s.network_enabled.current == (net && detected.network_enabled)
            &&& s.network_enabled.max == detected.network_enabled
        }),
{
}

/// What the host reports about its capacity, each when it could be read:
/// the available parallelism, the physical memory, the per-user process
/// limit and the free disk space of the state directory.
#[derive(Debug, Clone, Copy, PartialEq, Eq, Structural)]
pub struct HostCapacity {
    pub parallelism: Option<usize>,
    pub total_memory_mib: Option<u64>,
    pub process_limit: Option<u64>,
    pub available_disk_mib: Option<u64>,
}

/// The CPU cap: the host's parallelism (or the default, at least one), and
/// never below the default.
pub open spec fn cpu_cap(parallelism: Option<usize>, default_value: u32) -> u32 {
    let seen: int = match parallelism {
        Some(v) => (v as u32) as int,
        None => max_u(default_value as int, 1),
    };
    max_u(seen, default_value as int) as u32
}

pub fn detect_cpu_cap(parallelism: Option<usize>, default_value: u32) -> (c: u32)
    ensures
        c == cpu_cap(parallelism, default_value),
{
    let seen = match parallelism {
        Some(v) => {
            #[verifier::truncate]
            let t = v as u32;
            t
        },
        None => max_u32(default_value, 1),
    };
    max_u32(seen, default_value)
}

/// A cap read from the host when it fits in a `u32`, else `fallback_floor`
/// or the default whichever is larger; never below the default.
pub open spec fn u32_cap(seen: Option<u64>, default_value: u32, fallback_floor: u32) -> u32 {
    let v: int = match seen {
        Some(x) if x <= u32::MAX => x as int,
        _ => max_u(default_value as int, fallback_floor as int),
    };
    max_u(v, default_value as int) as u32
}

fn u32_cap_exec(seen: Option<u64>, default_value: u32, fallback_floor: u32) -> (c: u32)
    ensures
        c == u32_cap(seen, default_value, fallback_floor),
{
    let v = match seen {
        Some(x) if x <= 0xffff_ffffu64 => x as u32,
        _ => max_u32(default_value, fallback_floor),
    };
    max_u32(v, default_value)
}

/// The memory cap in MB: the host's physical memory, else at least 4096.
pub fn detect_memory_cap(total_memory_mib: Option<u64>, default_value: u32) -> (c: u32)
    ensures
        c == u32_cap(total_memory_mib, default_value, 4096),
{
    u32_cap_exec(total_memory_mib, default_value, 4096)
}

/// The process cap: the host's process limit, else at least 4096.
pub fn detect_process_cap(process_limit: Option<u64>, default_value: u32) -> (c: u32)
    ensures
        c == u32_cap(process_limit, default_value, 4096),
{
    u32_cap_exec(process_limit, default_value, 4096)
}

pub open spec fn sat_add(a: u64, b: u64) -> u64 {
    if a + b > u64::MAX {
        u64::MAX
    } else {
        (a + b) as u64
    }
}

pub open spec fn sat_mul(a: u64, b: u64) -> u64 {
    if a * b > u64::MAX {
        u64::MAX
    } else {
        (a * b) as u64
    }
}

/// The disk cap in MiB: free space plus the workspace's size, else eight
/// times the default; never below the default or the current size.
pub open spec fn fs_cap(free_mib: Option<u64>, default_value: u64, current_value: u64) -> u64 {
    let v: int = match free_mib {
        Some(f) => sat_add(f, current_value) as int,
        None => max_u(sat_mul(default_value, 8) as int, current_value as int),
    };
    max_u(max_u(v, default_value as int), current_value as int) as u64
}

pub fn detect_fs_cap(free_mib: Option<u64>, default_value: u64, current_value: u64) -> (c: u64)
    ensures
        c == fs_cap(free_mib, default_value, current_value),
{
    let v = match free_mib {
        Some(f) => f.saturating_add(current_value),
        None => {
            let m = if default_value <= u64::MAX / 8 {
                default_value * 8
            } else {
                u64::MAX
            };
            max_u64(m, current_value)
        },
    };
    max_u64(max_u64(v, default_value), current_value)
}

/// Physical memory in MiB from `sysconf(_SC_PHYS_PAGES)` and
/// `sysconf(_SC_PAGESIZE)`; `None` when either is not positive.
pub open spec fn total_memory_mib(pages: i64, page_size: i64) -> Option<u64> {
    if pages <= 0 || page_size <= 0 {
        None
    } else {
        Some((sat_mul(pages as u64, page_size as u64) / 1048576) as u64)
    }
}

pub fn detect_total_memory_mib(pages: i64, page_size: i64) -> (r: Option<u64>)
    ensures
        r == total_memory_mib(pages, page_size),
{
    if pages <= 0 || page_size <= 0 {
        return None;
    }
    let p = pages as u64;
    let z = page_size as u64;
    let bytes = match p.checked_mul(z) {
        Some(v) => v,
        None => u64::MAX,
    };
    Some(bytes / 1048576)
}

/// The soft process limit from `getrlimit(RLIMIT_NPROC)`: none when the call
/// fails or the limit is infinite, else at most 65535.
pub open spec fn process_limit(rc: i32, rlim_cur: u64, rlim_infinity: u64) -> Option<u64> {
    if rc != 0 || rlim_cur == rlim_infinity {
        None
    } else if rlim_cur < 65535 {
        Some(rlim_cur)
    } else {
        Some(65535)
    }
}

pub fn detect_process_limit(rc: i32, rlim_cur: u64, rlim_infinity: u64) -> (r: Option<u64>)
    ensures
        r == process_limit(rc, rlim_cur, rlim_infinity),
{
    if rc != 0 || rlim_cur == rlim_infinity {
        return None;
    }
    if rlim_cur < 65535 {
        Some(rlim_cur)
    } else {
        Some(65535)
    }
}

/// Free disk space in MiB from `statvfs`: available blocks times the
/// fragment size, when the call succeeded.
pub open spec fn available_disk_mib(rc: i32, f_bavail: u64, f_frsize: u64) -> Option<u64> {
    if rc != 0 {
        None
    } else {
        Some(((f_bavail as int * f_frsize as int) / 1048576) as u64)
    }
}

pub fn detect_available_disk_mib(rc: i32, f_bavail: u64, f_frsize: u64) -> (r: Option<u64>)
    ensures
        r == available_disk_mib(rc, f_bavail, f_frsize),
{
    if rc != 0 {
        return None;
    }
    let a = f_bavail as u128;
    let b = f_frsize as u128;
    proof {
        assert(a * b <= 0xffff_ffff_ffff_ffff_u128 * 0xffff_ffff_ffff_ffff_u128) by (nonlinear_arith)
            requires
                a <= 0xffff_ffff_ffff_ffff_u128,
                b <= 0xffff_ffff_ffff_ffff_u128,
        ;
    }
    let free = a * b;
    #[verifier::truncate]
    let mib = (free / 1048576) as u64;
    Some(mib)
}

/// The caps of one BOX on this host.
pub open spec fn box_caps(
    host: HostCapacity,
    policy: ExecutionPolicy,
    default_fs_size_mib: u64,
    isolation_mode: IsolationMode,
    actual_fs_size_mib: u64,
) -> BoxCaps {
    BoxCaps {
        cpu_cores: cpu_cap(host.parallelism, policy.cpu_cores),
        memory_mb: u32_cap(host.total_memory_mib, policy.memory_mb, 4096),
        fs_size_mib: fs_cap(host.available_disk_mib, default_fs_size_mib, actual_fs_size_mib),
        max_processes: u32_cap(host.process_limit, policy.max_processes, 4096),
        network_enabled: isolation_mode != IsolationMode::Secure,
    }
}

pub fn detect_box_caps(
    host: HostCapacity,
    default_policy: ExecutionPolicy,
    default_fs_size_mib: u64,
    isolation_mode: IsolationMode,
    actual_fs_size_mib: u64,
) -> (c: BoxCaps)
    ensures
        c == box_caps(host, default_policy, default_fs_size_mib, isolation_mode, actual_fs_size_mib),
{
    BoxCaps {
        cpu_cores: detect_cpu_cap(host.parallelism, default_policy.cpu_cores),
        memory_mb: detect_memory_cap(host.total_memory_mib, default_policy.memory_mb),
        fs_size_mib: detect_fs_cap(
            host.available_disk_mib,
            default_fs_size_mib,
            actual_fs_size_mib,
        ),
        max_processes: detect_process_cap(host.process_limit, default_policy.max_processes),
        network_enabled: isolation_mode != IsolationMode::Secure,
    }
}

/// Caps detected for a valid default policy always allow normalization.
pub proof fn lemma_detected_caps_admissible(
    existing: Option<BoxSettings>,
    host: HostCapacity,
    policy: ExecutionPolicy,
    default_fs_size_mib: u64,
    isolation_mode: IsolationMode,
    actual_fs_size_mib: u64,
)
    requires
        policy.cpu_cores >= 1,
        policy.memory_mb >= 128,
        policy.max_processes >= 1,
        default_fs_size_mib >= 64,
    ensures
        normalize_admissible(
            existing,
            policy,
            default_fs_size_mib,
            actual_fs_size_mib,
            box_caps(host, policy, default_fs_size_mib, isolation_mode, actual_fs_size_mib),
        ),
{
}


/// What a running BOX uses right now.
#[derive(Debug, Clone, Copy, PartialEq, Eq, Structural)]
pub struct BoxRuntimeUsage {
    pub cpu_millicores: u32,
    pub memory_used_mib: u64,
    pub fs_used_mib: u64,
    pub process_count: u32,
}

/// One setting change a user asks for.
#[derive(Debug, Clone, Copy, PartialEq, Eq, Structural)]
pub enum BoxSettingValue {
    CpuCores { value: u32 },
    MemoryMb { value: u32 },
    FsSizeMib { value: u64 },
    MaxProcesses { value: u32 },
    NetworkEnabled { value: bool },
}

#[derive(Debug, Clone, Copy, PartialEq, Eq, Structural)]
pub enum BoxStatus {
    Created,
    Running,
    Stopped,
    Failed,
    Removing,
}

/// The registry entry of one BOX.
#[derive(Debug)]
pub struct BoxRecord {
    pub box_id: u128,
    pub name: Option<String>,
    pub status: BoxStatus,
    pub settings: Option<BoxSettings>,
    pub runtime_usage: Option<BoxRuntimeUsage>,
    pub workspace_path: String,
    pub active_sandbox_id: Option<u128>,
    pub created_at_ms: u64,
    pub last_start_at_ms: Option<u64>,
    pub last_stop_at_ms: Option<u64>,
    pub last_error: Option<String>,
}

/// The message a BOX keeps when the daemon restarted while it ran.
pub open spec fn restart_message() -> Seq<char> {
    "daemon restarted while BOX was marked running; start it again"@
}

impl BoxRecord {
    /// What the registry stores: everything but the runtime usage, which is
    /// only ever measured.
    pub fn into_persisted(self) -> (r: BoxRecord)
        ensures
            r == (BoxRecord { runtime_usage: None, ..self }),
    {
        BoxRecord { runtime_usage: None, ..self }
    }

    /// The BOX stopped at `now_ms`: no sandbox, no error.
    pub fn mark_stopped(&mut self, now_ms: u64)
        ensures
            *final(self) == (BoxRecord {
                status: BoxStatus::Stopped,
                active_sandbox_id: None,
                last_stop_at_ms: Some(now_ms),
                last_error: None,
                ..*old(self)
            }),
    {
        self.status = BoxStatus::Stopped;
        self.active_sandbox_id = None;
        self.last_stop_at_ms = Some(now_ms);
        self.last_error = None;
    }

    /// The BOX failed with `message`: no sandbox any more.
    pub fn mark_failed(&mut self, message: String)
        ensures
            *final(self) == (BoxRecord {
                status: BoxStatus::Failed,
                active_sandbox_id: None,
                last_error: Some(message),
                ..*old(self)
            }),
    {
        self.status = BoxStatus::Failed;
        self.active_sandbox_id = None;
        self.last_error = Some(message);
    }

    /// The BOX started at `now_ms` in sandbox `sandbox_id`.
    pub fn mark_started(&mut self, sandbox_id: u128, now_ms: u64)
        ensures
            *final(self) == (BoxRecord {
                status: BoxStatus::Running,
                active_sandbox_id: Some(sandbox_id),
                last_start_at_ms: Some(now_ms),
                last_error: None,
                ..*old(self)
            }),
    {
        self.status = BoxStatus::Running;
        self.active_sandbox_id = Some(sandbox_id);
        self.last_start_at_ms = Some(now_ms);
        self.last_error = None;
    }

    /// The BOX is being removed.
    pub fn mark_removing(&mut self)
        ensures
            *final(self) == (BoxRecord {
                status: BoxStatus::Removing,
                active_sandbox_id: None,
                last_error: None,
                ..*old(self)
            }),
    {
        self.status = BoxStatus::Removing;
        self.active_sandbox_id = None;
        self.last_error = None;
    }

    /// After a daemon restart no sandbox survives: a BOX marked running
    /// becomes failed, asking to be started again; others are kept. Returns
    /// whether the record changed.
    pub fn reconcile_after_restart(&mut self) -> (changed: bool)
        ensures
            changed == (old(self).status == BoxStatus::Running),
            changed ==> (final(self).last_error matches Some(m) && m@ == restart_message()),
            changed ==> *final(self) == (BoxRecord {
                status: BoxStatus::Failed,
                last_error: final(self).last_error,
                ..*old(self)
            }),
            !changed ==> *final(self) == *old(self),
    {
        if self.status == BoxStatus::Running {
            self.status = BoxStatus::Failed;
            self.last_error = Some(
                String::from_str("daemon restarted while BOX was marked running; start it again"),
            );
            true
        } else {
            false
        }
    }
}

/// The policy a BOX runs with: its current settings and the given timeout.
pub open spec fn policy_of(settings: BoxSettings, timeout_ms: Option<u64>) -> ExecutionPolicy {
    ExecutionPolicy {
        cpu_cores: settings.cpu_cores.current,
        memory_mb: settings.memory_mb.current,
        max_processes: settings.max_processes.current,
        network_enabled: settings.network_enabled.current,
        timeout_ms,
    }
}

/// The text `BOX <id><rest>`.
pub open spec fn box_message(box_id: u128, rest: Seq<char>) -> Seq<char> {
    "BOX "@ + uuid_text(box_id) + rest
}

pub fn box_message_exec(box_id: u128, rest: &str) -> (s: String)
    ensures
        s@ == box_message(box_id, rest@),
{
    let id = uuid_string(box_id);
    text3("BOX ", &chars_of(id.as_str()), rest)
}

pub fn box_policy(record: &BoxRecord, timeout_ms: Option<u64>) -> (r: Result<
    ExecutionPolicy,
    SandboxError,
>)
    ensures
        match (record.settings, r) {
            (Some(s), Ok(p)) => p == policy_of(s, timeout_ms),
            (None, Err(SandboxError::Backend(m))) => m@ == box_message(
                record.box_id,
                " is missing persisted settings"@,
            ),
            _ => false,
        },
{
    match &record.settings {
        Some(settings) => Ok(
            ExecutionPolicy {
                cpu_cores: settings.cpu_cores.current,
                memory_mb: settings.memory_mb.current,
                max_processes: settings.max_processes.current,
                network_enabled: settings.network_enabled.current,
                timeout_ms,
            },
        ),
        None => Err(
            SandboxError::backend(
                box_message_exec(record.box_id, " is missing persisted settings"),
            ),
        ),
    }
}

/// The first reason `value` is not allowed for the setting `name`.
pub open spec fn numeric_setting_problem(name: Seq<char>, value: u64, max: u64, min: u64) -> Option<Seq<char>> {
    if value < min {
        Some(name + " must be at least "@ + decimal(min as nat))
    } else if value > max {
        Some(name + " cannot exceed "@ + decimal(max as nat))
    } else {
        None
    }
}

pub fn validate_numeric_setting(name: &str, value: u64, max: u64, min: u64) -> (r: Result<(), SandboxError>)
    ensures
        match r {
            Ok(()) => numeric_setting_problem(name@, value, max, min) is None,
            Err(e) => e is InvalidConfig && numeric_setting_problem(name@, value, max, min) == Some(
                e->InvalidConfig_0@,
            ),
        },
{
    if value < min {
        let d = decimal_exec(min);
        let m = crate::text::concat_chars(&crate::text::concat_chars(&chars_of(name), &chars_of(" must be at least ")), &d);
        return Err(SandboxError::invalid(crate::text::string_of(&m)));
    }
    if value > max {
        let d = decimal_exec(max);
        let m = crate::text::concat_chars(&crate::text::concat_chars(&chars_of(name), &chars_of(" cannot exceed ")), &d);
        return Err(SandboxError::invalid(crate::text::string_of(&m)));
    }
    Ok(())
}

/// Whether a runtime error says the BOX's sandbox is gone.
pub open spec fn is_missing_runtime_session(e: SandboxError) -> bool {
    (e is InvalidConfig || e is Backend) && contains(error_message(e), "unknown active sandbox"@)
}

pub fn missing_runtime_session(error: &SandboxError) -> (r: bool)
    ensures
        r == is_missing_runtime_session(*error),
{
    match error {
        SandboxError::InvalidConfig(message) | SandboxError::Backend(message) => contains_exec(
            &chars_of(message.as_str()),
            &chars_of("unknown active sandbox"),
        ),
        _ => false,
    }
}

/// The settings after a change: the changed value replaces the current
/// one; everything else is kept.
pub open spec fn with_setting(s: BoxSettings, v: BoxSettingValue) -> BoxSettings {
    match v {
        BoxSettingValue::CpuCores { value } => BoxSettings {
            cpu_cores: BoxNumericSetting { current: value, ..s.cpu_cores },
            ..s
        },
        BoxSettingValue::MemoryMb { value } => BoxSettings {
            memory_mb: BoxNumericSetting { current: value, ..s.memory_mb },
            ..s
        },
        BoxSettingValue::FsSizeMib { value } => BoxSettings {
            fs_size_mib: BoxNumericSetting { current: value, ..s.fs_size_mib },
            ..s
        },
        BoxSettingValue::MaxProcesses { value } => BoxSettings {
            max_processes: BoxNumericSetting { current: value, ..s.max_processes },
            ..s
        },
        BoxSettingValue::NetworkEnabled { value } => BoxSettings {
            network_enabled: BoxBooleanSetting { current: value, ..s.network_enabled },
            ..s
        },
    }
}

/// The first reason a change is refused for the given settings.
pub open spec fn setting_problem(s: BoxSettings, v: BoxSettingValue) -> Option<Seq<char>> {
    match v {
        BoxSettingValue::CpuCores { value } => numeric_setting_problem(
            "cpu_cores"@,
            value as u64,
            s.cpu_cores.max as u64,
            1,
        ),
        BoxSettingValue::MemoryMb { value } => numeric_setting_problem(
            "memory_mb"@,
            value as u64,
            s.memory_mb.max as u64,
            128,
        ),
        BoxSettingValue::FsSizeMib { value } => numeric_setting_problem(
            "fs_size_mib"@,
            value,
            s.fs_size_mib.max,
            64,
        ),
        BoxSettingValue::MaxProcesses { value } => numeric_setting_problem(
            "max_processes"@,
            value as u64,
            s.max_processes.max as u64,
            1,
        ),
        BoxSettingValue::NetworkEnabled { value } => if value && !s.network_enabled.max {
            Some("network_enabled cannot be set to true for this BOX"@)
        } else {
            None
        },
    }
}

/// A setting change the BOX accepts: the new record, and the workspace disk
/// size to resize to first when the disk size changes.
pub struct SettingUpdate {
    pub record: BoxRecord,
    pub resize_workspace_mib: Option<u64>,
}

/// Decides a setting change: a running BOX must be stopped first, the BOX
/// must have settings, and the value must lie within the setting's range.
pub fn apply_box_setting(record: BoxRecord, setting: BoxSettingValue) -> (r: Result<
    SettingUpdate,
    SandboxError,
>)
    ensures
        record.status == BoxStatus::Running ==> (r matches Err(SandboxError::Conflict(m)) && m@
            == box_message(record.box_id, " must be stopped before updating settings"@)),
        record.status != BoxStatus::Running ==> match record.settings {
            None => (r matches Err(SandboxError::Backend(m)) && m@ == box_message(
                record.box_id,
                " is missing persisted settings"@,
            )),
            Some(s) => match r {
                Ok(u) => setting_problem(s, setting) is None && u.record == (BoxRecord {
                    settings: Some(with_setting(s, setting)),
                    ..record
                }) && u.resize_workspace_mib == (match setting {
                    BoxSettingValue::FsSizeMib { value } => if value != s.fs_size_mib.current {
                        Some(value)
                    } else {
                        None
                    },
                    _ => None,
                }),
                Err(e) => e is InvalidConfig && setting_problem(s, setting) == Some(
                    e->InvalidConfig_0@,
                ),
            },
        },
{
    if record.status == BoxStatus::Running {
        return Err(
            SandboxError::conflict(
                box_message_exec(record.box_id, " must be stopped before updating settings"),
            ),
        );
    }
    let mut settings = match record.settings {
        Some(s) => s,
        None => {
            return Err(
                SandboxError::backend(
                    box_message_exec(record.box_id, " is missing persisted settings"),
                ),
            );
        },
    };
    let mut resize: Option<u64> = None;
    match setting {
        BoxSettingValue::CpuCores { value } => {
            validate_numeric_setting("cpu_cores", value as u64, settings.cpu_cores.max as u64, 1)?;
            settings.cpu_cores.current = value;
        },
        BoxSettingValue::MemoryMb { value } => {
            validate_numeric_setting(
                "memory_mb",
                value as u64,
                settings.memory_mb.max as u64,
                128,
            )?;
            settings.memory_mb.current = value;
        },
        BoxSettingValue::FsSizeMib { value } => {
            validate_numeric_setting("fs_size_mib", value, settings.fs_size_mib.max, 64)?;
            if value != settings.fs_size_mib.current {
                resize = Some(value);
                settings.fs_size_mib.current = value;
            }
        },
        BoxSettingValue::MaxProcesses { value } => {
            validate_numeric_setting(
                "max_processes",
                value as u64,
                settings.max_processes.max as u64,
                1,
            )?;
            settings.max_processes.current = value;
        },
        BoxSettingValue::NetworkEnabled { value } => {
            if value && !settings.network_enabled.max {
                return Err(
                    SandboxError::invalid(
                        String::from_str("network_enabled cannot be set to true for this BOX"),
                    ),
                );
            }
            settings.network_enabled.current = value;
        },
    }
    Ok(SettingUpdate { record: BoxRecord { settings: Some(settings), ..record }, resize_workspace_mib: resize })
}

/// A change the BOX accepted keeps every value within its range, when the
/// settings were in range before.
pub proof fn lemma_accepted_setting_in_range(s: BoxSettings, v: BoxSettingValue)
    requires
        setting_problem(s, v) is None,
        1 <= s.cpu_cores.current <= s.cpu_cores.max,
        128 <= s.memory_mb.current <= s.memory_mb.max,
        64 <= s.fs_size_mib.current <= s.fs_size_mib.max,
        1 <= s.max_processes.current <= s.max_processes.max,
        s.network_enabled.current ==> s.network_enabled.max,
    ensures
        ({
            let t = with_setting(s, v);
            &&& 1 <= t.cpu_cores.current <= t.cpu_cores.max
            &&& 128 <= t.memory_mb.current <= t.memory_mb.max
            &&& 64 <= t.fs_size_mib.current <= t.fs_size_mib.max
            &&& 1 <= t.max_processes.current <= t.max_processes.max
            &&& (t.network_enabled.current ==> t.network_enabled.max)
        }),
{
}

/// An accepted change takes effect: the setting it names gets the requested
/// value and every other setting, and every maximum, is left as it was.
pub proof fn lemma_setting_takes_requested_value(s: BoxSettings, v: BoxSettingValue)
    ensures
        ({
            let t = with_setting(s, v);
            &&& t.cpu_cores.max == s.cpu_cores.max
            &&& t.memory_mb.max == s.memory_mb.max
            &&& t.fs_size_mib.max == s.fs_size_mib.max
            &&& t.max_processes.max == s.max_processes.max
            &&& t.network_enabled.max == s.network_enabled.max
            &&& t.cpu_cores.current == (if let BoxSettingValue::CpuCores { value } = v { value } else { s.cpu_cores.current })
            &&& t.memory_mb.current == (if let BoxSettingValue::MemoryMb { value } = v { value } else { s.memory_mb.current })
            &&& t.fs_size_mib.current == (if let BoxSettingValue::FsSizeMib { value } = v { value } else { s.fs_size_mib.current })
            &&& t.max_processes.current == (if let BoxSettingValue::MaxProcesses { value } = v { value } else { s.max_processes.current })
            &&& t.network_enabled.current == (if let BoxSettingValue::NetworkEnabled { value } = v { value } else { s.network_enabled.current })
        }),
{
}

/// A change is accepted exactly when its value lies within the setting's
/// range (at least its floor, at most its maximum; networking only where
/// the BOX may have it).
pub proof fn lemma_setting_accepted_iff_in_range(s: BoxSettings, v: BoxSettingValue)
    ensures
        (setting_problem(s, v) is None) == match v {
            BoxSettingValue::CpuCores { value } => 1 <= value <= s.cpu_cores.max,
            BoxSettingValue::MemoryMb { value } => 128 <= value <= s.memory_mb.max,
            BoxSettingValue::FsSizeMib { value } => 64 <= value <= s.fs_size_mib.max,
            BoxSettingValue::MaxProcesses { value } => 1 <= value <= s.max_processes.max,
            BoxSettingValue::NetworkEnabled { value } => value ==> s.network_enabled.max,
        },
{
}

} // verus!
