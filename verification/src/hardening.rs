//! Host hardening for secure isolation: what must be in place before
//! sandboxes start, and the cgroup limits each sandbox's VM runs under.

use vstd::prelude::*;
use crate::config::{ExecutionPolicy, HardeningConfig, HostPlatform, IsolationMode, RuntimeConfig};
use crate::error::SandboxError;
use crate::ids::{uuid_hex, uuid_string, uuid_text};
use crate::paths::{join_path, path_join};
use crate::text::{chars_of, concat_chars, decimal, decimal_exec, owned, string_of, text2, text3};

verus! {

/// Warnings collected while hardening the host.
#[derive(Debug, Clone)]
pub struct HardeningStatus {
    pub warnings: Vec<String>,
}

impl Default for HardeningStatus {
    fn default() -> (s: HardeningStatus)
        ensures
            s.warnings@.len() == 0,
    {
        HardeningStatus { warnings: Vec::new() }
    }
}

/// What the preflight of a runtime has to check on the host.
pub enum Preflight {
    /// Nothing: the runtime does not run in secure mode.
    NotNeeded,
    /// The delegated cgroup parent must be usable, then Landlock must be
    /// enabled and supported.
    Check { cgroup_parent: String, landlock_enabled: bool },
}

/// What the preflight checks, or why secure mode cannot be had at all.
pub fn preflight_runtime(config: &RuntimeConfig, host: &HostPlatform) -> (r: Result<Preflight, SandboxError>)
    ensures
        config.isolation_mode != IsolationMode::Secure ==> r matches Ok(Preflight::NotNeeded),
        config.isolation_mode == IsolationMode::Secure && !host.is_linux() ==> (r matches Err(SandboxError::UnsupportedHost(m))
            && m@ == "secure host isolation requires Linux"@),
        config.isolation_mode == IsolationMode::Secure && host.is_linux() ==> match config.hardening.cgroup_parent {
            None => r matches Err(SandboxError::InvalidConfig(m)) && m@ == "secure isolation mode requires SAGENS_CGROUP_PARENT"@,
            Some(p) => r matches Ok(Preflight::Check { cgroup_parent, landlock_enabled }) && cgroup_parent@ == p@
                && landlock_enabled == config.hardening.enable_landlock,
        },
{
    if config.isolation_mode != IsolationMode::Secure {
        return Ok(Preflight::NotNeeded);
    }
    if !host.linux() {
        return Err(SandboxError::UnsupportedHost(owned("secure host isolation requires Linux")));
    }
    match &config.hardening.cgroup_parent {
        None => Err(SandboxError::invalid(owned("secure isolation mode requires SAGENS_CGROUP_PARENT"))),
        Some(p) => Ok(Preflight::Check { cgroup_parent: p.clone(), landlock_enabled: config.hardening.enable_landlock }),
    }
}

/// After the cgroup parent checked out: Landlock must be enabled.
pub fn require_landlock(enabled: bool) -> (r: Result<(), SandboxError>)
    ensures
        enabled ==> r is Ok,
        !enabled ==> (r matches Err(SandboxError::InvalidConfig(m)) && m@ == "secure isolation mode requires Landlock host hardening"@),
{
    if enabled {
        Ok(())
    } else {
        Err(SandboxError::invalid(owned("secure isolation mode requires Landlock host hardening")))
    }
}

/// The Landlock ABI version from the probing system call's return value,
/// or the error naming the system's complaint.
pub fn landlock_abi(rc: i64, os_error: &str) -> (r: Result<u32, SandboxError>)
    ensures
        rc >= 1 && rc <= u32::MAX ==> r == Ok::<u32, SandboxError>(rc as u32),
        rc > u32::MAX ==> r == Ok::<u32, SandboxError>(u32::MAX),
        rc < 1 ==> (r matches Err(SandboxError::UnsupportedHost(m))
            && m@ == "secure isolation mode requires Linux Landlock support: "@ + os_error@),
{
    if rc >= 1 {
        if rc > 0xffff_ffff {
            return Ok(0xffff_ffff);
        }
        return Ok(rc as u32);
    }
    Err(SandboxError::UnsupportedHost(text2("secure isolation mode requires Linux Landlock support: ", &chars_of(os_error))))
}

/// The directory of a sandbox's cgroup under the delegated parent.
pub open spec fn cgroup_dir(parent: Seq<char>, sandbox_id: u128) -> Seq<char> {
    path_join(parent, uuid_text(sandbox_id))
}

/// The files written into a sandbox's cgroup, in order: the memory limit
/// in bytes, the CPU quota per 100 ms period, the process limit with room
/// for the VM's own threads, and finally the VM's process id.
pub open spec fn cgroup_files(policy: ExecutionPolicy, pid: u32) -> Seq<(Seq<char>, Seq<char>)> {
    seq![
        ("memory.max"@, decimal(policy.memory_mb as nat * 1048576) + seq!['\n']),
        ("cpu.max"@, decimal(policy.cpu_cores as nat * 100000) + " 100000\n"@),
        ("pids.max"@, decimal(if policy.max_processes as nat + 32 > u32::MAX { u32::MAX as nat } else { policy.max_processes as nat + 32 }) + seq!['\n']),
        ("cgroup.procs"@, decimal(pid as nat) + seq!['\n']),
    ]
}

fn line(n: u64) -> (s: String)
    ensures
        s@ == decimal(n as nat) + seq!['\n'],
{
    let nl: Vec<char> = vec!['\n'];
    let r = concat_chars(&decimal_exec(n), &nl);
    assert(nl@ =~= seq!['\n']);
    string_of(&r)
}

/// Where a sandbox's cgroup is and what goes into it (see `cgroup_files`).
pub fn cgroup_limits(parent: &str, sandbox_id: u128, policy: &ExecutionPolicy, pid: u32) -> (r: (String, Vec<(String, String)>))
    ensures
        r.0@ == cgroup_dir(parent@, sandbox_id),
        crate::protocol::pairs(r.1@) == cgroup_files(*policy, pid),
{
    let dir = join_path(parent, uuid_string(sandbox_id).as_str());
    let memory: u64 = policy.memory_mb as u64 * 1048576;
    let cpu: u64 = policy.cpu_cores as u64 * 100000;
    let pids: u32 = policy.max_processes.saturating_add(32);
    let cpu_text = text3("", &decimal_exec(cpu), " 100000\n");
    proof {
        reveal_strlit("");
    }
    let files = vec![
        (owned("memory.max"), line(memory)),
        (owned("cpu.max"), cpu_text),
        (owned("pids.max"), line(pids as u64)),
        (owned("cgroup.procs"), line(pid as u64)),
    ];
    assert(crate::protocol::pairs(files@) =~= cgroup_files(*policy, pid));
    (dir, files)
}

/// The throwaway cgroup the preflight creates to see that limits can be
/// written, and what it writes.
pub open spec fn probe_files() -> Seq<(Seq<char>, Seq<char>)> {
    seq![("memory.max"@, "max\n"@), ("cpu.max"@, "max 100000\n"@), ("pids.max"@, "64\n"@)]
}

pub fn cgroup_probe(parent: &str, probe_id: u128) -> (r: (String, Vec<(String, String)>))
    ensures
        r.0@ == path_join(parent@, "sagens-preflight-"@ + uuid_hex(probe_id)),
        crate::protocol::pairs(r.1@) == probe_files(),
{
    let name = text2("sagens-preflight-", &chars_of(crate::ids::uuid_simple(probe_id).as_str()));
    let dir = join_path(parent, name.as_str());
    let files = vec![
        (owned("memory.max"), owned("max\n")),
        (owned("cpu.max"), owned("max 100000\n")),
        (owned("pids.max"), owned("64\n")),
    ];
    assert(crate::protocol::pairs(files@) =~= probe_files());
    (dir, files)
}

/// Attaching a VM only needs a cgroup when a parent is delegated.
pub fn cgroup_parent_for(config: &HardeningConfig) -> (r: Option<String>)
    ensures
        match config.cgroup_parent {
            Some(p) => r matches Some(q) && q@ == p@,
            None => r is None,
        },
{
    match &config.cgroup_parent {
        Some(p) => Some(p.clone()),
        None => None,
    }
}

} // verus!
