//! The daemon as a library user sees it: where a managed daemon keeps its
//! state, the user configuration it writes, and how an embedded daemon's
//! start and stop are reported.

use vstd::prelude::*;
use crate::error::SandboxError;
use crate::paths::{join_path, path_join};
use crate::text::{chars_of, owned, text2};

verus! {

/// What a caller may choose about a managed daemon; anything left out
/// takes the default.
#[derive(Debug, Clone)]
pub struct ManagedDaemonOptions {
    pub state_dir: Option<String>,
    pub user_config_path: Option<String>,
    pub endpoint: Option<String>,
}

impl Default for ManagedDaemonOptions {
    fn default() -> (o: ManagedDaemonOptions)
        ensures
            o.state_dir is None,
            o.user_config_path is None,
            o.endpoint is None,
    {
        ManagedDaemonOptions { state_dir: None, user_config_path: None, endpoint: None }
    }
}

/// The daemon's paths as its own code uses them.
#[derive(Debug, Clone)]
pub struct SagensPaths {
    pub state_dir: String,
    pub user_config_path: String,
    pub endpoint: String,
    pub pid_path: String,
}

/// Where a managed daemon lives and how to reach it.
#[derive(Debug, Clone)]
pub struct ManagedDaemonPaths {
    pub state_dir: String,
    pub user_config_path: String,
    pub endpoint: String,
    pub pid_path: String,
}

/// What a client needs to talk to the daemon as its admin.
#[derive(Debug, Clone)]
pub struct UserConfig {
    pub version: u32,
    pub admin_uuid: u128,
    pub admin_token: String,
    pub endpoint: String,
}

/// The admin identity an embedded daemon is started with.
#[derive(Debug, Clone)]
pub struct AdminCredential {
    pub admin_uuid: u128,
    pub admin_token: String,
}

/// What starting a managed daemon reports.
#[derive(Debug, Clone)]
pub struct ManagedDaemonStartInfo {
    pub paths: ManagedDaemonPaths,
    pub user_config: UserConfig,
    pub already_running: bool,
}

/// How to run a daemon inside the host process.
#[derive(Debug, Clone)]
pub struct EmbeddedDaemonConfig {
    pub state_dir: String,
    pub user_config_path: String,
    pub endpoint: String,
    pub admin_credential: AdminCredential,
}

/// What a running embedded daemon reports.
#[derive(Debug, Clone)]
pub struct EmbeddedDaemonInfo {
    pub state_dir: String,
    pub user_config_path: String,
    pub user_config: UserConfig,
}

fn pick(chosen: Option<String>, default: &String) -> (r: String)
    ensures
        r@ == match chosen {
            Some(c) => c@,
            None => default@,
        },
{
    match chosen {
        Some(c) => c,
        None => default.clone(),
    }
}

/// The options filled in from the defaults; the pid file sits in the
/// state directory.
pub fn resolve_managed_daemon_paths(options: ManagedDaemonOptions, defaults: &SagensPaths) -> (p: ManagedDaemonPaths)
    ensures
        p.state_dir@ == match options.state_dir {
            Some(s) => s@,
            None => defaults.state_dir@,
        },
        p.user_config_path@ == match options.user_config_path {
            Some(s) => s@,
            None => defaults.user_config_path@,
        },
        p.endpoint@ == match options.endpoint {
            Some(s) => s@,
            None => defaults.endpoint@,
        },
        p.pid_path@ == path_join(p.state_dir@, "daemon.pid"@),
{
    let state_dir = pick(options.state_dir, &defaults.state_dir);
    let pid_path = join_path(state_dir.as_str(), "daemon.pid");
    ManagedDaemonPaths {
        pid_path,
        state_dir,
        user_config_path: pick(options.user_config_path, &defaults.user_config_path),
        endpoint: pick(options.endpoint, &defaults.endpoint),
    }
}

/// The daemon's own view of the paths; the pid file is placed anew in the
/// state directory.
pub fn into_internal_paths(paths: &ManagedDaemonPaths) -> (p: SagensPaths)
    ensures
        p.state_dir@ == paths.state_dir@,
        p.user_config_path@ == paths.user_config_path@,
        p.endpoint@ == paths.endpoint@,
        p.pid_path@ == path_join(paths.state_dir@, "daemon.pid"@),
{
    SagensPaths {
        state_dir: paths.state_dir.clone(),
        user_config_path: paths.user_config_path.clone(),
        endpoint: paths.endpoint.clone(),
        pid_path: join_path(paths.state_dir.as_str(), "daemon.pid"),
    }
}

/// The user configuration an embedded daemon writes once its server
/// listens on `server_addr`.
pub fn embedded_user_config(credential: &AdminCredential, server_addr: &str) -> (c: UserConfig)
    ensures
        c.version == 1,
        c.admin_uuid == credential.admin_uuid,
        c.admin_token@ == credential.admin_token@,
        c.endpoint@ == "ws://"@ + server_addr@,
{
    UserConfig {
        version: 1,
        admin_uuid: credential.admin_uuid,
        admin_token: credential.admin_token.clone(),
        endpoint: text2("ws://", &chars_of(server_addr)),
    }
}

/// What came back while waiting for an embedded daemon to start.
pub enum StartupReport {
    /// The daemon reported that it runs.
    Ready(EmbeddedDaemonInfo),
    /// The daemon reported that it could not start.
    Failed(SandboxError),
    /// Nothing came within the startup wait.
    TimedOut,
    /// The daemon's thread ended without reporting, with this result.
    Exited(Result<(), SandboxError>),
    /// The daemon's thread panicked without reporting.
    Panicked,
}

/// The outcome of starting an embedded daemon, from what its thread
/// reported.
pub fn startup_result(report: StartupReport) -> (r: Result<EmbeddedDaemonInfo, SandboxError>)
    ensures
        match report {
            StartupReport::Ready(info) => r == Ok::<EmbeddedDaemonInfo, SandboxError>(info),
            StartupReport::Failed(e) => r == Err::<EmbeddedDaemonInfo, SandboxError>(e),
            StartupReport::TimedOut => r matches Err(SandboxError::Timeout(m))
                && m@ == "timed out waiting for embedded daemon startup"@,
            StartupReport::Exited(Ok(())) => r matches Err(SandboxError::Backend(m))
                && m@ == "embedded daemon exited before reporting startup state"@,
            StartupReport::Exited(Err(e)) => r == Err::<EmbeddedDaemonInfo, SandboxError>(e),
            StartupReport::Panicked => r matches Err(SandboxError::Backend(m))
                && m@ == "embedded daemon thread panicked"@,
        },
{
    match report {
        StartupReport::Ready(info) => Ok(info),
        StartupReport::Failed(e) => Err(e),
        StartupReport::TimedOut => Err(SandboxError::timeout(owned("timed out waiting for embedded daemon startup"))),
        StartupReport::Exited(Ok(())) => Err(
            SandboxError::backend(owned("embedded daemon exited before reporting startup state")),
        ),
        StartupReport::Exited(Err(e)) => Err(e),
        StartupReport::Panicked => Err(SandboxError::backend(owned("embedded daemon thread panicked"))),
    }
}

/// How an embedded daemon's thread ended when it was closed.
pub enum ThreadEnd {
    /// It had been closed before.
    AlreadyClosed,
    /// It returned this result.
    Returned(Result<(), SandboxError>),
    /// It panicked.
    Panicked,
}

pub fn close_result(end: ThreadEnd) -> (r: Result<(), SandboxError>)
    ensures
        match end {
            ThreadEnd::AlreadyClosed => r is Ok,
            ThreadEnd::Returned(result) => r == result,
            ThreadEnd::Panicked => r matches Err(SandboxError::Backend(m)) && m@ == "embedded daemon thread panicked"@,
        },
{
    match end {
        ThreadEnd::AlreadyClosed => Ok(()),
        ThreadEnd::Returned(result) => result,
        ThreadEnd::Panicked => Err(SandboxError::backend(owned("embedded daemon thread panicked"))),
    }
}

} // verus!
