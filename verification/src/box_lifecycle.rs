//! The life of a BOX between its registry record and its sandbox: when it
//! may start or stop, what the record says after the runtime answered, and
//! what happens to running BOXes when the daemon shuts down.

use vstd::prelude::*;
use crate::boxes::{
    BoxRecord, BoxRuntimeUsage, BoxSettings, BoxStatus, box_message, box_message_exec, is_missing_runtime_session,
    missing_runtime_session,
};
use crate::error::{SandboxError, error_message, error_text};
use crate::ids::uuid_text;
use crate::text::occurs_at;

verus! {

/// The record of a new BOX: created, not started, no error.
pub fn new_box_record(box_id: u128, name: Option<String>, settings: Option<BoxSettings>, workspace_path: String, now_ms: u64) -> (r: BoxRecord)
    ensures
        r == (BoxRecord {
            box_id,
            name,
            status: BoxStatus::Created,
            settings,
            runtime_usage: None,
            workspace_path,
            active_sandbox_id: None,
            created_at_ms: now_ms,
            last_start_at_ms: None,
            last_stop_at_ms: None,
            last_error: None,
        }),
{
    BoxRecord {
        box_id,
        name,
        status: BoxStatus::Created,
        settings,
        runtime_usage: None,
        workspace_path,
        active_sandbox_id: None,
        created_at_ms: now_ms,
        last_start_at_ms: None,
        last_stop_at_ms: None,
        last_error: None,
    }
}

/// A running BOX cannot be started again.
pub fn check_startable(record: &BoxRecord) -> (r: Result<(), SandboxError>)
    ensures
        record.status != BoxStatus::Running ==> r is Ok,
        record.status == BoxStatus::Running ==> (r matches Err(SandboxError::Conflict(m))
            && m@ == box_message(record.box_id, " is already running"@)),
{
    if record.status == BoxStatus::Running {
        return Err(SandboxError::conflict(box_message_exec(record.box_id, " is already running")));
    }
    Ok(())
}

/// Only a running BOX can be stopped.
pub fn check_stoppable(record: &BoxRecord) -> (r: Result<(), SandboxError>)
    ensures
        record.status == BoxStatus::Running ==> r is Ok,
        record.status != BoxStatus::Running ==> (r matches Err(SandboxError::Conflict(m))
            && m@ == box_message(record.box_id, " is not running"@)),
{
    if record.status != BoxStatus::Running {
        return Err(SandboxError::conflict(box_message_exec(record.box_id, " is not running")));
    }
    Ok(())
}

/// After the runtime answered a start: a new sandbox makes the BOX run in
/// it; a failure marks the BOX failed with the error's text and is passed
/// on.
pub fn finish_start(record: &mut BoxRecord, outcome: Result<u128, SandboxError>, now_ms: u64) -> (r: Result<(), SandboxError>)
    ensures
        match outcome {
            Ok(sandbox_id) => r is Ok && *final(record) == (BoxRecord {
                status: BoxStatus::Running,
                active_sandbox_id: Some(sandbox_id),
                last_start_at_ms: Some(now_ms),
                last_error: None,
                ..*old(record)
            }),
            Err(e) => r == Err::<(), SandboxError>(e) && final(record).status == BoxStatus::Failed
                && final(record).active_sandbox_id is None
                && (final(record).last_error matches Some(m) && m@ == error_text(e))
                && final(record).box_id == old(record).box_id
                && final(record).created_at_ms == old(record).created_at_ms
                && final(record).settings == old(record).settings,
        },
{
    match outcome {
        Ok(sandbox_id) => {
            record.mark_started(sandbox_id, now_ms);
            Ok(())
        },
        Err(e) => {
            record.mark_failed(e.to_message());
            Err(e)
        },
    }
}

/// After the runtime answered a stop: a sandbox that is gone, or already
/// unknown to the runtime, leaves the BOX stopped; any other failure marks
/// it failed and is passed on.
pub fn finish_stop(record: &mut BoxRecord, outcome: Result<(), SandboxError>, now_ms: u64) -> (r: Result<(), SandboxError>)
    ensures
        final(record).status != BoxStatus::Running,
        final(record).active_sandbox_id is None,
        final(record).box_id == old(record).box_id,
        final(record).created_at_ms == old(record).created_at_ms,
        match outcome {
            Ok(()) => r is Ok && final(record).status == BoxStatus::Stopped && final(record).last_stop_at_ms == Some(now_ms)
                && final(record).last_error is None,
            Err(e) => if is_missing_runtime_session(e) {
                r is Ok && final(record).status == BoxStatus::Stopped && final(record).last_error is None
            } else {
                r == Err::<(), SandboxError>(e) && final(record).status == BoxStatus::Failed
                    && (final(record).last_error matches Some(m) && m@ == error_text(e))
            },
        },
{
    match outcome {
        Ok(()) => {
            record.mark_stopped(now_ms);
            Ok(())
        },
        Err(e) => {
            if missing_runtime_session(&e) {
                record.mark_stopped(now_ms);
                Ok(())
            } else {
                record.mark_failed(e.to_message());
                Err(e)
            }
        },
    }
}

/// Starting and then stopping a BOX, with the runtime doing both, leaves
/// it stopped, with no sandbox and no error, and its identity unchanged.
pub proof fn lemma_start_then_stop(before: BoxRecord, sandbox_id: u128, started: u64, stopped: u64)
    ensures
        ({
            let running = BoxRecord {
                status: BoxStatus::Running,
                active_sandbox_id: Some(sandbox_id),
                last_start_at_ms: Some(started),
                last_error: None,
                ..before
            };
            let after = BoxRecord {
                status: BoxStatus::Stopped,
                active_sandbox_id: None,
                last_stop_at_ms: Some(stopped),
                last_error: None,
                ..running
            };
            &&& after.status == BoxStatus::Stopped
            &&& after.active_sandbox_id is None
            &&& after.box_id == before.box_id
            &&& after.created_at_ms == before.created_at_ms
            &&& after.settings == before.settings
            &&& after.workspace_path == before.workspace_path
            &&& after.last_start_at_ms == Some(started)
        }),
{
}

/// Where the usage of a BOX comes from.
pub enum UsageSource {
    /// It does not run: no usage.
    NotRunning,
    /// It claims to run but no sandbox is known: it is stopped.
    NoSandbox,
    /// Ask the runtime about this sandbox.
    Sandbox(u128),
}

/// A running BOX is measured in the sandbox its record names, or else the
/// one the daemon remembers for it.
pub fn usage_source(record: &BoxRecord, remembered: Option<u128>) -> (s: UsageSource)
    ensures
        record.status != BoxStatus::Running ==> s is NotRunning,
        record.status == BoxStatus::Running ==> match record.active_sandbox_id {
            Some(id) => s == UsageSource::Sandbox(id),
            None => match remembered {
                Some(id) => s == UsageSource::Sandbox(id),
                None => s is NoSandbox,
            },
        },
{
    if record.status != BoxStatus::Running {
        return UsageSource::NotRunning;
    }
    match record.active_sandbox_id {
        Some(id) => UsageSource::Sandbox(id),
        None => match remembered {
            Some(id) => UsageSource::Sandbox(id),
            None => UsageSource::NoSandbox,
        },
    }
}

/// What measuring a running BOX ends in, once the runtime answered.
pub enum UsageOutcome {
    /// The record, with the usage the runtime reported.
    Measured(BoxRecord),
    /// The runtime no longer knows the sandbox: the BOX is recorded stopped.
    MarkStopped,
    /// The runtime failed otherwise: the BOX is recorded failed with this text.
    MarkFailed(String),
}

/// Files the runtime's answer about a running BOX's sandbox: its usage, or
/// a stop when the session is gone, or a failure carrying the error's text.
pub fn usage_after_stats(record: BoxRecord, stats: Result<BoxRuntimeUsage, SandboxError>) -> (o: UsageOutcome)
    ensures
        match stats {
            Ok(u) => o == UsageOutcome::Measured(BoxRecord { runtime_usage: Some(u), ..record }),
            Err(e) => if is_missing_runtime_session(e) {
                o is MarkStopped
            } else {
                o matches UsageOutcome::MarkFailed(m) && m@ == error_text(e)
            },
        },
{
    match stats {
        Ok(u) => UsageOutcome::Measured(BoxRecord { runtime_usage: Some(u), ..record }),
        Err(e) => if missing_runtime_session(&e) {
            UsageOutcome::MarkStopped
        } else {
            UsageOutcome::MarkFailed(e.to_message())
        },
    }
}

/// The sandbox a BOX runs in, for an operation that needs a running BOX:
/// one that does not run is a conflict, and one whose sandbox the daemon
/// does not remember is a backend failure.
pub fn running_sandbox(record: &BoxRecord, remembered: Option<u128>) -> (r: Result<u128, SandboxError>)
    ensures
        record.status != BoxStatus::Running ==> (r matches Err(SandboxError::Conflict(m))
            && m@ == box_message(record.box_id, " is not running"@)),
        record.status == BoxStatus::Running ==> match remembered {
            Some(id) => r == Ok::<u128, SandboxError>(id),
            None => r matches Err(SandboxError::Backend(m))
                && m@ == box_message(record.box_id, " is missing runtime state"@),
        },
{
    if record.status != BoxStatus::Running {
        return Err(SandboxError::conflict(box_message_exec(record.box_id, " is not running")));
    }
    match remembered {
        Some(id) => Ok(id),
        None => Err(SandboxError::backend(box_message_exec(record.box_id, " is missing runtime state"))),
    }
}

/// How a BOX is brought to a live sandbox before it is used.
pub enum EnsureStep {
    /// Remember this sandbox for the BOX and touch its session; if the
    /// session answers, it is the one to use, else the BOX is recorded
    /// stopped and started anew.
    Touch(u128),
    /// Record the BOX stopped (it claimed to run without a sandbox), then
    /// start it.
    StopThenStart,
    /// Start the BOX.
    Start,
}

/// A BOX that runs in a known sandbox is reused; one that claims to run
/// without a sandbox is recorded stopped first; any other BOX is started.
pub fn ensure_runtime_step(record: &BoxRecord) -> (s: EnsureStep)
    ensures
        record.status == BoxStatus::Running ==> match record.active_sandbox_id {
            Some(id) => s == EnsureStep::Touch(id),
            None => s is StopThenStart,
        },
        record.status != BoxStatus::Running ==> s is Start,
{
    if record.status == BoxStatus::Running {
        match record.active_sandbox_id {
            Some(id) => EnsureStep::Touch(id),
            None => EnsureStep::StopThenStart,
        }
    } else {
        EnsureStep::Start
    }
}

/// The sandbox of a BOX that was just started; a start that left no
/// sandbox is a backend failure.
pub fn started_sandbox(box_id: u128, record: &BoxRecord) -> (r: Result<u128, SandboxError>)
    ensures
        match record.active_sandbox_id {
            Some(id) => r == Ok::<u128, SandboxError>(id),
            None => r matches Err(SandboxError::Backend(m))
                && m@ == box_message(box_id, " started without an active sandbox"@),
        },
{
    match record.active_sandbox_id {
        Some(id) => Ok(id),
        None => Err(SandboxError::backend(box_message_exec(box_id, " started without an active sandbox"))),
    }
}

/// What shutting the daemon down does to one BOX.
pub enum ShutdownStep {
    /// It does not run: only forget its sandbox.
    Forget,
    /// No live sandbox is known for it: record it as stopped.
    MarkStopped,
    /// Destroy this sandbox, then record the outcome with `finish_stop`.
    Destroy(u128),
}

/// A running BOX is stopped through its sandbox if the runtime still knows
/// it (`alive` says whether the sandbox answered); otherwise it is only
/// recorded as stopped.
pub fn shutdown_step(record: &BoxRecord, remembered: Option<u128>, alive: bool) -> (s: ShutdownStep)
    ensures
        record.status != BoxStatus::Running ==> s is Forget,
        record.status == BoxStatus::Running ==> match (if record.active_sandbox_id is Some { record.active_sandbox_id } else { remembered }) {
            Some(id) => if alive { s == ShutdownStep::Destroy(id) } else { s is MarkStopped },
            None => s is MarkStopped,
        },
{
    if record.status != BoxStatus::Running {
        return ShutdownStep::Forget;
    }
    let sandbox = match record.active_sandbox_id {
        Some(id) => Some(id),
        None => remembered,
    };
    match sandbox {
        Some(id) => if alive { ShutdownStep::Destroy(id) } else { ShutdownStep::MarkStopped },
        None => ShutdownStep::MarkStopped,
    }
}

/// The error the runtime gives for a sandbox it does not know is read as a
/// missing session: stopping a BOX whose sandbox is already gone leaves it
/// stopped instead of failed.
pub proof fn lemma_unknown_sandbox_is_missing_session(sandbox_id: u128, e: SandboxError)
    requires
        e is InvalidConfig,
        e->InvalidConfig_0@ == "unknown active sandbox "@ + uuid_text(sandbox_id),
    ensures
        is_missing_runtime_session(e),
{
    reveal_strlit("unknown active sandbox ");
    reveal_strlit("unknown active sandbox");
    let m = error_message(e);
    let p = "unknown active sandbox"@;
    assert(m.subrange(0, p.len() as int) =~= p);
    assert(occurs_at(m, p, 0));
}

} // verus!
