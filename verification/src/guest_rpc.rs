//! The host side of the guest agent's line protocol: where each event the
//! guest sends goes (a waiting request, a running command, an open shell),
//! and what everyone waiting is told when the connection fails.

use vstd::prelude::*;
use crate::box_api::decode_bytes;
use crate::codec::base64_decoded;
use crate::error::SandboxError;
use crate::protocol::{ExecExit, ExecutionEvent, OutputStream, ShellEvent};
use crate::text::{chars_of, owned, text2};

verus! {

/// An event from the guest agent; `P` stands for the payloads the host
/// only passes on (snapshots, statistics, listings, file contents).
pub enum GuestEvent<P> {
    Ready { ready: bool },
    Pong { request_id: String },
    Ack { request_id: String },
    ShellOpened { request_id: String, session_id: u128 },
    ExecOutput { exec_id: u128, stream: OutputStream, data: String },
    ExecExit { exec_id: u128, status: ExecExit },
    ShellOutput { session_id: u128, data: String },
    ShellExit { session_id: u128, code: i32 },
    Payload { request_id: String, payload: P },
    /// A file the guest read, as far as it could be turned into the file
    /// handed to the waiter: the conversion's failure answers the request.
    FileRead { request_id: String, file: Result<P, SandboxError> },
    Error { request_id: Option<String>, target: Option<u128>, message: String },
}

/// The answer a waiting request gets.
pub enum GuestResponse<P> {
    Ack,
    Pong,
    ShellOpened(u128),
    Payload(P),
}

/// What to do with one event.
pub enum GuestRoute<P> {
    /// Publish the agent's readiness.
    SetReady(bool),
    /// Answer the request waiting under this id, if one is.
    Respond { request_id: String, response: Result<GuestResponse<P>, SandboxError> },
    /// Send these events to the command's stream; close the stream after
    /// them when `close` is set.
    ToExec { exec_id: u128, events: Vec<ExecutionEvent>, close: bool },
    /// Send these events to the shell; close it after them when `close` is set.
    ToShell { session_id: u128, events: Vec<ShellEvent>, close: bool },
    /// Nobody is waiting for this event.
    Drop,
}

/// The command or shell an event is about.
pub open spec fn event_target<P>(e: GuestEvent<P>) -> Option<u128> {
    match e {
        GuestEvent::ExecOutput { exec_id, .. } => Some(exec_id),
        GuestEvent::ExecExit { exec_id, .. } => Some(exec_id),
        GuestEvent::ShellOutput { session_id, .. } => Some(session_id),
        GuestEvent::ShellExit { session_id, .. } => Some(session_id),
        GuestEvent::Error { target, .. } => target,
        _ => None,
    }
}

pub fn target_of<P>(event: &GuestEvent<P>) -> (r: Option<u128>)
    ensures
        r == event_target(*event),
{
    match event {
        GuestEvent::ExecOutput { exec_id, .. } => Some(*exec_id),
        GuestEvent::ExecExit { exec_id, .. } => Some(*exec_id),
        GuestEvent::ShellOutput { session_id, .. } => Some(*session_id),
        GuestEvent::ShellExit { session_id, .. } => Some(*session_id),
        GuestEvent::Error { target, .. } => *target,
        _ => None,
    }
}

/// The events a command's stream gets when it fails with `message`: the
/// message on stderr, then a kill.
pub open spec fn exec_failure(message: Seq<char>, events: Seq<ExecutionEvent>) -> bool {
    &&& events.len() == 2
    &&& (events[0] matches ExecutionEvent::Output { stream, data } && stream == OutputStream::Stderr
        && data@ == vstd::utf8::encode_utf8(message))
    &&& events[1] == ExecutionEvent::Exit { status: ExecExit::Killed }
}

/// The events a shell gets when it fails with `message`: the message as
/// output, then exit code -1.
pub open spec fn shell_failure(message: Seq<char>, events: Seq<ShellEvent>) -> bool {
    &&& events.len() == 2
    &&& (events[0] matches ShellEvent::Output(data) && data@ == vstd::utf8::encode_utf8(message))
    &&& events[1] == ShellEvent::Exit(-1i32)
}

fn utf8_bytes(s: &str) -> (b: Vec<u8>)
    ensures
        b@ == vstd::utf8::encode_utf8(s@),
{
    let bytes = s.as_bytes();
    let mut out: Vec<u8> = Vec::new();
    let n = bytes.len();
    let mut i: usize = 0;
    while i < n
        invariant
            n == bytes@.len(),
            i <= n,
            out@ == bytes@.subrange(0, i as int),
        decreases n - i,
    {
        out.push(bytes[i]);
        assert(out@ =~= bytes@.subrange(0, i + 1));
        i = i + 1;
    }
    assert(bytes@.subrange(0, n as int) =~= bytes@);
    out
}

pub fn exec_failure_events(message: &str) -> (r: Vec<ExecutionEvent>)
    ensures
        exec_failure(message@, r@),
{
    let mut r: Vec<ExecutionEvent> = Vec::new();
    r.push(ExecutionEvent::Output { stream: OutputStream::Stderr, data: utf8_bytes(message) });
    r.push(ExecutionEvent::Exit { status: ExecExit::Killed });
    r
}

pub fn shell_failure_events(message: &str) -> (r: Vec<ShellEvent>)
    ensures
        shell_failure(message@, r@),
{
    let mut r: Vec<ShellEvent> = Vec::new();
    r.push(ShellEvent::Output(utf8_bytes(message)));
    r.push(ShellEvent::Exit(-1));
    r
}

/// Decodes a base64 payload from the guest.
pub open spec fn payload_error(text: Seq<char>) -> Seq<char> {
    "decoding guest payload"@ + ": "@ + text
}

/// Where an event goes. `exec_open` and `shell_open` tell whether a
/// command stream, and a shell, are open under the event's target id.
pub open spec fn routed<P>(e: GuestEvent<P>, exec_open: bool, shell_open: bool, r: Result<GuestRoute<P>, SandboxError>) -> bool {
    match e {
        GuestEvent::Ready { ready } => r matches Ok(GuestRoute::SetReady(b)) && b == ready,
        GuestEvent::Pong { request_id } => r matches Ok(GuestRoute::Respond { request_id: id, response })
            && id@ == request_id@ && response matches Ok(GuestResponse::Pong),
        GuestEvent::Ack { request_id } => r matches Ok(GuestRoute::Respond { request_id: id, response })
            && id@ == request_id@ && response matches Ok(GuestResponse::Ack),
        GuestEvent::ShellOpened { request_id, session_id } => r matches Ok(GuestRoute::Respond { request_id: id, response })
            && id@ == request_id@ && (response matches Ok(GuestResponse::ShellOpened(s)) && s == session_id),
        GuestEvent::Payload { request_id, payload } => r matches Ok(GuestRoute::Respond { request_id: id, response })
            && id@ == request_id@ && (response matches Ok(GuestResponse::Payload(p)) && p == payload),
        GuestEvent::FileRead { request_id, file } => r matches Ok(GuestRoute::Respond { request_id: id, response })
            && id@ == request_id@ && match file {
                Ok(f) => response matches Ok(GuestResponse::Payload(p)) && p == f,
                Err(e) => response == Err::<GuestResponse<P>, SandboxError>(e),
            },
        GuestEvent::ExecOutput { exec_id, stream, data } => if !exec_open {
            r matches Ok(GuestRoute::Drop)
        } else {
            match base64_decoded(data@) {
                Ok(bytes) => r matches Ok(GuestRoute::ToExec { exec_id: id, events, close }) && id == exec_id && !close
                    && events@.len() == 1 && (events@[0] matches ExecutionEvent::Output { stream: s, data: d }
                    && s == stream && d@ == bytes),
                Err(text) => r matches Err(SandboxError::Protocol(m)) && m@ == payload_error(text),
            }
        },
        GuestEvent::ExecExit { exec_id, status } => if !exec_open {
            r matches Ok(GuestRoute::Drop)
        } else {
            r matches Ok(GuestRoute::ToExec { exec_id: id, events, close }) && id == exec_id && close
                && events@.len() == 1 && events@[0] == ExecutionEvent::Exit { status }
        },
        GuestEvent::ShellOutput { session_id, data } => if !shell_open {
            r matches Ok(GuestRoute::Drop)
        } else {
            match base64_decoded(data@) {
                Ok(bytes) => r matches Ok(GuestRoute::ToShell { session_id: id, events, close }) && id == session_id
                    && !close && events@.len() == 1 && (events@[0] matches ShellEvent::Output(d) && d@ == bytes),
                Err(text) => r matches Err(SandboxError::Protocol(m)) && m@ == payload_error(text),
            }
        },
        GuestEvent::ShellExit { session_id, code } => if !shell_open {
            r matches Ok(GuestRoute::Drop)
        } else {
            r matches Ok(GuestRoute::ToShell { session_id: id, events, close }) && id == session_id && close
                && events@.len() == 1 && events@[0] == ShellEvent::Exit(code)
        },
        GuestEvent::Error { request_id, target, message } => match request_id {
            Some(rid) => r matches Ok(GuestRoute::Respond { request_id: id, response }) && id@ == rid@
                && (response matches Err(SandboxError::Protocol(m)) && m@ == message@),
            None => if target is Some && exec_open {
                r matches Ok(GuestRoute::ToExec { exec_id: id, events, close }) && id == target->0 && close
                    && exec_failure(message@, events@)
            } else if target is Some && shell_open {
                r matches Ok(GuestRoute::ToShell { session_id: id, events, close }) && id == target->0 && close
                    && shell_failure(message@, events@)
            } else {
                r matches Err(SandboxError::Protocol(m)) && m@ == message@
            },
        },
    }
}

/// The answer to opening a shell is accepted only when it names the shell
/// that was asked for; any other answer is a protocol error, and a failed
/// request passes its error on. In both failing cases the caller forgets
/// the shell's stream.
pub fn shell_open_outcome<P>(response: Result<GuestResponse<P>, SandboxError>, session_id: u128) -> (r: Result<(), SandboxError>)
    ensures
        match response {
            Ok(GuestResponse::ShellOpened(opened)) => if opened == session_id {
                r is Ok
            } else {
                r matches Err(SandboxError::Protocol(m)) && m@ == "guest returned an unexpected shell response"@
            },
            Ok(_) => r matches Err(SandboxError::Protocol(m)) && m@ == "guest returned an unexpected shell response"@,
            Err(e) => r == Err::<(), SandboxError>(e),
        },
{
    match response {
        Ok(GuestResponse::ShellOpened(opened)) => if opened == session_id {
            Ok(())
        } else {
            Err(SandboxError::protocol(owned("guest returned an unexpected shell response")))
        },
        Ok(_) => Err(SandboxError::protocol(owned("guest returned an unexpected shell response"))),
        Err(e) => Err(e),
    }
}

fn one_exec(e: ExecutionEvent) -> (v: Vec<ExecutionEvent>)
    ensures
        v@ == seq![e],
{
    let mut v: Vec<ExecutionEvent> = Vec::new();
    v.push(e);
    assert(v@ =~= seq![e]);
    v
}

fn one_shell(e: ShellEvent) -> (v: Vec<ShellEvent>)
    ensures
        v@ == seq![e],
{
    let mut v: Vec<ShellEvent> = Vec::new();
    v.push(e);
    assert(v@ =~= seq![e]);
    v
}

/// Routes one event from the guest (see `routed`); an error ends the
/// connection.
pub fn route_guest_event<P>(event: GuestEvent<P>, exec_open: bool, shell_open: bool) -> (r: Result<GuestRoute<P>, SandboxError>)
    ensures
        routed(event, exec_open, shell_open, r),
{
    match event {
        GuestEvent::Ready { ready } => Ok(GuestRoute::SetReady(ready)),
        GuestEvent::Pong { request_id } => Ok(GuestRoute::Respond { request_id, response: Ok(GuestResponse::Pong) }),
        GuestEvent::Ack { request_id } => Ok(GuestRoute::Respond { request_id, response: Ok(GuestResponse::Ack) }),
        GuestEvent::ShellOpened { request_id, session_id } => Ok(
            GuestRoute::Respond { request_id, response: Ok(GuestResponse::ShellOpened(session_id)) },
        ),
        GuestEvent::FileRead { request_id, file } => Ok(
            GuestRoute::Respond {
                request_id,
                response: match file {
                    Ok(f) => Ok(GuestResponse::Payload(f)),
                    Err(e) => Err(e),
                },
            },
        ),
        GuestEvent::Payload { request_id, payload } => Ok(
            GuestRoute::Respond { request_id, response: Ok(GuestResponse::Payload(payload)) },
        ),
        GuestEvent::ExecOutput { exec_id, stream, data } => {
            if !exec_open {
                return Ok(GuestRoute::Drop);
            }
            let bytes = decode_bytes("decoding guest payload", data.as_str())?;
            Ok(GuestRoute::ToExec { exec_id, events: one_exec(ExecutionEvent::Output { stream, data: bytes }), close: false })
        },
        GuestEvent::ExecExit { exec_id, status } => {
            if !exec_open {
                return Ok(GuestRoute::Drop);
            }
            Ok(GuestRoute::ToExec { exec_id, events: one_exec(ExecutionEvent::Exit { status }), close: true })
        },
        GuestEvent::ShellOutput { session_id, data } => {
            if !shell_open {
                return Ok(GuestRoute::Drop);
            }
            let bytes = decode_bytes("decoding guest payload", data.as_str())?;
            Ok(GuestRoute::ToShell { session_id, events: one_shell(ShellEvent::Output(bytes)), close: false })
        },
        GuestEvent::ShellExit { session_id, code } => {
            if !shell_open {
                return Ok(GuestRoute::Drop);
            }
            Ok(GuestRoute::ToShell { session_id, events: one_shell(ShellEvent::Exit(code)), close: true })
        },
        GuestEvent::Error { request_id, target, message } => {
            if let Some(id) = request_id {
                return Ok(GuestRoute::Respond { request_id: id, response: Err(SandboxError::protocol(message)) });
            }
            if let Some(id) = target {
                if exec_open {
                    return Ok(GuestRoute::ToExec { exec_id: id, events: exec_failure_events(message.as_str()), close: true });
                }
                if shell_open {
                    return Ok(GuestRoute::ToShell { session_id: id, events: shell_failure_events(message.as_str()), close: true });
                }
            }
            Err(SandboxError::protocol(message))
        },
    }
}

/// Why the connection to the guest ended, as told to everyone waiting.
pub enum ReadEnd {
    /// A line could not be handled; this is the error's text.
    LineFailed(String),
    /// The guest closed the connection.
    Closed,
    /// Reading failed with this error text.
    ReadFailed(String),
}

pub open spec fn end_message(end: ReadEnd) -> Seq<char> {
    match end {
        ReadEnd::LineFailed(m) => m@,
        ReadEnd::Closed => "guest RPC connection closed"@,
        ReadEnd::ReadFailed(e) => "guest RPC read error: "@ + e@,
    }
}

/// The message every waiting request, command and shell is failed with.
pub fn failure_message(end: ReadEnd) -> (m: String)
    ensures
        m@ == end_message(end),
{
    match end {
        ReadEnd::LineFailed(m) => m,
        ReadEnd::Closed => owned("guest RPC connection closed"),
        ReadEnd::ReadFailed(e) => text2("guest RPC read error: ", &chars_of(e.as_str())),
    }
}

} // verus!
