//! One websocket session, on both ends: how the daemon authenticates a
//! connection and answers its requests, and how the client routes what the
//! daemon sends back.

use vstd::prelude::*;
use crate::box_api::{BoxRequest, ConnectionAction, InteractiveTarget, Principal, request_id_of};
use crate::boxes::BoxStatus;
use crate::ids::{uuid_hex, uuid_simple};
use crate::codec::{base64_decoded, base64_encode, base64_encoded};
use crate::config::IsolationMode;
use crate::error::{SandboxError, error_text};
use crate::box_api::decode_bytes;
use crate::protocol::{CompletedExecution, ExecExit, ExecutionEvent, OutputStream, status_code};
use crate::text::{chars_of, contains, contains_exec, owned};

verus! {

/// What a client sends: one of the two ways to authenticate, or a request.
#[derive(Debug)]
pub enum ClientMessage {
    AuthenticateAdmin { admin_uuid: u128, admin_token: String },
    AuthenticateBox { box_id: u128, box_token: Option<String> },
    Request { request: BoxRequest },
}

/// What the daemon sends on a connection; `R` is the answer to a request.
#[derive(Debug)]
pub enum BoxEvent<R> {
    Response { request_id: String, response: R },
    ExecOutput { request_id: String, stream: OutputStream, data: String },
    ExecExit { request_id: String, status: ExecExit },
    ShellOutput { shell_id: u128, data: String },
    ShellExit { shell_id: u128, code: i32 },
    Error { request_id: Option<String>, message: String },
}

#[derive(Debug)]
pub enum ServerMessage<R> {
    Authenticated { principal: Principal },
    Event { event: BoxEvent<R> },
}

/// What the daemon does with one message on a connection.
#[derive(Debug)]
pub enum ConnectionStep {
    /// Check an admin's token; `authentication_outcome` says what follows.
    CheckAdmin { admin_uuid: u128, token: String },
    /// Check a BOX's token (secure isolation only).
    CheckBox { box_id: u128, token: String },
    /// The connection now speaks for `principal`: tell the client so.
    Authenticated { principal: Principal },
    /// Send `Error { request_id: None, message }` and close.
    RejectAndClose { message: String },
    /// Send `Error { request_id: Some(request_id), message }` and go on.
    RejectRequest { request_id: String, message: String },
    /// Plan and run the request for `principal`.
    Dispatch { request: BoxRequest, principal: Principal },
}

/// Decides what a message does. A BOX authenticates without a token in
/// compat isolation; in secure isolation it must present one. Requests
/// before authentication are answered with an error.
pub fn connection_step(principal: Option<Principal>, message: ClientMessage, isolation_mode: IsolationMode) -> (s: ConnectionStep)
    ensures
        match message {
            ClientMessage::AuthenticateAdmin { admin_uuid, admin_token } => s == (ConnectionStep::CheckAdmin { admin_uuid, token: admin_token }),
            ClientMessage::AuthenticateBox { box_id, box_token } => if isolation_mode == IsolationMode::Secure {
                match box_token {
                    Some(t) => s == (ConnectionStep::CheckBox { box_id, token: t }),
                    None => s matches ConnectionStep::RejectAndClose { message } && message@ == "box authentication requires a box_token in secure mode"@,
                }
            } else {
                s == (ConnectionStep::Authenticated { principal: Principal::Box { box_id } })
            },
            ClientMessage::Request { request } => match principal {
                Some(p) => s == (ConnectionStep::Dispatch { request, principal: p }),
                None => s matches ConnectionStep::RejectRequest { request_id, message } && request_id@ == request_id_of(request)@ && message@ == "authentication required"@,
            },
        },
{
    match message {
        ClientMessage::AuthenticateAdmin { admin_uuid, admin_token } => ConnectionStep::CheckAdmin { admin_uuid, token: admin_token },
        ClientMessage::AuthenticateBox { box_id, box_token } => {
            if isolation_mode == IsolationMode::Secure {
                match box_token {
                    Some(token) => ConnectionStep::CheckBox { box_id, token },
                    None => ConnectionStep::RejectAndClose { message: owned("box authentication requires a box_token in secure mode") },
                }
            } else {
                ConnectionStep::Authenticated { principal: Principal::Box { box_id } }
            }
        },
        ClientMessage::Request { request } => match principal {
            Some(p) => ConnectionStep::Dispatch { request, principal: p },
            None => {
                let request_id = owned(request.request_id());
                ConnectionStep::RejectRequest { request_id, message: owned("authentication required") }
            },
        },
    }
}

/// After a token check: the connection speaks for the principal when the
/// token was accepted; otherwise it is told `authentication failed` and
/// closed.
pub fn authentication_outcome(candidate: Principal, accepted: bool) -> (s: ConnectionStep)
    ensures
        accepted ==> s == (ConnectionStep::Authenticated { principal: candidate }),
        !accepted ==> (s matches ConnectionStep::RejectAndClose { message } && message@ == "authentication failed"@),
{
    if accepted {
        ConnectionStep::Authenticated { principal: candidate }
    } else {
        ConnectionStep::RejectAndClose { message: owned("authentication failed") }
    }
}

/// What the connection does once a request was dispatched.
#[derive(Debug)]
pub struct RequestOutcome {
    /// The error sent to the client, under the request's id, if any.
    pub error: Option<String>,
    /// Whether the connection closes.
    pub close: bool,
    /// Whether the whole server shuts down.
    pub shutdown_server: bool,
}

/// A failed request is answered with the error's text and the connection
/// stays open; a request that asked for it closes the connection or shuts
/// the server down.
pub fn request_outcome(result: Result<ConnectionAction, SandboxError>) -> (o: RequestOutcome)
    ensures
        match result {
            Ok(a) => o.error is None && o.close == (a != ConnectionAction::KeepOpen) && o.shutdown_server == (a == ConnectionAction::ShutdownServer),
            Err(e) => (o.error matches Some(m) && m@ == error_text(e)) && !o.close && !o.shutdown_server,
        },
{
    match result {
        Ok(ConnectionAction::KeepOpen) => RequestOutcome { error: None, close: false, shutdown_server: false },
        Ok(ConnectionAction::Close) => RequestOutcome { error: None, close: true, shutdown_server: false },
        Ok(ConnectionAction::ShutdownServer) => RequestOutcome { error: None, close: true, shutdown_server: true },
        Err(e) => RequestOutcome { error: Some(e.to_message()), close: false, shutdown_server: false },
    }
}

/// Credentials are issued only for a BOX the daemon knows.
pub fn check_known_box(known: &Vec<u128>, box_id: u128) -> (r: Result<(), SandboxError>)
    ensures
        known@.contains(box_id) <==> r is Ok,
        !known@.contains(box_id) ==> (r matches Err(SandboxError::NotFound(m)) && m@ == "unknown BOX "@ + crate::ids::uuid_text(box_id)),
{
    let mut i: usize = 0;
    while i < known.len()
        invariant
            i <= known@.len(),
            forall|j: int| 0 <= j < i ==> known@[j] != box_id,
        decreases known@.len() - i,
    {
        if known[i] == box_id {
            assert(known@.contains(box_id));
            return Ok(());
        }
        i = i + 1;
    }
    let id = crate::ids::uuid_string(box_id);
    Err(SandboxError::not_found(crate::text::string_of(&crate::text::concat_chars(&chars_of("unknown BOX "), &chars_of(id.as_str())))))
}

/// The principal the daemon confirmed is the one the client asked to be.
pub open spec fn auth_matches(principal: Principal, request: ClientMessage) -> bool {
    match (principal, request) {
        (Principal::Admin { admin_uuid: a }, ClientMessage::AuthenticateAdmin { admin_uuid, .. }) => a == admin_uuid,
        (Principal::Box { box_id: b }, ClientMessage::AuthenticateBox { box_id, .. }) => b == box_id,
        _ => false,
    }
}

pub fn validate_auth(principal: Principal, request: &ClientMessage) -> (r: Result<(), SandboxError>)
    ensures
        auth_matches(principal, *request) ==> r is Ok,
        !auth_matches(principal, *request) ==> (r matches Err(SandboxError::Backend(m)) && m@ == "websocket authenticated as an unexpected principal"@),
{
    match (principal, request) {
        (Principal::Admin { admin_uuid: actual }, ClientMessage::AuthenticateAdmin { admin_uuid, .. }) if actual == *admin_uuid => Ok(()),
        (Principal::Box { box_id: actual }, ClientMessage::AuthenticateBox { box_id, .. }) if actual == *box_id => Ok(()),
        _ => Err(SandboxError::backend(owned("websocket authenticated as an unexpected principal"))),
    }
}

/// Whether an error means the websocket connection was lost.
pub open spec fn is_connection_lost(e: SandboxError) -> bool {
    let t = error_text(e);
    contains(t, "reading websocket message failed"@) || contains(t, "websocket connection closed"@)
        || contains(t, "Connection reset without closing handshake"@)
}

pub fn is_connection_lost_error(error: &SandboxError) -> (r: bool)
    ensures
        r == is_connection_lost(*error),
{
    let t = chars_of(error.to_message().as_str());
    contains_exec(&t, &chars_of("reading websocket message failed")) || contains_exec(&t, &chars_of("websocket connection closed"))
        || contains_exec(&t, &chars_of("Connection reset without closing handshake"))
}

/// The exit code a command line reports for a status, as shells do: 124
/// for a timeout and 137 for a kill.
pub open spec fn shell_exit_code(status: ExecExit) -> i32 {
    match status {
        ExecExit::Success => 0,
        ExecExit::ExitCode(c) => c,
        ExecExit::Timeout => 124,
        ExecExit::Killed => 137,
    }
}

pub fn exit_code(status: &ExecExit) -> (c: i32)
    ensures
        c == shell_exit_code(*status),
        status_code(*status) matches Some(k) ==> c == k,
{
    match status {
        ExecExit::Success => 0,
        ExecExit::ExitCode(code) => *code,
        ExecExit::Timeout => 124,
        ExecExit::Killed => 137,
    }
}

/// Where the client delivers an event from the daemon.
#[derive(Debug, Clone, Copy, PartialEq, Eq, Structural)]
pub enum ClientRoute {
    /// Hand the answer to the request's waiter, which is then gone.
    ResolveResponse,
    /// Fail the request's waiter with the error, which is then gone.
    FailResponse,
    /// Forward to the command's stream.
    ForwardExec,
    /// Forward to the command's stream, which then closes.
    ForwardExecAndClose,
    /// Forward to the shell's stream.
    ForwardShell,
    /// Forward to the shell's stream, which then closes.
    ForwardShellAndClose,
    /// Keep it until the shell's stream is registered.
    BufferShell,
    /// Fail every waiter and stream with the error.
    FailAll,
    /// Nobody waits for it.
    Drop,
}

/// The route of an event, given whether a waiter for its request, a
/// stream for its command, or a stream for its shell is registered.
pub open spec fn client_route<R>(event: BoxEvent<R>, has_response: bool, has_exec: bool, has_shell: bool) -> ClientRoute {
    match event {
        BoxEvent::Response { .. } => if has_response { ClientRoute::ResolveResponse } else { ClientRoute::Drop },
        BoxEvent::Error { request_id: Some(_), .. } => if has_response {
            ClientRoute::FailResponse
        } else if has_exec {
            ClientRoute::ForwardExecAndClose
        } else {
            ClientRoute::Drop
        },
        BoxEvent::Error { request_id: None, .. } => ClientRoute::FailAll,
        BoxEvent::ExecOutput { .. } => if has_exec { ClientRoute::ForwardExec } else { ClientRoute::Drop },
        BoxEvent::ExecExit { .. } => if has_exec { ClientRoute::ForwardExecAndClose } else { ClientRoute::Drop },
        BoxEvent::ShellOutput { .. } => if has_shell { ClientRoute::ForwardShell } else { ClientRoute::BufferShell },
        BoxEvent::ShellExit { .. } => if has_shell { ClientRoute::ForwardShellAndClose } else { ClientRoute::BufferShell },
    }
}

pub fn route_client_event<R>(event: &BoxEvent<R>, has_response: bool, has_exec: bool, has_shell: bool) -> (r: ClientRoute)
    ensures
        r == client_route(*event, has_response, has_exec, has_shell),
{
    match event {
        BoxEvent::Response { .. } => if has_response { ClientRoute::ResolveResponse } else { ClientRoute::Drop },
        BoxEvent::Error { request_id: Some(_), .. } => if has_response {
            ClientRoute::FailResponse
        } else if has_exec {
            ClientRoute::ForwardExecAndClose
        } else {
            ClientRoute::Drop
        },
        BoxEvent::Error { request_id: None, .. } => ClientRoute::FailAll,
        BoxEvent::ExecOutput { .. } => if has_exec { ClientRoute::ForwardExec } else { ClientRoute::Drop },
        BoxEvent::ExecExit { .. } => if has_exec { ClientRoute::ForwardExecAndClose } else { ClientRoute::Drop },
        BoxEvent::ShellOutput { .. } => if has_shell { ClientRoute::ForwardShell } else { ClientRoute::BufferShell },
        BoxEvent::ShellExit { .. } => if has_shell { ClientRoute::ForwardShellAndClose } else { ClientRoute::BufferShell },
    }
}

/// Whether collecting a command's result goes on.
#[derive(Debug, Clone, Copy, PartialEq, Eq, Structural)]
pub enum ExecProgress {
    Continue,
    Done,
}

/// Takes in one event while collecting the result of the command sent
/// under `request_id`: its output (base64) is recorded, its exit ends the
/// collection, an error for it or for the whole connection fails it, and
/// events of other requests are ignored.
pub fn collect_exec_event<R>(collected: &mut CompletedExecution, request_id: &str, event: BoxEvent<R>) -> (r: Result<ExecProgress, SandboxError>)
    ensures
        match event {
            BoxEvent::ExecOutput { request_id: id, stream, data } => if id@ == request_id@ {
                match base64_decoded(data@) {
                    Ok(bytes) => {
                        &&& r == Ok::<ExecProgress, SandboxError>(ExecProgress::Continue)
                        &&& final(collected).output@ == old(collected).output@ + bytes
                        &&& final(collected).stdout@ == old(collected).stdout@ + (if stream == OutputStream::Stdout {
                            bytes
                        } else {
                            Seq::empty()
                        })
                        &&& final(collected).stderr@ == old(collected).stderr@ + (if stream == OutputStream::Stderr {
                            bytes
                        } else {
                            Seq::empty()
                        })
                        &&& final(collected).exit_status == old(collected).exit_status
                        &&& final(collected).exit_code == old(collected).exit_code
                    },
                    Err(text) => r matches Err(SandboxError::Protocol(m)) && m@ == "exec payload"@ + ": "@ + text
                        && *final(collected) == *old(collected),
                }
            } else {
                r == Ok::<ExecProgress, SandboxError>(ExecProgress::Continue) && *final(collected) == *old(collected)
            },
            BoxEvent::ExecExit { request_id: id, status } => if id@ == request_id@ {
                r == Ok::<ExecProgress, SandboxError>(ExecProgress::Done) && final(collected).exit_status == status && final(collected).exit_code == status_code(status)
                    && final(collected).output@ == old(collected).output@
                    && final(collected).stdout@ == old(collected).stdout@
                    && final(collected).stderr@ == old(collected).stderr@
            } else {
                r == Ok::<ExecProgress, SandboxError>(ExecProgress::Continue) && *final(collected) == *old(collected)
            },
            BoxEvent::Error { request_id: Some(id), message } => if id@ == request_id@ {
                r matches Err(SandboxError::Backend(m)) && m == message && *final(collected) == *old(collected)
            } else {
                r == Ok::<ExecProgress, SandboxError>(ExecProgress::Continue) && *final(collected) == *old(collected)
            },
            BoxEvent::Error { request_id: None, message } => r matches Err(SandboxError::Backend(m)) && m == message
                && *final(collected) == *old(collected),
            _ => r == Ok::<ExecProgress, SandboxError>(ExecProgress::Continue) && *final(collected) == *old(collected),
        },
        forall|b: Seq<u8>| (event matches BoxEvent::ExecOutput { request_id: id, data, .. } && id@ == request_id@
            && data@ == base64_encoded(b)) ==> (r is Ok && final(collected).output@ == old(collected).output@ + b),
{
    match event {
        BoxEvent::ExecOutput { request_id: id, stream, data } => {
            if crate::text::chars_eq(&chars_of(id.as_str()), &chars_of(request_id)) {
                let bytes = decode_bytes("exec payload", data.as_str())?;
                collected.record(ExecutionEvent::Output { stream, data: bytes });
                Ok(ExecProgress::Continue)
            } else {
                Ok(ExecProgress::Continue)
            }
        },
        BoxEvent::ExecExit { request_id: id, status } => {
            if crate::text::chars_eq(&chars_of(id.as_str()), &chars_of(request_id)) {
                collected.record(ExecutionEvent::Exit { status });
                Ok(ExecProgress::Done)
            } else {
                Ok(ExecProgress::Continue)
            }
        },
        BoxEvent::Error { request_id: Some(id), message } => {
            if crate::text::chars_eq(&chars_of(id.as_str()), &chars_of(request_id)) {
                Err(SandboxError::backend(message))
            } else {
                Ok(ExecProgress::Continue)
            }
        },
        BoxEvent::Error { request_id: None, message } => Err(SandboxError::backend(message)),
        _ => Ok(ExecProgress::Continue),
    }
}

/// The command that runs a script piped into an interactive session: the
/// interpreter reads it from a here-document whose end marker carries
/// `marker_id`, so the script cannot end it early by accident.
pub open spec fn piped_command(target: InteractiveTarget, script: Seq<char>, marker_id: u128) -> Seq<char> {
    let interpreter = match target {
        InteractiveTarget::Bash => "bash"@,
        InteractiveTarget::Python => "python3"@,
    };
    let marker = "SAGENS_EOF_"@ + uuid_hex(marker_id);
    interpreter + " <<'"@ + marker + "'\n"@ + script + seq!['\n'] + marker + seq!['\n']
}

pub fn piped_exec_command(target: InteractiveTarget, script: &str, marker_id: u128) -> (r: String)
    ensures
        r@ == piped_command(target, script@, marker_id),
{
    let interpreter = match target {
        InteractiveTarget::Bash => chars_of("bash"),
        InteractiveTarget::Python => chars_of("python3"),
    };
    let marker = crate::text::concat_chars(&chars_of("SAGENS_EOF_"), &chars_of(uuid_simple(marker_id).as_str()));
    let nl: Vec<char> = vec!['\n'];
    let mut out = crate::text::concat_chars(&interpreter, &chars_of(" <<'"));
    out = crate::text::concat_chars(&out, &marker);
    out = crate::text::concat_chars(&out, &chars_of("'\n"));
    out = crate::text::concat_chars(&out, &chars_of(script));
    out = crate::text::concat_chars(&out, &nl);
    out = crate::text::concat_chars(&out, &marker);
    out = crate::text::concat_chars(&out, &nl);
    proof {
        assert(nl@ =~= seq!['\n']);
        assert(out@ =~= piped_command(target, script@, marker_id));
    }
    crate::text::string_of(&out)
}

/// What to do after one attempt to see whether a BOX stopped even though
/// the connection was lost while stopping it.
pub enum Recovery {
    /// The BOX is no longer running: report it stopped.
    Stopped,
    /// Give up and report the original error.
    GiveUp,
    /// Wait a little and try again.
    Retry,
}

/// A fresh look that finds the BOX not running settles it; a failure that
/// is not a lost connection, or the end of the wait, gives up; otherwise
/// the client tries again.
pub fn recovery_step(attempt: &Result<BoxStatus, SandboxError>, past_deadline: bool) -> (r: Recovery)
    ensures
        match attempt {
            Ok(status) => if *status != BoxStatus::Running {
                r is Stopped
            } else if past_deadline {
                r is GiveUp
            } else {
                r is Retry
            },
            Err(e) => if !is_connection_lost(*e) || past_deadline {
                r is GiveUp
            } else {
                r is Retry
            },
        },
{
    match attempt {
        Ok(status) => {
            if *status != BoxStatus::Running {
                return Recovery::Stopped;
            }
        },
        Err(e) => {
            if !is_connection_lost_error(e) {
                return Recovery::GiveUp;
            }
        },
    }
    if past_deadline {
        Recovery::GiveUp
    } else {
        Recovery::Retry
    }
}

/// The message that carries one event of a command run for request
/// `request_id`: output goes as base64 text, which decodes back to the
/// output's bytes.
pub fn exec_event_message<R>(request_id: &String, event: ExecutionEvent) -> (e: BoxEvent<R>)
    ensures
        match event {
            ExecutionEvent::Output { stream, data } => e matches BoxEvent::ExecOutput { request_id: id, stream: s, data: d }
                && id@ == request_id@ && s == stream && d@ == base64_encoded(data@),
            ExecutionEvent::Exit { status } => e matches BoxEvent::ExecExit { request_id: id, status: s }
                && id@ == request_id@ && s == status,
        },
{
    match event {
        ExecutionEvent::Output { stream, data } => BoxEvent::ExecOutput {
            request_id: request_id.clone(),
            stream,
            data: base64_encode(&data),
        },
        ExecutionEvent::Exit { status } => BoxEvent::ExecExit { request_id: request_id.clone(), status },
    }
}

/// The message that carries output of shell `shell_id`, as base64 text.
pub fn shell_output_message<R>(shell_id: u128, bytes: &[u8]) -> (e: BoxEvent<R>)
    ensures
        e matches BoxEvent::ShellOutput { shell_id: id, data } && id == shell_id && data@ == base64_encoded(bytes@),
{
    BoxEvent::ShellOutput { shell_id, data: base64_encode(bytes) }
}

/// What the client's reader got from the websocket.
pub enum ReaderInput<R> {
    /// The daemon confirmed the connection's principal.
    Authenticated(Principal),
    /// An event for the client.
    Event(BoxEvent<R>),
    /// A text message that did not decode; the decoder's complaint.
    Undecodable(String),
    /// A close frame, or the end of the stream.
    Closed,
    /// A binary, ping, pong or raw frame.
    Other,
    /// Reading failed with this error text.
    ReadFailed(String),
}

/// What the reader does with one input.
pub struct ReaderAction<R> {
    /// The answer for the pending authentication, when one is pending.
    pub auth_reply: Option<Result<(), SandboxError>>,
    /// An event to route with the client's tables.
    pub event: Option<BoxEvent<R>>,
    /// Every waiter is failed with this message.
    pub fail_all: Option<String>,
    /// The reader stops.
    pub stop: bool,
}

/// The message a connection failure is reported with.
pub open spec fn reader_failure<R>(input: ReaderInput<R>) -> Option<Seq<char>> {
    match input {
        ReaderInput::Undecodable(e) => Some("decoding websocket server message"@ + ": "@ + e@),
        ReaderInput::ReadFailed(e) => Some("backend failure: reading websocket message failed: "@ + e@),
        ReaderInput::Closed => Some("websocket connection closed"@),
        _ => None,
    }
}

/// The client's reader: the first confirmation answers the authentication
/// (checked against what was asked); events are routed; a bad message, a
/// read error or the end of the stream fails every waiter (and a pending
/// authentication) and stops the reader. A read error is reported with the
/// text of the backend failure it makes.
pub fn reader_step<R>(input: ReaderInput<R>, auth_pending: bool, asked: &ClientMessage) -> (a: ReaderAction<R>)
    ensures
        match input {
            ReaderInput::Authenticated(p) => !a.stop && a.fail_all is None && a.event is None
                && (auth_pending ==> (a.auth_reply matches Some(r) && (auth_matches(p, *asked) ==> r is Ok)
                    && (!auth_matches(p, *asked) ==> (r matches Err(SandboxError::Backend(m))
                        && m@ == "websocket authenticated as an unexpected principal"@))))
                && (!auth_pending ==> a.auth_reply is None),
            ReaderInput::Event(e) => !a.stop && a.fail_all is None && a.auth_reply is None && a.event == Some(e),
            ReaderInput::Other => !a.stop && a.fail_all is None && a.auth_reply is None && a.event is None,
            _ => a.stop && a.event is None && (a.fail_all matches Some(m) && Some(m@) == reader_failure(input))
                && (auth_pending ==> (a.auth_reply matches Some(Err(SandboxError::Backend(m))) && Some(m@) == reader_failure(input)))
                && (!auth_pending ==> a.auth_reply is None),
        },
{
    match input {
        ReaderInput::Authenticated(p) => {
            let reply = if auth_pending { Some(validate_auth(p, asked)) } else { None };
            ReaderAction { auth_reply: reply, event: None, fail_all: None, stop: false }
        },
        ReaderInput::Event(e) => ReaderAction { auth_reply: None, event: Some(e), fail_all: None, stop: false },
        ReaderInput::Other => ReaderAction { auth_reply: None, event: None, fail_all: None, stop: false },
        ReaderInput::Undecodable(e) => {
            let m = crate::text::text3("decoding websocket server message", &chars_of(": "), e.as_str());
            failure_action(m, auth_pending)
        },
        ReaderInput::ReadFailed(e) => {
            let m = crate::text::text2("backend failure: reading websocket message failed: ", &chars_of(e.as_str()));
            failure_action(m, auth_pending)
        },
        ReaderInput::Closed => failure_action(owned("websocket connection closed"), auth_pending),
    }
}

fn failure_action<R>(message: String, auth_pending: bool) -> (a: ReaderAction<R>)
    ensures
        a.stop,
        a.event is None,
        a.fail_all matches Some(m) && m@ == message@,
        auth_pending ==> (a.auth_reply matches Some(Err(SandboxError::Backend(m))) && m@ == message@),
        !auth_pending ==> a.auth_reply is None,
{
    let reply = if auth_pending { Some(Err(SandboxError::backend(message.clone()))) } else { None };
    ReaderAction { auth_reply: reply, event: None, fail_all: Some(message), stop: true }
}

/// How a request's waiter ended.
pub enum Waited<T> {
    /// An answer came; `None` when it was of another kind than expected.
    Answered(Option<T>),
    /// The request failed with this error.
    Failed(SandboxError),
    /// The waiter was dropped without an answer.
    Dropped,
}

/// The result of a request: its answer, its error, or the error that says
/// why there is no answer.
pub fn response_result<T>(request_id: &str, waited: Waited<T>) -> (r: Result<T, SandboxError>)
    ensures
        match waited {
            Waited::Answered(Some(v)) => r == Ok::<T, SandboxError>(v),
            Waited::Answered(None) => r matches Err(SandboxError::Protocol(m))
                && m@ == "unexpected response type for request "@ + request_id@,
            Waited::Failed(e) => r == Err::<T, SandboxError>(e),
            Waited::Dropped => r matches Err(SandboxError::Backend(m))
                && m@ == "response waiter dropped for request "@ + request_id@,
        },
{
    match waited {
        Waited::Answered(Some(v)) => Ok(v),
        Waited::Answered(None) => Err(SandboxError::protocol(crate::text::text2("unexpected response type for request ", &chars_of(request_id)))),
        Waited::Failed(e) => Err(e),
        Waited::Dropped => Err(SandboxError::backend(crate::text::text2("response waiter dropped for request ", &chars_of(request_id)))),
    }
}

/// Request ids are the decimal numbers of a per-client counter.
pub fn request_id_text(n: u64) -> (s: String)
    ensures
        s@ == crate::text::decimal(n as nat),
{
    crate::text::string_of(&crate::text::decimal_exec(n))
}

} // verus!
