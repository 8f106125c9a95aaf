//! The BOX API spoken over the daemon's websocket: who a connection is,
//! what it may ask for, and what each request makes the daemon do.

use vstd::prelude::*;
use crate::boxes::BoxSettingValue;
use crate::error::SandboxError;
use crate::ids::{uuid_string, uuid_text};
use crate::protocol::{ExecRequest, ShellRequest, strs, pairs};
use crate::codec::{base64_encoded, base64_decode, base64_decoded};
use crate::text::{chars_of, concat_chars, owned, string_of};

verus! {

#[derive(Debug, Clone, Copy, PartialEq, Eq, Structural)]
pub enum InteractiveTarget {
    Bash,
    Python,
}

/// Who an authenticated connection speaks for.
#[derive(Debug, Clone, Copy, PartialEq, Eq, Structural)]
pub enum Principal {
    Admin { admin_uuid: u128 },
    Box { box_id: u128 },
}

/// How a restored checkpoint replaces the workspace, as the client names it.
pub type CheckpointRestoreMode = String;

/// A request on an authenticated connection; every request carries the id
/// its answer will be sent under.
#[derive(Debug)]
pub enum BoxRequest {
    Ping { request_id: String },
    ListBoxes { request_id: String },
    GetBox { request_id: String, box_id: u128 },
    NewBox { request_id: String },
    StartBox { request_id: String, box_id: u128 },
    StopBox { request_id: String, box_id: u128 },
    RemoveBox { request_id: String, box_id: u128 },
    SetBoxSetting { request_id: String, box_id: u128, value: BoxSettingValue },
    ExecBash {
        request_id: String,
        box_id: u128,
        command: String,
        timeout_ms: Option<u64>,
        kill_grace_ms: Option<u64>,
    },
    ExecPython {
        request_id: String,
        box_id: u128,
        args: Vec<String>,
        timeout_ms: Option<u64>,
        kill_grace_ms: Option<u64>,
    },
    OpenShell { request_id: String, box_id: u128, target: InteractiveTarget },
    ShellInput { request_id: String, shell_id: u128, data: String },
    ResizeShell { request_id: String, shell_id: u128, cols: u16, rows: u16 },
    CloseShell { request_id: String, shell_id: u128 },
    FsList { request_id: String, box_id: u128, path: String },
    FsRead { request_id: String, box_id: u128, path: String, limit: usize },
    FsWrite {
        request_id: String,
        box_id: u128,
        path: String,
        data: String,
        create_parents: bool,
    },
    FsMkdir { request_id: String, box_id: u128, path: String, recursive: bool },
    FsRemove { request_id: String, box_id: u128, path: String, recursive: bool },
    FsDiff { request_id: String, box_id: u128 },
    CheckpointCreate {
        request_id: String,
        box_id: u128,
        name: Option<String>,
        metadata: Vec<(String, String)>,
    },
    CheckpointList { request_id: String, box_id: u128 },
    CheckpointRestore {
        request_id: String,
        box_id: u128,
        checkpoint_id: String,
        mode: CheckpointRestoreMode,
    },
    CheckpointFork {
        request_id: String,
        box_id: u128,
        checkpoint_id: String,
        new_box_name: Option<String>,
    },
    CheckpointDelete { request_id: String, box_id: u128, checkpoint_id: String },
    ShutdownDaemon { request_id: String },
    AdminAdd { request_id: String },
    BoxIssueCredentials { request_id: String, box_id: u128 },
    AdminRemoveMe { request_id: String },
    ImageBuild {
        request_id: String,
        name: String,
        apk: Vec<String>,
        pip: Vec<String>,
        npm: Vec<String>,
        min_image_mib: u64,
        force_refresh: bool,
    },
    ImageList { request_id: String },
    ImageInspect { request_id: String, name: String },
    ImageRemove { request_id: String, name: String },
}

/// The id a request's answer is sent under.
pub open spec fn request_id_of(r: BoxRequest) -> String {
    match r {
        BoxRequest::Ping { request_id } => request_id,
        BoxRequest::ListBoxes { request_id } => request_id,
        BoxRequest::GetBox { request_id, .. } => request_id,
        BoxRequest::NewBox { request_id } => request_id,
        BoxRequest::StartBox { request_id, .. } => request_id,
        BoxRequest::StopBox { request_id, .. } => request_id,
        BoxRequest::RemoveBox { request_id, .. } => request_id,
        BoxRequest::SetBoxSetting { request_id, .. } => request_id,
        BoxRequest::ExecBash { request_id, .. } => request_id,
        BoxRequest::ExecPython { request_id, .. } => request_id,
        BoxRequest::OpenShell { request_id, .. } => request_id,
        BoxRequest::ShellInput { request_id, .. } => request_id,
        BoxRequest::ResizeShell { request_id, .. } => request_id,
        BoxRequest::CloseShell { request_id, .. } => request_id,
        BoxRequest::FsList { request_id, .. } => request_id,
        BoxRequest::FsRead { request_id, .. } => request_id,
        BoxRequest::FsWrite { request_id, .. } => request_id,
        BoxRequest::FsMkdir { request_id, .. } => request_id,
        BoxRequest::FsRemove { request_id, .. } => request_id,
        BoxRequest::FsDiff { request_id, .. } => request_id,
        BoxRequest::CheckpointCreate { request_id, .. } => request_id,
        BoxRequest::CheckpointList { request_id, .. } => request_id,
        BoxRequest::CheckpointRestore { request_id, .. } => request_id,
        BoxRequest::CheckpointFork { request_id, .. } => request_id,
        BoxRequest::CheckpointDelete { request_id, .. } => request_id,
        BoxRequest::ShutdownDaemon { request_id } => request_id,
        BoxRequest::AdminAdd { request_id } => request_id,
        BoxRequest::BoxIssueCredentials { request_id, .. } => request_id,
        BoxRequest::AdminRemoveMe { request_id } => request_id,
        BoxRequest::ImageBuild { request_id, .. } => request_id,
        BoxRequest::ImageList { request_id } => request_id,
        BoxRequest::ImageInspect { request_id, .. } => request_id,
        BoxRequest::ImageRemove { request_id, .. } => request_id,
    }
}

impl BoxRequest {
    pub fn request_id(&self) -> (id: &str)
        ensures
            id@ == request_id_of(*self)@,
    {
        match self {
            BoxRequest::Ping { request_id }
            | BoxRequest::ListBoxes { request_id }
            | BoxRequest::GetBox { request_id, .. }
            | BoxRequest::NewBox { request_id }
            | BoxRequest::StartBox { request_id, .. }
            | BoxRequest::StopBox { request_id, .. }
            | BoxRequest::RemoveBox { request_id, .. }
            | BoxRequest::SetBoxSetting { request_id, .. }
            | BoxRequest::ExecBash { request_id, .. }
            | BoxRequest::ExecPython { request_id, .. }
            | BoxRequest::OpenShell { request_id, .. }
            | BoxRequest::ShellInput { request_id, .. }
            | BoxRequest::ResizeShell { request_id, .. }
            | BoxRequest::CloseShell { request_id, .. }
            | BoxRequest::FsList { request_id, .. }
            | BoxRequest::FsRead { request_id, .. }
            | BoxRequest::FsWrite { request_id, .. }
            | BoxRequest::FsMkdir { request_id, .. }
            | BoxRequest::FsRemove { request_id, .. }
            | BoxRequest::FsDiff { request_id, .. }
            | BoxRequest::CheckpointCreate { request_id, .. }
            | BoxRequest::CheckpointList { request_id, .. }
            | BoxRequest::CheckpointRestore { request_id, .. }
            | BoxRequest::CheckpointFork { request_id, .. }
            | BoxRequest::CheckpointDelete { request_id, .. }
            | BoxRequest::ShutdownDaemon { request_id }
            | BoxRequest::AdminAdd { request_id }
            | BoxRequest::BoxIssueCredentials { request_id, .. }
            | BoxRequest::AdminRemoveMe { request_id }
            | BoxRequest::ImageBuild { request_id, .. }
            | BoxRequest::ImageList { request_id }
            | BoxRequest::ImageInspect { request_id, .. }
            | BoxRequest::ImageRemove { request_id, .. } => request_id.as_str(),
        }
    }
}

/// The id of the admin behind a connection, or the refusal a BOX
/// connection gets for an admin-only command.
pub open spec fn admin_of(p: Principal) -> Option<u128> {
    match p {
        Principal::Admin { admin_uuid } => Some(admin_uuid),
        Principal::Box { .. } => None,
    }
}

pub open spec fn admin_required_message() -> Seq<char> {
    "admin authentication required for this websocket command"@
}

pub fn require_admin(principal: &Principal) -> (r: Result<u128, SandboxError>)
    ensures
        match admin_of(*principal) {
            Some(a) => r == Ok::<u128, SandboxError>(a),
            None => r matches Err(SandboxError::Conflict(m)) && m@ == admin_required_message(),
        },
{
    match principal {
        Principal::Admin { admin_uuid } => Ok(*admin_uuid),
        Principal::Box { .. } => Err(
            SandboxError::conflict(owned("admin authentication required for this websocket command")),
        ),
    }
}

/// A connection may act on a BOX when it is an admin's, or that BOX's own.
pub open spec fn may_access_box(p: Principal, box_id: u128) -> bool {
    match p {
        Principal::Admin { .. } => true,
        Principal::Box { box_id: own } => own == box_id,
    }
}

/// The refusal a BOX connection gets for another BOX.
pub open spec fn foreign_box_message(own: u128, box_id: u128) -> Seq<char> {
    "box-authenticated connection for "@ + uuid_text(own) + " cannot access BOX "@ + uuid_text(box_id)
}

pub fn authorize_box(principal: &Principal, box_id: u128) -> (r: Result<(), SandboxError>)
    ensures
        may_access_box(*principal, box_id) <==> r is Ok,
        match *principal {
            Principal::Box { box_id: own } => own != box_id ==> (r matches Err(SandboxError::Conflict(m))
                && m@ == foreign_box_message(own, box_id)),
            _ => true,
        },
{
    match principal {
        Principal::Admin { .. } => Ok(()),
        Principal::Box { box_id: own } => {
            if *own == box_id {
                Ok(())
            } else {
                let a = uuid_string(*own);
                let b = uuid_string(box_id);
                let m = concat_chars(
                    &concat_chars(
                        &chars_of("box-authenticated connection for "),
                        &chars_of(a.as_str()),
                    ),
                    &concat_chars(&chars_of(" cannot access BOX "), &chars_of(b.as_str())),
                );
                proof {
                    assert(m@ =~= foreign_box_message(*own, box_id));
                }
                Err(SandboxError::conflict(string_of(&m)))
            }
        },
    }
}


/// What the connection does after answering a request.
#[derive(Debug, Clone, Copy, PartialEq, Eq, Structural)]
pub enum ConnectionAction {
    KeepOpen,
    Close,
    ShutdownServer,
}

/// The work a request asks of the daemon, once it is allowed.
#[derive(Debug)]
pub enum ServiceCall {
    Pong,
    ListBoxes,
    GetBox { box_id: u128 },
    CreateBox,
    StartBox { box_id: u128 },
    StopBox { box_id: u128 },
    RemoveBox { box_id: u128 },
    SetBoxSetting { box_id: u128, value: BoxSettingValue },
    Exec { box_id: u128, request: ExecRequest },
    OpenShell { box_id: u128, request: ShellRequest },
    ShellInput { shell_id: u128, data: Vec<u8> },
    ResizeShell { shell_id: u128, cols: u16, rows: u16 },
    CloseShell { shell_id: u128 },
    ListFiles { box_id: u128, path: String },
    ReadFile { box_id: u128, path: String, limit: usize },
    WriteFile { box_id: u128, path: String, data: Vec<u8>, create_parents: bool },
    MakeDir { box_id: u128, path: String, recursive: bool },
    RemovePath { box_id: u128, path: String, recursive: bool },
    ListChanges { box_id: u128 },
    CheckpointCreate { box_id: u128, name: Option<String>, metadata: Vec<(String, String)> },
    CheckpointList { box_id: u128 },
    CheckpointRestore { box_id: u128, checkpoint_id: String, mode: CheckpointRestoreMode },
    CheckpointFork { box_id: u128, checkpoint_id: String, new_box_name: Option<String> },
    CheckpointDelete { box_id: u128, checkpoint_id: String },
    ShutdownDaemon,
    AdminAdd,
    IssueBoxCredentials { box_id: u128 },
    RemoveAdmin { admin_uuid: u128 },
    BuildImage {
        name: String,
        apk: Vec<String>,
        pip: Vec<String>,
        npm: Vec<String>,
        min_image_mib: u64,
        force_refresh: bool,
    },
    ListImages,
    InspectImage { name: String },
    RemoveImage { name: String },
}

/// An allowed request: the id to answer under, the work, and what the
/// connection does afterwards.
#[derive(Debug)]
pub struct DispatchPlan {
    pub request_id: String,
    pub call: ServiceCall,
    pub after: ConnectionAction,
}

/// Who may send a request: anyone authenticated, admins only, connections
/// allowed on a given BOX, or those allowed on the BOX a shell belongs to.
pub enum Access {
    Anyone,
    AdminOnly,
    OnBox(u128),
    OnShell(u128),
}

pub open spec fn access_of(r: BoxRequest) -> Access {
    match r {
        BoxRequest::Ping { .. } => Access::Anyone,
        BoxRequest::ListBoxes { .. } | BoxRequest::NewBox { .. } | BoxRequest::ShutdownDaemon {
            ..
        } | BoxRequest::AdminAdd { .. } | BoxRequest::BoxIssueCredentials { .. }
        | BoxRequest::AdminRemoveMe { .. } | BoxRequest::ImageBuild { .. }
        | BoxRequest::ImageList { .. } | BoxRequest::ImageInspect { .. }
        | BoxRequest::ImageRemove { .. } => Access::AdminOnly,
        BoxRequest::GetBox { box_id, .. } => Access::OnBox(box_id),
        BoxRequest::StartBox { box_id, .. } => Access::OnBox(box_id),
        BoxRequest::StopBox { box_id, .. } => Access::OnBox(box_id),
        BoxRequest::RemoveBox { box_id, .. } => Access::OnBox(box_id),
        BoxRequest::SetBoxSetting { box_id, .. } => Access::OnBox(box_id),
        BoxRequest::ExecBash { box_id, .. } => Access::OnBox(box_id),
        BoxRequest::ExecPython { box_id, .. } => Access::OnBox(box_id),
        BoxRequest::OpenShell { box_id, .. } => Access::OnBox(box_id),
        BoxRequest::FsList { box_id, .. } => Access::OnBox(box_id),
        BoxRequest::FsRead { box_id, .. } => Access::OnBox(box_id),
        BoxRequest::FsWrite { box_id, .. } => Access::OnBox(box_id),
        BoxRequest::FsMkdir { box_id, .. } => Access::OnBox(box_id),
        BoxRequest::FsRemove { box_id, .. } => Access::OnBox(box_id),
        BoxRequest::FsDiff { box_id, .. } => Access::OnBox(box_id),
        BoxRequest::CheckpointCreate { box_id, .. } => Access::OnBox(box_id),
        BoxRequest::CheckpointList { box_id, .. } => Access::OnBox(box_id),
        BoxRequest::CheckpointRestore { box_id, .. } => Access::OnBox(box_id),
        BoxRequest::CheckpointFork { box_id, .. } => Access::OnBox(box_id),
        BoxRequest::CheckpointDelete { box_id, .. } => Access::OnBox(box_id),
        BoxRequest::ShellInput { shell_id, .. } => Access::OnShell(shell_id),
        BoxRequest::ResizeShell { shell_id, .. } => Access::OnShell(shell_id),
        BoxRequest::CloseShell { shell_id, .. } => Access::OnShell(shell_id),
    }
}

/// The message for a shell the connection does not know.
pub open spec fn unknown_shell_message(shell_id: u128) -> Seq<char> {
    "unknown shell session "@ + uuid_text(shell_id)
}

/// The refusal a request meets before any payload is decoded, if any.
/// `shell_owner` is the BOX of the request's shell, when the connection
/// holds that shell. Closing a shell the connection does not hold is
/// allowed (there is nothing to close).
pub open spec fn access_refusal(r: BoxRequest, p: Principal, shell_owner: Option<u128>) -> Option<SandboxError> {
    match access_of(r) {
        Access::Anyone => None,
        Access::AdminOnly => match p {
            Principal::Admin { .. } => None,
            Principal::Box { .. } => Some(SandboxError::Conflict(arbitrary())),
        },
        Access::OnBox(b) => if may_access_box(p, b) {
            None
        } else {
            Some(SandboxError::Conflict(arbitrary()))
        },
        Access::OnShell(s) => match shell_owner {
            None => if r is CloseShell {
                None
            } else {
                Some(SandboxError::InvalidConfig(arbitrary()))
            },
            Some(b) => if may_access_box(p, b) {
                None
            } else {
                Some(SandboxError::Conflict(arbitrary()))
            },
        },
    }
}

/// The text of a refusal, as far as it depends on the request.
pub open spec fn refusal_text(r: BoxRequest, p: Principal, shell_owner: Option<u128>) -> Seq<char> {
    match access_of(r) {
        Access::AdminOnly => admin_required_message(),
        Access::OnBox(b) => match p {
            Principal::Box { box_id: own } => foreign_box_message(own, b),
            _ => Seq::empty(),
        },
        Access::OnShell(s) => match shell_owner {
            None => unknown_shell_message(s),
            Some(b) => match p {
                Principal::Box { box_id: own } => foreign_box_message(own, b),
                _ => Seq::empty(),
            },
        },
        Access::Anyone => Seq::empty(),
    }
}

/// The payload a request carries base64-encoded, with the context its
/// decoding error is reported under.
pub open spec fn payload_of(r: BoxRequest) -> Option<(Seq<char>, Seq<char>)> {
    match r {
        BoxRequest::ShellInput { data, .. } => Some((data@, "invalid shell input payload"@)),
        BoxRequest::FsWrite { data, .. } => Some((data@, "invalid file payload"@)),
        _ => None,
    }
}

/// The Python command line `python3 <args>`, run through `/usr/bin/env` in
/// `/workspace`; the kill grace defaults to 250 ms.
pub fn python_exec(args: Vec<String>, timeout_ms: Option<u64>, kill_grace_ms: Option<u64>) -> (r:
    ExecRequest)
    ensures
        r.program@ == "/usr/bin/env"@,
        strs(r.args@) == seq!["python3"@] + strs(args@),
        r.cwd@ == "/workspace"@,
        r.env@.len() == 0,
        r.timeout_ms == timeout_ms,
        r.kill_grace_ms == (match kill_grace_ms {
            Some(k) => k,
            None => 250,
        }),
{
    let mut all: Vec<String> = Vec::new();
    all.push(owned("python3"));
    let mut args = args;
    let ghost a0 = args@;
    let mut rest: Vec<String> = Vec::new();
    while args.len() > 0
        invariant
            args@.len() + rest@.len() == a0.len(),
            args@ == a0.subrange(0, args@.len() as int),
            forall|j: int| 0 <= j < rest@.len() ==> rest@[j] == a0[a0.len() - 1 - j],
        decreases args@.len(),
    {
        let a = args.pop().unwrap();
        rest.push(a);
        assert(args@ =~= a0.subrange(0, args@.len() as int));
    }
    let ghost first = all@;
    while rest.len() > 0
        invariant
            all@.len() + rest@.len() == a0.len() + 1,
            all@[0]@ == "python3"@,
            all@.len() >= 1,
            forall|j: int| 1 <= j < all@.len() ==> all@[j] == a0[j - 1],
            forall|j: int| 0 <= j < rest@.len() ==> rest@[j] == a0[a0.len() - 1 - j],
        decreases rest@.len(),
    {
        let a = rest.pop().unwrap();
        all.push(a);
    }
    let grace = match kill_grace_ms {
        Some(k) => k,
        None => 250,
    };
    let r = ExecRequest {
        program: owned("/usr/bin/env"),
        args: all,
        cwd: owned("/workspace"),
        env: Vec::new(),
        timeout_ms,
        kill_grace_ms: grace,
    };
    assert(strs(r.args@) =~= seq!["python3"@] + strs(a0));
    r
}

/// The shell for an interactive target: the default login bash, or an
/// interactive Python with an unbuffered, dumb terminal.
/// The shell a target opens: a login bash, or an interactive, unbuffered
/// python3 on a dumb terminal; both in `/workspace`.
pub open spec fn shell_request_for(target: InteractiveTarget, r: ShellRequest) -> bool {
    &&& target == InteractiveTarget::Bash ==> r.program@ == "/bin/bash"@ && strs(r.args@) == seq!["-l"@]
        && r.cwd@ == "/workspace"@ && r.env@.len() == 0
    &&& target == InteractiveTarget::Python ==> r.program@ == "/usr/bin/env"@ && strs(r.args@)
        == seq!["python3"@, "-i"@] && r.cwd@ == "/workspace"@ && pairs(r.env@) == seq![
        ("PYTHONUNBUFFERED"@, "1"@),
        ("TERM"@, "dumb"@),
    ]
}

pub fn shell_request(target: InteractiveTarget) -> (r: ShellRequest)
    ensures
        shell_request_for(target, r),
{
    match target {
        InteractiveTarget::Bash => ShellRequest::default(),
        InteractiveTarget::Python => {
            let mut args: Vec<String> = Vec::new();
            args.push(owned("python3"));
            args.push(owned("-i"));
            let mut env: Vec<(String, String)> = Vec::new();
            env.push((owned("PYTHONUNBUFFERED"), owned("1")));
            env.push((owned("TERM"), owned("dumb")));
            let r = ShellRequest { program: owned("/usr/bin/env"), args, cwd: owned("/workspace"), env };
            assert(strs(r.args@) =~= seq!["python3"@, "-i"@]);
            assert(pairs(r.env@) =~= seq![("PYTHONUNBUFFERED"@, "1"@), ("TERM"@, "dumb"@)]);
            r
        },
    }
}

/// What a decoding outcome becomes: the bytes, or a protocol error
/// `<context>: <decoding error>`.
pub fn payload_result(context: &str, decoded: Result<Vec<u8>, String>) -> (r: Result<Vec<u8>, SandboxError>)
    ensures
        match decoded {
            Ok(bytes) => r matches Ok(v) && v@ == bytes@,
            Err(text) => r matches Err(SandboxError::Protocol(m)) && m@ == context@ + ": "@ + text@,
        },
{
    match decoded {
        Ok(bytes) => Ok(bytes),
        Err(message) => {
            let m = concat_chars(&concat_chars(&chars_of(context), &chars_of(": ")), &chars_of(message.as_str()));
            Err(SandboxError::protocol(string_of(&m)))
        },
    }
}

/// Decodes a request's base64 payload; a failure is a protocol error
/// `<context>: <decoding error>`.
pub fn decode_bytes(context: &str, value: &str) -> (r: Result<Vec<u8>, SandboxError>)
    ensures
        match base64_decoded(value@) {
            Ok(bytes) => r matches Ok(v) && v@ == bytes,
            Err(text) => r matches Err(SandboxError::Protocol(m)) && m@ == context@ + ": "@ + text,
        },
        forall|b: Seq<u8>| value@ == base64_encoded(b) ==> (r matches Ok(v) && v@ == b),
{
    payload_result(context, base64_decode(value))
}

fn unknown_shell(shell_id: u128) -> (e: SandboxError)
    ensures
        e matches SandboxError::InvalidConfig(m) && m@ == unknown_shell_message(shell_id),
{
    let id = uuid_string(shell_id);
    SandboxError::invalid(string_of(&concat_chars(&chars_of("unknown shell session "), &chars_of(id.as_str()))))
}

fn plan(request_id: String, call: ServiceCall) -> (p: DispatchPlan)
    ensures
        p.request_id == request_id,
        p.call == call,
        p.after == ConnectionAction::KeepOpen,
{
    DispatchPlan { request_id, call, after: ConnectionAction::KeepOpen }
}

/// The work an allowed request asks for, as far as its identifiers and
/// flags go, and what the connection does afterwards.
pub open spec fn plan_fits(r: BoxRequest, p: Principal, d: DispatchPlan) -> bool {
    &&& d.request_id == request_id_of(r)
    &&& d.after == match r {
        BoxRequest::ShutdownDaemon { .. } => ConnectionAction::ShutdownServer,
        BoxRequest::AdminRemoveMe { .. } => ConnectionAction::Close,
        _ => ConnectionAction::KeepOpen,
    }
    &&& match r {
        BoxRequest::Ping { .. } => d.call is Pong,
        BoxRequest::ListBoxes { .. } => d.call is ListBoxes,
        BoxRequest::GetBox { box_id, .. } => d.call == ServiceCall::GetBox { box_id },
        BoxRequest::NewBox { .. } => d.call is CreateBox,
        BoxRequest::StartBox { box_id, .. } => d.call == ServiceCall::StartBox { box_id },
        BoxRequest::StopBox { box_id, .. } => d.call == ServiceCall::StopBox { box_id },
        BoxRequest::RemoveBox { box_id, .. } => d.call == ServiceCall::RemoveBox { box_id },
        BoxRequest::SetBoxSetting { box_id, value, .. } => d.call == ServiceCall::SetBoxSetting {
            box_id,
            value,
        },
        BoxRequest::ExecBash { box_id, command, timeout_ms, kill_grace_ms, .. } => d.call matches ServiceCall::Exec {
            box_id: b,
            request,
        } && b == box_id && request.program@ == "/bin/bash"@ && strs(request.args@) == seq![
            "-lc"@,
            command@,
        ] && request.cwd@ == "/workspace"@ && request.env@.len() == 0 && request.timeout_ms
            == timeout_ms && request.kill_grace_ms == (match kill_grace_ms {
            Some(k) => k,
            None => 250,
        }),
        BoxRequest::ExecPython { box_id, args, timeout_ms, kill_grace_ms, .. } => d.call matches ServiceCall::Exec {
            box_id: b,
            request,
        } && b == box_id && request.program@ == "/usr/bin/env"@ && strs(request.args@) == seq![
            "python3"@,
        ] + strs(args@) && request.cwd@ == "/workspace"@ && request.env@.len() == 0
            && request.timeout_ms == timeout_ms && request.kill_grace_ms == (
        match kill_grace_ms {
            Some(k) => k,
            None => 250,
        }),
        BoxRequest::OpenShell { box_id, target, .. } => d.call matches ServiceCall::OpenShell {
            box_id: b,
            request,
        } && b == box_id && shell_request_for(target, request),
        BoxRequest::ShellInput { shell_id, data, .. } => d.call matches ServiceCall::ShellInput {
            shell_id: s,
            data: bytes,
        } && s == shell_id && base64_decoded(data@) == Ok::<Seq<u8>, Seq<char>>(bytes@),
        BoxRequest::ResizeShell { shell_id, cols, rows, .. } => d.call == ServiceCall::ResizeShell {
            shell_id,
            cols,
            rows,
        },
        BoxRequest::CloseShell { shell_id, .. } => d.call == ServiceCall::CloseShell { shell_id },
        BoxRequest::FsList { box_id, path, .. } => d.call == ServiceCall::ListFiles { box_id, path },
        BoxRequest::FsRead { box_id, path, limit, .. } => d.call == ServiceCall::ReadFile {
            box_id,
            path,
            limit,
        },
        BoxRequest::FsWrite { box_id, path, data, create_parents, .. } => d.call matches ServiceCall::WriteFile {
            box_id: b,
            path: q,
            data: bytes,
            create_parents: c,
        } && b == box_id && q == path && c == create_parents && base64_decoded(data@) == Ok::<
            Seq<u8>,
            Seq<char>,
        >(bytes@),
        BoxRequest::FsMkdir { box_id, path, recursive, .. } => d.call == ServiceCall::MakeDir {
            box_id,
            path,
            recursive,
        },
        BoxRequest::FsRemove { box_id, path, recursive, .. } => d.call == ServiceCall::RemovePath {
            box_id,
            path,
            recursive,
        },
        BoxRequest::FsDiff { box_id, .. } => d.call == ServiceCall::ListChanges { box_id },
        BoxRequest::CheckpointCreate { box_id, name, metadata, .. } => d.call
            == ServiceCall::CheckpointCreate { box_id, name, metadata },
        BoxRequest::CheckpointList { box_id, .. } => d.call == ServiceCall::CheckpointList {
            box_id,
        },
        BoxRequest::CheckpointRestore { box_id, checkpoint_id, mode, .. } => d.call
            == ServiceCall::CheckpointRestore { box_id, checkpoint_id, mode },
        BoxRequest::CheckpointFork { box_id, checkpoint_id, new_box_name, .. } => d.call
            == ServiceCall::CheckpointFork { box_id, checkpoint_id, new_box_name },
        BoxRequest::CheckpointDelete { box_id, checkpoint_id, .. } => d.call
            == ServiceCall::CheckpointDelete { box_id, checkpoint_id },
        BoxRequest::ShutdownDaemon { .. } => d.call is ShutdownDaemon,
        BoxRequest::AdminAdd { .. } => d.call is AdminAdd,
        BoxRequest::BoxIssueCredentials { box_id, .. } => d.call == ServiceCall::IssueBoxCredentials {
            box_id,
        },
        BoxRequest::AdminRemoveMe { .. } => d.call == ServiceCall::RemoveAdmin {
            admin_uuid: admin_of(p)->0,
        },
        BoxRequest::ImageBuild { name, apk, pip, npm, min_image_mib, force_refresh, .. } => d.call
            == ServiceCall::BuildImage { name, apk, pip, npm, min_image_mib, force_refresh },
        BoxRequest::ImageList { .. } => d.call is ListImages,
        BoxRequest::ImageInspect { name, .. } => d.call == ServiceCall::InspectImage { name },
        BoxRequest::ImageRemove { name, .. } => d.call == ServiceCall::RemoveImage { name },
    }
}

/// Decides what an authenticated request makes the daemon do. Admin-only
/// requests are refused to BOX connections; requests on a BOX are refused
/// to connections of another BOX; shell requests follow the BOX of their
/// shell; base64 payloads are decoded once the request is allowed.
pub fn plan_request(request: BoxRequest, principal: Principal, shell_owner: Option<u128>) -> (r:
    Result<DispatchPlan, SandboxError>)
    ensures
        match access_refusal(request, principal, shell_owner) {
            Some(refusal) => r matches Err(e) && (e is Conflict == refusal is Conflict) && (
            e is InvalidConfig == refusal is InvalidConfig) && (e is Conflict || e is InvalidConfig)
                && crate::error::error_message(e) == refusal_text(request, principal, shell_owner),
            None => match payload_of(request) {
                Some((text, context)) => match base64_decoded(text) {
                    Err(msg) => r matches Err(SandboxError::Protocol(m)) && m@ == context + ": "@
                        + msg,
                    Ok(_) => r matches Ok(d) && plan_fits(request, principal, d),
                },
                None => r matches Ok(d) && plan_fits(request, principal, d),
            },
        },
{
    match request {
        BoxRequest::Ping { request_id } => Ok(plan(request_id, ServiceCall::Pong)),
        BoxRequest::ListBoxes { request_id } => {
            require_admin(&principal)?;
            Ok(plan(request_id, ServiceCall::ListBoxes))
        },
        BoxRequest::GetBox { request_id, box_id } => {
            authorize_box(&principal, box_id)?;
            Ok(plan(request_id, ServiceCall::GetBox { box_id }))
        },
        BoxRequest::NewBox { request_id } => {
            require_admin(&principal)?;
            Ok(plan(request_id, ServiceCall::CreateBox))
        },
        BoxRequest::StartBox { request_id, box_id } => {
            authorize_box(&principal, box_id)?;
            Ok(plan(request_id, ServiceCall::StartBox { box_id }))
        },
        BoxRequest::StopBox { request_id, box_id } => {
            authorize_box(&principal, box_id)?;
            Ok(plan(request_id, ServiceCall::StopBox { box_id }))
        },
        BoxRequest::RemoveBox { request_id, box_id } => {
            authorize_box(&principal, box_id)?;
            Ok(plan(request_id, ServiceCall::RemoveBox { box_id }))
        },
        BoxRequest::SetBoxSetting { request_id, box_id, value } => {
            authorize_box(&principal, box_id)?;
            Ok(plan(request_id, ServiceCall::SetBoxSetting { box_id, value }))
        },
        BoxRequest::ExecBash { request_id, box_id, command, timeout_ms, kill_grace_ms } => {
            authorize_box(&principal, box_id)?;
            let mut exec = ExecRequest::shell(command);
            exec.timeout_ms = timeout_ms;
            if let Some(k) = kill_grace_ms {
                exec.kill_grace_ms = k;
            }
            Ok(plan(request_id, ServiceCall::Exec { box_id, request: exec }))
        },
        BoxRequest::ExecPython { request_id, box_id, args, timeout_ms, kill_grace_ms } => {
            authorize_box(&principal, box_id)?;
            let exec = python_exec(args, timeout_ms, kill_grace_ms);
            Ok(plan(request_id, ServiceCall::Exec { box_id, request: exec }))
        },
        BoxRequest::OpenShell { request_id, box_id, target } => {
            authorize_box(&principal, box_id)?;
            Ok(plan(request_id, ServiceCall::OpenShell { box_id, request: shell_request(target) }))
        },
        BoxRequest::ShellInput { request_id, shell_id, data } => {
            let owner = match shell_owner {
                Some(b) => b,
                None => return Err(unknown_shell(shell_id)),
            };
            authorize_box(&principal, owner)?;
            let bytes = decode_bytes("invalid shell input payload", data.as_str())?;
            Ok(plan(request_id, ServiceCall::ShellInput { shell_id, data: bytes }))
        },
        BoxRequest::ResizeShell { request_id, shell_id, cols, rows } => {
            let owner = match shell_owner {
                Some(b) => b,
                None => return Err(unknown_shell(shell_id)),
            };
            authorize_box(&principal, owner)?;
            Ok(plan(request_id, ServiceCall::ResizeShell { shell_id, cols, rows }))
        },
        BoxRequest::CloseShell { request_id, shell_id } => {
            if let Some(owner) = shell_owner {
                authorize_box(&principal, owner)?;
            }
            Ok(plan(request_id, ServiceCall::CloseShell { shell_id }))
        },
        BoxRequest::FsList { request_id, box_id, path } => {
            authorize_box(&principal, box_id)?;
            Ok(plan(request_id, ServiceCall::ListFiles { box_id, path }))
        },
        BoxRequest::FsRead { request_id, box_id, path, limit } => {
            authorize_box(&principal, box_id)?;
            Ok(plan(request_id, ServiceCall::ReadFile { box_id, path, limit }))
        },
        BoxRequest::FsWrite { request_id, box_id, path, data, create_parents } => {
            authorize_box(&principal, box_id)?;
            let bytes = decode_bytes("invalid file payload", data.as_str())?;
            Ok(plan(request_id, ServiceCall::WriteFile { box_id, path, data: bytes, create_parents }))
        },
        BoxRequest::FsMkdir { request_id, box_id, path, recursive } => {
            authorize_box(&principal, box_id)?;
            Ok(plan(request_id, ServiceCall::MakeDir { box_id, path, recursive }))
        },
        BoxRequest::FsRemove { request_id, box_id, path, recursive } => {
            authorize_box(&principal, box_id)?;
            Ok(plan(request_id, ServiceCall::RemovePath { box_id, path, recursive }))
        },
        BoxRequest::FsDiff { request_id, box_id } => {
            authorize_box(&principal, box_id)?;
            Ok(plan(request_id, ServiceCall::ListChanges { box_id }))
        },
        BoxRequest::CheckpointCreate { request_id, box_id, name, metadata } => {
            authorize_box(&principal, box_id)?;
            Ok(plan(request_id, ServiceCall::CheckpointCreate { box_id, name, metadata }))
        },
        BoxRequest::CheckpointList { request_id, box_id } => {
            authorize_box(&principal, box_id)?;
            Ok(plan(request_id, ServiceCall::CheckpointList { box_id }))
        },
        BoxRequest::CheckpointRestore { request_id, box_id, checkpoint_id, mode } => {
            authorize_box(&principal, box_id)?;
            Ok(plan(request_id, ServiceCall::CheckpointRestore { box_id, checkpoint_id, mode }))
        },
        BoxRequest::CheckpointFork { request_id, box_id, checkpoint_id, new_box_name } => {
            authorize_box(&principal, box_id)?;
            Ok(plan(request_id, ServiceCall::CheckpointFork { box_id, checkpoint_id, new_box_name }))
        },
        BoxRequest::CheckpointDelete { request_id, box_id, checkpoint_id } => {
            authorize_box(&principal, box_id)?;
            Ok(plan(request_id, ServiceCall::CheckpointDelete { box_id, checkpoint_id }))
        },
        BoxRequest::ShutdownDaemon { request_id } => {
            require_admin(&principal)?;
            Ok(DispatchPlan { request_id, call: ServiceCall::ShutdownDaemon, after: ConnectionAction::ShutdownServer })
        },
        BoxRequest::AdminAdd { request_id } => {
            require_admin(&principal)?;
            Ok(plan(request_id, ServiceCall::AdminAdd))
        },
        BoxRequest::BoxIssueCredentials { request_id, box_id } => {
            require_admin(&principal)?;
            Ok(plan(request_id, ServiceCall::IssueBoxCredentials { box_id }))
        },
        BoxRequest::AdminRemoveMe { request_id } => {
            let admin_uuid = require_admin(&principal)?;
            Ok(DispatchPlan { request_id, call: ServiceCall::RemoveAdmin { admin_uuid }, after: ConnectionAction::Close })
        },
        BoxRequest::ImageBuild { request_id, name, apk, pip, npm, min_image_mib, force_refresh } => {
            require_admin(&principal)?;
            Ok(plan(request_id, ServiceCall::BuildImage { name, apk, pip, npm, min_image_mib, force_refresh }))
        },
        BoxRequest::ImageList { request_id } => {
            require_admin(&principal)?;
            Ok(plan(request_id, ServiceCall::ListImages))
        },
        BoxRequest::ImageInspect { request_id, name } => {
            require_admin(&principal)?;
            Ok(plan(request_id, ServiceCall::InspectImage { name }))
        },
        BoxRequest::ImageRemove { request_id, name } => {
            require_admin(&principal)?;
            Ok(plan(request_id, ServiceCall::RemoveImage { name }))
        },
    }
}

/// A BOX connection never gets work done on another BOX: any request it
/// may send on a BOX names its own.
pub proof fn lemma_box_connection_stays_in_its_box(r: BoxRequest, own: u128, shell_owner: Option<u128>)
    requires
        access_refusal(r, Principal::Box { box_id: own }, shell_owner) is None,
    ensures
        access_of(r) is AdminOnly ==> false,
        access_of(r) matches Access::OnBox(b) ==> b == own,
        (access_of(r) is OnShell && shell_owner is Some) ==> shell_owner == Some(own),
{
}

/// An admin connection may send every request, except to a shell it does
/// not hold.
pub proof fn lemma_admin_may_send_everything(r: BoxRequest, admin: u128, shell_owner: Option<u128>)
    requires
        !(access_of(r) is OnShell && shell_owner is None && !(r is CloseShell)),
    ensures
        access_refusal(r, Principal::Admin { admin_uuid: admin }, shell_owner) is None,
{
}

/// A BOX connection may do everything on its own BOX: look at it, start,
/// stop, remove and configure it, run commands and open shells in it, use
/// its files and its checkpoints. None of these requests is refused when it
/// names the connection's own BOX.
pub proof fn lemma_box_connection_may_use_its_box(r: BoxRequest, own: u128, shell_owner: Option<u128>)
    requires
        match r {
            BoxRequest::GetBox { box_id, .. } => box_id == own,
            BoxRequest::StartBox { box_id, .. } => box_id == own,
            BoxRequest::StopBox { box_id, .. } => box_id == own,
            BoxRequest::RemoveBox { box_id, .. } => box_id == own,
            BoxRequest::SetBoxSetting { box_id, .. } => box_id == own,
            BoxRequest::ExecBash { box_id, .. } => box_id == own,
            BoxRequest::ExecPython { box_id, .. } => box_id == own,
            BoxRequest::OpenShell { box_id, .. } => box_id == own,
            BoxRequest::FsList { box_id, .. } => box_id == own,
            BoxRequest::FsRead { box_id, .. } => box_id == own,
            BoxRequest::FsWrite { box_id, .. } => box_id == own,
            BoxRequest::FsMkdir { box_id, .. } => box_id == own,
            BoxRequest::FsRemove { box_id, .. } => box_id == own,
            BoxRequest::FsDiff { box_id, .. } => box_id == own,
            BoxRequest::CheckpointCreate { box_id, .. } => box_id == own,
            BoxRequest::CheckpointList { box_id, .. } => box_id == own,
            BoxRequest::CheckpointRestore { box_id, .. } => box_id == own,
            BoxRequest::CheckpointFork { box_id, .. } => box_id == own,
            BoxRequest::CheckpointDelete { box_id, .. } => box_id == own,
            BoxRequest::ShellInput { .. } | BoxRequest::ResizeShell { .. } | BoxRequest::CloseShell { .. } =>
                shell_owner == Some(own),
            BoxRequest::Ping { .. } => true,
            _ => false,
        },
    ensures
        access_refusal(r, Principal::Box { box_id: own }, shell_owner) is None,
{
}

/// The daemon-wide requests (listing and creating BOXes, shutting the
/// daemon down, managing admins and credentials, and images) are refused to
/// every BOX connection, as a conflict.
pub proof fn lemma_box_connection_refused_daemon_requests(r: BoxRequest, own: u128, shell_owner: Option<u128>)
    requires
        r is ListBoxes || r is NewBox || r is ShutdownDaemon || r is AdminAdd || r is BoxIssueCredentials
            || r is AdminRemoveMe || r is ImageBuild || r is ImageList || r is ImageInspect || r is ImageRemove,
    ensures
        access_refusal(r, Principal::Box { box_id: own }, shell_owner) matches Some(e) && e is Conflict,
{
}

/// A BOX connection is refused, as a conflict, any request on another BOX.
pub proof fn lemma_box_connection_refused_other_box(r: BoxRequest, own: u128, other: u128, shell_owner: Option<u128>)
    requires
        other != own,
        match r {
            BoxRequest::GetBox { box_id, .. } | BoxRequest::StartBox { box_id, .. } | BoxRequest::StopBox { box_id, .. }
            | BoxRequest::RemoveBox { box_id, .. } | BoxRequest::SetBoxSetting { box_id, .. }
            | BoxRequest::ExecBash { box_id, .. } | BoxRequest::ExecPython { box_id, .. }
            | BoxRequest::OpenShell { box_id, .. } | BoxRequest::FsList { box_id, .. }
            | BoxRequest::FsRead { box_id, .. } | BoxRequest::FsWrite { box_id, .. }
            | BoxRequest::FsMkdir { box_id, .. } | BoxRequest::FsRemove { box_id, .. }
            | BoxRequest::FsDiff { box_id, .. } | BoxRequest::CheckpointCreate { box_id, .. }
            | BoxRequest::CheckpointList { box_id, .. } | BoxRequest::CheckpointRestore { box_id, .. }
            | BoxRequest::CheckpointFork { box_id, .. } | BoxRequest::CheckpointDelete { box_id, .. } => box_id == other,
            _ => false,
        },
    ensures
        access_refusal(r, Principal::Box { box_id: own }, shell_owner) matches Some(e) && e is Conflict,
{
}

} // verus!
