//! How the host reaches a guest: a Unix socket bridged to the guest's vsock
//! port, waited for until the VM has created it.

use vstd::prelude::*;
use crate::error::SandboxError;
use crate::text::{chars_of, text2};

verus! {

/// The vsock port the guest agent listens on unless configured otherwise.
pub const DEFAULT_GUEST_RPC_PORT: u32 = 11000;

/// How long to sleep between looks for the bridge socket, in milliseconds.
pub const SOCKET_POLL_MS: u64 = 50;

/// Where a guest's agent is reached.
#[derive(Debug, Clone)]
pub struct GuestTransportEndpoint {
    pub socket_path: String,
    pub port: u32,
}

impl GuestTransportEndpoint {
    pub fn new(socket_path: String, port: u32) -> (e: GuestTransportEndpoint)
        ensures
            e.socket_path == socket_path,
            e.port == port,
    {
        GuestTransportEndpoint { socket_path, port }
    }
}

/// What to do after one look for the bridge socket.
pub enum SocketWait {
    /// The socket is there: connect.
    Ready,
    /// Give up with this error.
    GiveUp(SandboxError),
    /// Sleep `SOCKET_POLL_MS` and look again.
    Retry,
}

/// The socket is used as soon as it exists; once more time than allowed
/// has passed, the wait ends with a timeout naming the socket.
pub fn socket_wait_step(exists: bool, elapsed_ms: u64, timeout_ms: u64, socket_path: &str) -> (s: SocketWait)
    ensures
        exists ==> s is Ready,
        !exists && elapsed_ms > timeout_ms ==> (s matches SocketWait::GiveUp(SandboxError::Timeout(m))
            && m@ == "timed out waiting for guest vsock bridge "@ + socket_path@),
        !exists && elapsed_ms <= timeout_ms ==> s is Retry,
{
    if exists {
        return SocketWait::Ready;
    }
    if elapsed_ms > timeout_ms {
        return SocketWait::GiveUp(SandboxError::timeout(text2("timed out waiting for guest vsock bridge ", &chars_of(socket_path))));
    }
    SocketWait::Retry
}

/// What to do in the loop that connects to a guest agent.
pub enum ConnectStep {
    /// Connect and wait for the agent, for at most this long (ms).
    Attempt(u64),
    /// Give up with this error.
    GiveUp(SandboxError),
}

/// Each attempt waits at most 750 ms for the agent, and no longer than
/// what is left; when nothing is left, the last attempt's error (or a
/// timeout) is the result.
pub fn connect_step(remaining_ms: u64, last_error: Option<SandboxError>) -> (s: ConnectStep)
    ensures
        remaining_ms == 0 ==> match last_error {
            Some(e) => s == ConnectStep::GiveUp(e),
            None => (s matches ConnectStep::GiveUp(SandboxError::Timeout(m)) && m@ == "guest RPC did not become ready"@),
        },
        remaining_ms > 0 ==> s == ConnectStep::Attempt(if remaining_ms < 750 { remaining_ms } else { 750 }),
{
    if remaining_ms == 0 {
        return match last_error {
            Some(e) => ConnectStep::GiveUp(e),
            None => ConnectStep::GiveUp(SandboxError::timeout(crate::text::owned("guest RPC did not become ready"))),
        };
    }
    ConnectStep::Attempt(if remaining_ms < 750 { remaining_ms } else { 750 })
}

} // verus!
