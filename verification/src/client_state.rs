//! What a client connection waits for: answers to its requests, the output
//! of its commands and its shells. Each event from the daemon is routed by
//! `client_route`, and the waiters it finishes are taken off the tables;
//! events of a shell whose stream is not registered yet are held until it
//! is.

use vstd::prelude::*;
use crate::session::{BoxEvent, ClientRoute, client_route, route_client_event};
use crate::textmap::TextMap;

verus! {

/// The waiters as sets of ids, and the shell events held for shells not
/// registered yet, in arrival order with their shell's id.
pub struct WaiterSets<R> {
    pub responses: Set<Seq<char>>,
    pub execs: Set<Seq<char>>,
    pub shells: Set<u128>,
    pub held: Seq<(u128, BoxEvent<R>)>,
}

/// The held events of shell `s`, in arrival order.
pub open spec fn held_for<R>(held: Seq<(u128, BoxEvent<R>)>, s: u128) -> Seq<BoxEvent<R>>
    decreases held.len(),
{
    if held.len() == 0 {
        Seq::empty()
    } else {
        let rest = held_for(held.drop_last(), s);
        if held.last().0 == s {
            rest.push(held.last().1)
        } else {
            rest
        }
    }
}

/// The held events of every shell but `s`, in arrival order.
pub open spec fn held_except<R>(held: Seq<(u128, BoxEvent<R>)>, s: u128) -> Seq<(u128, BoxEvent<R>)>
    decreases held.len(),
{
    if held.len() == 0 {
        Seq::empty()
    } else {
        let rest = held_except(held.drop_last(), s);
        if held.last().0 == s {
            rest
        } else {
            rest.push(held.last())
        }
    }
}

/// The request, command or shell an event concerns.
pub open spec fn event_keys<R>(e: BoxEvent<R>) -> (Option<Seq<char>>, Option<u128>) {
    match e {
        BoxEvent::Response { request_id, .. } => (Some(request_id@), None),
        BoxEvent::ExecOutput { request_id, .. } => (Some(request_id@), None),
        BoxEvent::ExecExit { request_id, .. } => (Some(request_id@), None),
        BoxEvent::Error { request_id: Some(id), .. } => (Some(id@), None),
        BoxEvent::Error { request_id: None, .. } => (None, None),
        BoxEvent::ShellOutput { shell_id, .. } => (None, Some(shell_id)),
        BoxEvent::ShellExit { shell_id, .. } => (None, Some(shell_id)),
    }
}

/// The route of an event given the waiters.
pub open spec fn route_in<R>(w: WaiterSets<R>, e: BoxEvent<R>) -> ClientRoute {
    let (rid, sid) = event_keys(e);
    client_route(
        e,
        rid is Some && w.responses.contains(rid->0),
        rid is Some && w.execs.contains(rid->0),
        sid is Some && w.shells.contains(sid->0),
    )
}

/// The waiters after an event was routed: an answered or failed request,
/// a finished command and a finished shell stop waiting; a connection-wide
/// error ends every wait and drops what was held; an event of a shell not
/// registered yet is held.
pub open spec fn after_event<R>(w: WaiterSets<R>, e: BoxEvent<R>) -> WaiterSets<R> {
    let (rid, sid) = event_keys(e);
    match route_in(w, e) {
        ClientRoute::ResolveResponse | ClientRoute::FailResponse => WaiterSets { responses: w.responses.remove(rid->0), ..w },
        ClientRoute::ForwardExecAndClose => WaiterSets { execs: w.execs.remove(rid->0), ..w },
        ClientRoute::ForwardShellAndClose => WaiterSets { shells: w.shells.remove(sid->0), ..w },
        ClientRoute::FailAll => WaiterSets {
            responses: Set::empty(),
            execs: Set::empty(),
            shells: Set::empty(),
            held: Seq::empty(),
        },
        ClientRoute::BufferShell => WaiterSets { held: w.held.push((sid->0, e)), ..w },
        _ => w,
    }
}

/// The waiters of one client connection.
pub struct ClientTables<R> {
    responses: TextMap<()>,
    execs: TextMap<()>,
    shells: Vec<u128>,
    held: Vec<(u128, BoxEvent<R>)>,
}

impl<R> ClientTables<R> {
    pub closed spec fn view(&self) -> WaiterSets<R> {
        WaiterSets {
            responses: self.responses.view().dom(),
            execs: self.execs.view().dom(),
            shells: self.shells@.to_set(),
            held: self.held@,
        }
    }

    pub closed spec fn wf(&self) -> bool {
        self.responses.wf() && self.execs.wf()
    }

    pub fn new() -> (t: ClientTables<R>)
        ensures
            t.wf(),
            t.view().responses == Set::<Seq<char>>::empty(),
            t.view().execs == Set::<Seq<char>>::empty(),
            t.view().shells == Set::<u128>::empty(),
            t.view().held == Seq::<(u128, BoxEvent<R>)>::empty(),
    {
        let t = ClientTables { responses: TextMap::new(), execs: TextMap::new(), shells: Vec::new(), held: Vec::new() };
        assert(t.shells@.to_set() =~= Set::<u128>::empty());
        t
    }

    pub fn expect_response(&mut self, request_id: String)
        requires
            old(self).wf(),
        ensures
            final(self).wf(),
            final(self).view().responses == old(self).view().responses.insert(request_id@),
            final(self).view().execs == old(self).view().execs,
            final(self).view().shells == old(self).view().shells,
            final(self).view().held == old(self).view().held,
    {
        self.responses.insert(request_id, ());
    }

    pub fn expect_exec(&mut self, request_id: String)
        requires
            old(self).wf(),
        ensures
            final(self).wf(),
            final(self).view().execs == old(self).view().execs.insert(request_id@),
            final(self).view().responses == old(self).view().responses,
            final(self).view().shells == old(self).view().shells,
            final(self).view().held == old(self).view().held,
    {
        self.execs.insert(request_id, ());
    }

    /// Registers the stream of shell `shell_id` and hands back, in arrival
    /// order, the events held for it, which are no longer held.
    pub fn register_shell(&mut self, shell_id: u128) -> (r: Vec<BoxEvent<R>>)
        requires
            old(self).wf(),
        ensures
            final(self).wf(),
            r@ == held_for(old(self).view().held, shell_id),
            final(self).view().held == held_except(old(self).view().held, shell_id),
            final(self).view().shells == old(self).view().shells.insert(shell_id),
            final(self).view().responses == old(self).view().responses,
            final(self).view().execs == old(self).view().execs,
    {
        let ghost s0 = self.shells@;
        self.shells.push(shell_id);
        proof {
            s0.lemma_push_to_set_commute(shell_id);
        }
        let mut rest: Vec<(u128, BoxEvent<R>)> = Vec::new();
        std::mem::swap(&mut rest, &mut self.held);
        let ghost h0 = rest@;
        let mut taken: Vec<BoxEvent<R>> = Vec::new();
        let mut kept: Vec<(u128, BoxEvent<R>)> = Vec::new();
        let n = rest.len();
        let mut i: usize = 0;
        while i < n
            invariant
                n == h0.len(),
                i <= n,
                rest@ == h0.subrange(i as int, n as int),
                taken@ == held_for(h0.subrange(0, i as int), shell_id),
                kept@ == held_except(h0.subrange(0, i as int), shell_id),
            decreases n - i,
        {
            let ghost pre = h0.subrange(0, i + 1);
            assert(pre.drop_last() =~= h0.subrange(0, i as int));
            assert(pre.last() == h0[i as int]);
            assert(rest@[0] == h0[i as int]);
            let item = rest.remove(0);
            assert(rest@ =~= h0.subrange(i + 1, n as int));
            if item.0 == shell_id {
                taken.push(item.1);
            } else {
                kept.push(item);
            }
            i = i + 1;
        }
        assert(h0.subrange(0, n as int) =~= h0);
        self.held = kept;
        taken
    }

    fn has_shell(&self, shell_id: u128) -> (r: bool)
        ensures
            r == self.view().shells.contains(shell_id),
    {
        let n = self.shells.len();
        let mut i: usize = 0;
        while i < n
            invariant
                n == self.shells@.len(),
                i <= n,
                forall|j: int| 0 <= j < i ==> self.shells@[j] != shell_id,
            decreases n - i,
        {
            if self.shells[i] == shell_id {
                assert(self.shells@.to_set().contains(shell_id));
                return true;
            }
            i = i + 1;
        }
        false
    }

    fn drop_shell(&mut self, shell_id: u128)
        ensures
            final(self).view().shells == old(self).view().shells.remove(shell_id),
            final(self).responses == old(self).responses,
            final(self).execs == old(self).execs,
            final(self).held == old(self).held,
    {
        let ghost s0 = self.shells@;
        let mut kept: Vec<u128> = Vec::new();
        let n = self.shells.len();
        let mut i: usize = 0;
        while i < n
            invariant
                n == s0.len(),
                self.shells@ == s0,
                i <= n,
                kept@.to_set() == s0.subrange(0, i as int).to_set().remove(shell_id),
            decreases n - i,
        {
            let x = self.shells[i];
            let ghost before = kept@;
            if x != shell_id {
                kept.push(x);
            }
            assert(kept@.to_set() =~= s0.subrange(0, i + 1).to_set().remove(shell_id)) by {
                assert(s0.subrange(0, i + 1) =~= s0.subrange(0, i as int).push(x));
                s0.subrange(0, i as int).lemma_push_to_set_commute(x);
                if x != shell_id {
                    before.lemma_push_to_set_commute(x);
                }
            }
            i = i + 1;
        }
        assert(s0.subrange(0, n as int) =~= s0);
        proof {
            assert(s0.subrange(0, 0).to_set() =~= Set::<u128>::empty());
        }
        self.shells = kept;
    }

    /// Ends every wait and drops what was held.
    pub fn fail_all(&mut self)
        ensures
            final(self).wf(),
            final(self).view().responses == Set::<Seq<char>>::empty(),
            final(self).view().execs == Set::<Seq<char>>::empty(),
            final(self).view().shells == Set::<u128>::empty(),
            final(self).view().held == Seq::<(u128, BoxEvent<R>)>::empty(),
    {
        self.responses.clear();
        self.execs.clear();
        self.shells = Vec::new();
        self.held = Vec::new();
        assert(self.shells@.to_set() =~= Set::<u128>::empty());
        assert(self.responses.view().dom() =~= Set::<Seq<char>>::empty());
        assert(self.execs.view().dom() =~= Set::<Seq<char>>::empty());
    }

    /// Routes an event from the daemon and takes the waiters it finishes
    /// off the tables (see `after_event`). The event comes back to be
    /// delivered, unless it was held for a shell not registered yet.
    pub fn dispatch(&mut self, event: BoxEvent<R>) -> (r: (ClientRoute, Option<BoxEvent<R>>))
        requires
            old(self).wf(),
        ensures
            final(self).wf(),
            r.0 == route_in(old(self).view(), event),
            r.0 == ClientRoute::BufferShell ==> r.1 is None,
            r.0 != ClientRoute::BufferShell ==> r.1 == Some(event),
            final(self).view() == after_event(old(self).view(), event),
    {
        let ghost ev = event;
        let (has_response, has_exec, has_shell, sid) = {
            let (rid, sid): (Option<&String>, Option<u128>) = match &event {
                BoxEvent::Response { request_id, .. } => (Some(request_id), None),
                BoxEvent::ExecOutput { request_id, .. } => (Some(request_id), None),
                BoxEvent::ExecExit { request_id, .. } => (Some(request_id), None),
                BoxEvent::Error { request_id: Some(id), .. } => (Some(id), None),
                BoxEvent::Error { request_id: None, .. } => (None, None),
                BoxEvent::ShellOutput { shell_id, .. } => (None, Some(*shell_id)),
                BoxEvent::ShellExit { shell_id, .. } => (None, Some(*shell_id)),
            };
            let has_response = match rid {
                Some(id) => self.responses.contains_key(id.as_str()),
                None => false,
            };
            let has_exec = match rid {
                Some(id) => self.execs.contains_key(id.as_str()),
                None => false,
            };
            let has_shell = match sid {
                Some(id) => self.has_shell(id),
                None => false,
            };
            (has_response, has_exec, has_shell, sid)
        };
        let route = route_client_event(&event, has_response, has_exec, has_shell);
        let ghost w0 = self.view();
        match route {
            ClientRoute::ResolveResponse | ClientRoute::FailResponse => {
                match &event {
                    BoxEvent::Response { request_id, .. } => { self.responses.remove(request_id.as_str()); },
                    BoxEvent::Error { request_id: Some(id), .. } => { self.responses.remove(id.as_str()); },
                    _ => {},
                }
            },
            ClientRoute::ForwardExecAndClose => {
                match &event {
                    BoxEvent::ExecExit { request_id, .. } => { self.execs.remove(request_id.as_str()); },
                    BoxEvent::Error { request_id: Some(id), .. } => { self.execs.remove(id.as_str()); },
                    _ => {},
                }
            },
            ClientRoute::ForwardShellAndClose => {
                if let Some(id) = sid {
                    self.drop_shell(id);
                }
            },
            ClientRoute::FailAll => {
                self.fail_all();
            },
            _ => {},
        }
        if route == ClientRoute::BufferShell {
            if let Some(id) = sid {
                self.held.push((id, event));
                proof {
                    let w1 = self.view();
                    let expected = after_event(w0, ev);
                    assert(w1.responses =~= expected.responses);
                    assert(w1.execs =~= expected.execs);
                    assert(w1.shells =~= expected.shells);
                    assert(w1.held =~= expected.held);
                }
                return (route, None);
            }
        }
        proof {
            let w1 = self.view();
            let expected = after_event(w0, event);
            assert(w1.responses =~= expected.responses);
            assert(w1.execs =~= expected.execs);
            assert(w1.shells =~= expected.shells);
            assert(w1.held =~= expected.held);
        }
        (route, Some(event))
    }
}

/// An event of a shell whose stream is not registered yet is neither lost
/// nor reordered: it is held after the shell's earlier held events, and
/// nothing held for other shells changes.
pub proof fn lemma_early_shell_event_is_held<R>(w: WaiterSets<R>, e: BoxEvent<R>, s: u128)
    requires
        event_keys(e) == (None::<Seq<char>>, Some(s)),
        !w.shells.contains(s),
    ensures
        route_in(w, e) == ClientRoute::BufferShell,
        held_for(after_event(w, e).held, s) == held_for(w.held, s).push(e),
        held_except(after_event(w, e).held, s) == held_except(w.held, s),
{
    assert(after_event(w, e).held.drop_last() =~= w.held);
}

/// An answer is delivered once: after it was handed to its waiter, the
/// same answer again finds nobody waiting.
pub proof fn lemma_answer_delivered_once<R>(w: WaiterSets<R>, e: BoxEvent<R>)
    requires
        e is Response,
        route_in(w, e) == ClientRoute::ResolveResponse,
    ensures
        route_in(after_event(w, e), e) == ClientRoute::Drop,
{
}

/// After a connection-wide error nobody waits for anything, so nothing
/// that arrives later is delivered except to shells not yet opened.
pub proof fn lemma_fail_all_ends_every_wait<R>(w: WaiterSets<R>, e: BoxEvent<R>, later: BoxEvent<R>)
    requires
        e matches BoxEvent::Error { request_id: None, .. },
    ensures
        after_event(w, e).responses.is_empty(),
        after_event(w, e).execs.is_empty(),
        after_event(w, e).shells.is_empty(),
        after_event(w, e).held.len() == 0,
        route_in(after_event(w, e), later) == ClientRoute::Drop || route_in(after_event(w, e), later) == ClientRoute::FailAll
            || route_in(after_event(w, e), later) == ClientRoute::BufferShell,
{
}

} // verus!
