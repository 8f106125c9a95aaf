//! Sandbox sessions: what a session summary holds, the checks made before a
//! sandbox is launched, the pool of warm run directories, and how a failed
//! launch is explained from what the guest console and the runner logged.

use vstd::prelude::*;
use crate::config::{ExecutionPolicy, IsolationMode, SandboxSpec};
use crate::error::{SandboxError, error_text};
use crate::text::{
    chars_of, chars_eq, contains, contains_exec, lines, lines_of, owned, string_of, text3, trim,
    trim_chars, views,
};
use crate::protocol::strs;
use crate::ids::{uuid_string, uuid_text};
use crate::ordering::{sort_by_time_and_id, sorted_by_key};
use vstd::hash_map::HashMapWithView;

verus! {

/// Whether a sandbox is still running.
#[derive(Debug, Clone, Copy, PartialEq, Eq, Structural)]
pub enum SandboxSessionState {
    Active,
    Destroyed,
}

/// What the daemon reports about one sandbox session.
#[derive(Debug, Clone)]
pub struct SandboxSessionSummary {
    pub sandbox_id: u128,
    pub workspace_id: String,
    pub state: SandboxSessionState,
    pub policy: ExecutionPolicy,
    pub started_at_ms: u64,
    pub ended_at_ms: Option<u64>,
}

impl SandboxSessionSummary {
    /// The summary of a session that has just become ready.
    pub fn active(sandbox_id: u128, workspace_id: String, policy: ExecutionPolicy, now_ms: u64) -> (s: SandboxSessionSummary)
        ensures
            s.sandbox_id == sandbox_id,
            s.workspace_id@ == workspace_id@,
            s.state == SandboxSessionState::Active,
            s.policy == policy,
            s.started_at_ms == now_ms,
            s.ended_at_ms is None,
    {
        SandboxSessionSummary {
            sandbox_id,
            workspace_id,
            state: SandboxSessionState::Active,
            policy,
            started_at_ms: now_ms,
            ended_at_ms: None,
        }
    }

    /// Marks the session destroyed at `now_ms`; nothing else changes.
    pub fn mark_destroyed(&mut self, now_ms: u64)
        ensures
            final(self).state == SandboxSessionState::Destroyed,
            final(self).ended_at_ms == Some(now_ms),
            final(self).sandbox_id == old(self).sandbox_id,
            final(self).workspace_id@ == old(self).workspace_id@,
            final(self).policy == old(self).policy,
            final(self).started_at_ms == old(self).started_at_ms,
    {
        self.state = SandboxSessionState::Destroyed;
        self.ended_at_ms = Some(now_ms);
    }
}

/// Some active sandbox runs on `workspace_id`.
pub open spec fn workspace_is_active(active: Seq<Seq<char>>, workspace_id: Seq<char>) -> bool {
    active.contains(workspace_id)
}

/// Whether one of the active sandboxes (given by their workspace ids) runs
/// on `workspace_id`.
pub fn has_active_workspace(active: &Vec<String>, workspace_id: &str) -> (r: bool)
    ensures
        r == workspace_is_active(strs(active@), workspace_id@),
{
    let w = chars_of(workspace_id);
    let n = active.len();
    let mut i: usize = 0;
    while i < n
        invariant
            n == active@.len(),
            i <= n,
            w@ == workspace_id@,
            forall|j: int| 0 <= j < i ==> strs(active@)[j] != workspace_id@,
        decreases n - i,
    {
        let a = chars_of(active[i].as_str());
        if chars_eq(&a, &w) {
            assert(strs(active@)[i as int] == workspace_id@);
            return true;
        }
        i = i + 1;
    }
    false
}

/// Why a sandbox may not be created, if it may not: no networking in secure
/// mode, and one active sandbox per workspace.
pub open spec fn sandbox_request_problem(isolation_mode: IsolationMode, spec: SandboxSpec, active: Seq<Seq<char>>) -> Option<Seq<char>> {
    if isolation_mode == IsolationMode::Secure && spec.policy.network_enabled {
        Some("networking is unsupported in secure isolation mode"@)
    } else if workspace_is_active(active, spec.workspace_id@) {
        Some("workspace "@ + spec.workspace_id@ + " already has an active sandbox"@)
    } else {
        None
    }
}

/// Checks a sandbox request against the isolation mode and the workspaces
/// of the active sandboxes, before anything is prepared.
pub fn check_sandbox_request(isolation_mode: IsolationMode, spec: &SandboxSpec, active: &Vec<String>) -> (r: Result<(), SandboxError>)
    ensures
        match r {
            Ok(()) => sandbox_request_problem(isolation_mode, *spec, strs(active@)) is None,
            Err(e) => e is InvalidConfig && sandbox_request_problem(isolation_mode, *spec, strs(active@))
                == Some(e->InvalidConfig_0@),
        },
{
    if isolation_mode == IsolationMode::Secure && spec.policy.network_enabled {
        return Err(SandboxError::invalid(owned("networking is unsupported in secure isolation mode")));
    }
    if has_active_workspace(active, spec.workspace_id.as_str()) {
        let m = text3("workspace ", &chars_of(spec.workspace_id.as_str()), " already has an active sandbox");
        return Err(SandboxError::invalid(m));
    }
    Ok(())
}

/// A checkpoint may be restored only while no sandbox uses the workspace.
pub fn check_checkpoint_restore(workspace_id: &str, active: &Vec<String>) -> (r: Result<(), SandboxError>)
    ensures
        match r {
            Ok(()) => !workspace_is_active(strs(active@), workspace_id@),
            Err(e) => workspace_is_active(strs(active@), workspace_id@) && e is InvalidConfig
                && e->InvalidConfig_0@ == "workspace "@ + workspace_id@
                + " is currently attached to an active sandbox"@,
        },
{
    if has_active_workspace(active, workspace_id) {
        let m = text3("workspace ", &chars_of(workspace_id), " is currently attached to an active sandbox");
        return Err(SandboxError::invalid(m));
    }
    Ok(())
}

/// The last `n` items of `s` (all of them when there are fewer).
pub open spec fn keep_last<T>(s: Seq<T>, n: nat) -> Seq<T> {
    if s.len() <= n {
        s
    } else {
        s.subrange(s.len() - n, s.len() as int)
    }
}

/// Run directories of destroyed sandboxes, kept for reuse: the newest is
/// taken first, and only the newest `warm_pool_size` are kept.
pub struct WarmPool<T> {
    runs: Vec<T>,
}

impl<T> WarmPool<T> {
    pub closed spec fn view(&self) -> Seq<T> {
        self.runs@
    }

    pub fn new() -> (p: WarmPool<T>)
        ensures
            p.view() == Seq::<T>::empty(),
    {
        WarmPool { runs: Vec::new() }
    }

    pub fn len(&self) -> (n: usize)
        ensures
            n == self.view().len(),
    {
        self.runs.len()
    }

    /// Keeps `run`, dropping the oldest runs beyond `warm_pool_size`.
    pub fn store(&mut self, run: T, warm_pool_size: usize)
        ensures
            final(self).view() == keep_last(old(self).view().push(run), warm_pool_size as nat),
    {
        let ghost s = self.runs@.push(run);
        self.runs.push(run);
        while self.runs.len() > warm_pool_size
            invariant
                s.len() >= self.runs@.len(),
                self.runs@ == s.subrange(s.len() - self.runs@.len(), s.len() as int),
                s.len() > warm_pool_size ==> self.runs@.len() >= warm_pool_size,
                s.len() <= warm_pool_size ==> self.runs@.len() == s.len(),
            decreases self.runs@.len(),
        {
            self.runs.remove(0);
        }
        proof {
            if s.len() <= warm_pool_size as nat {
                assert(s.subrange(0, s.len() as int) =~= s);
            }
        }
        assert(self.runs@ =~= keep_last(s, warm_pool_size as nat));
    }

    /// Takes the most recently stored run.
    pub fn take(&mut self) -> (r: Option<T>)
        ensures
            old(self).view().len() == 0 ==> r is None && final(self).view() == old(self).view(),
            old(self).view().len() > 0 ==> r == Some(old(self).view().last())
                && final(self).view() == old(self).view().drop_last(),
    {
        self.runs.pop()
    }
}

/// The pool never holds more runs than it was asked to keep, counting the
/// ones it held before.
pub proof fn lemma_warm_pool_bounded<T>(before: Seq<T>, run: T, warm_pool_size: nat)
    ensures
        keep_last(before.push(run), warm_pool_size).len() <= warm_pool_size || keep_last(before.push(run), warm_pool_size).len() == before.len() + 1,
        keep_last(before.push(run), warm_pool_size).len() <= before.len() + 1,
{
}

/// A run stored into a pool that keeps at least one is the next one taken.
pub proof fn lemma_warm_pool_store_then_take<T>(before: Seq<T>, run: T, warm_pool_size: nat)
    requires
        warm_pool_size >= 1,
    ensures
        keep_last(before.push(run), warm_pool_size).len() > 0,
        keep_last(before.push(run), warm_pool_size).last() == run,
{
}

/// Whether a launch failure at `stage` is one the guest's own logs explain
/// better: a guest that never answered, or a runner that died starting.
pub open spec fn attaches_boot_detail(stage: Seq<char>, error: SandboxError) -> bool {
    if stage == "guest connect"@ {
        match error {
            SandboxError::Timeout(_) => true,
            SandboxError::Protocol(_) => true,
            SandboxError::Io { context, .. } => contains(context@, "guest vsock bridge"@),
            _ => false,
        }
    } else if stage == "backend launch"@ {
        match error {
            SandboxError::Timeout(_) => true,
            SandboxError::Backend(m) => contains(m@, "startup handshake"@) || contains(m@, "exited before"@)
                || contains(m@, "thread panicked"@),
            _ => false,
        }
    } else {
        false
    }
}

fn contains_str(s: &String, p: &str) -> (r: bool)
    ensures
        r == contains(s@, p@),
{
    contains_exec(&chars_of(s.as_str()), &chars_of(p))
}

pub fn should_attach_boot_detail(stage: &str, error: &SandboxError) -> (r: bool)
    ensures
        r == attaches_boot_detail(stage@, *error),
{
    let st = chars_of(stage);
    if chars_eq(&st, &chars_of("guest connect")) {
        match error {
            SandboxError::Timeout(_) => true,
            SandboxError::Protocol(_) => true,
            SandboxError::Io { context, .. } => contains_str(context, "guest vsock bridge"),
            _ => false,
        }
    } else if chars_eq(&st, &chars_of("backend launch")) {
        match error {
            SandboxError::Timeout(_) => true,
            SandboxError::Backend(m) => contains_str(m, "startup handshake") || contains_str(m, "exited before")
                || contains_str(m, "thread panicked"),
            _ => false,
        }
    } else {
        false
    }
}

/// Some pattern occurs in `line`.
pub open spec fn mentions_any(line: Seq<char>, patterns: Seq<Seq<char>>) -> bool {
    exists|k: int| 0 <= k < patterns.len() && contains(line, #[trigger] patterns[k])
}

/// The last line, trimmed, that is not blank and mentions one of the
/// patterns.
pub open spec fn last_line_mentioning(ls: Seq<Seq<char>>, patterns: Seq<Seq<char>>) -> Option<Seq<char>>
    decreases ls.len(),
{
    if ls.len() == 0 {
        None
    } else if trim(ls.last()).len() > 0 && mentions_any(trim(ls.last()), patterns) {
        Some(trim(ls.last()))
    } else {
        last_line_mentioning(ls.drop_last(), patterns)
    }
}

/// The last line, trimmed, that is not blank.
pub open spec fn last_nonblank(ls: Seq<Seq<char>>) -> Option<Seq<char>>
    decreases ls.len(),
{
    if ls.len() == 0 {
        None
    } else if trim(ls.last()).len() > 0 {
        Some(trim(ls.last()))
    } else {
        last_nonblank(ls.drop_last())
    }
}

pub open spec fn opt_view(o: Option<String>) -> Option<Seq<char>> {
    match o {
        Some(s) => Some(s@),
        None => None,
    }
}

pub open spec fn opt_str_view(o: Option<&str>) -> Option<Seq<char>> {
    match o {
        Some(s) => Some(s@),
        None => None,
    }
}

fn mentions_any_exec(line: &Vec<char>, patterns: &Vec<String>) -> (r: bool)
    ensures
        r == mentions_any(line@, strs(patterns@)),
{
    let n = patterns.len();
    let mut k: usize = 0;
    while k < n
        invariant
            n == patterns@.len(),
            k <= n,
            forall|j: int| 0 <= j < k ==> !contains(line@, #[trigger] strs(patterns@)[j]),
        decreases n - k,
    {
        if contains_exec(line, &chars_of(patterns[k].as_str())) {
            assert(contains(line@, strs(patterns@)[k as int]));
            return true;
        }
        k = k + 1;
    }
    false
}

/// The last non-blank line of `text` that mentions one of `patterns`,
/// trimmed; `None` when there is no text or no such line.
pub fn select_boot_failure_line(text: Option<&str>, patterns: &Vec<String>) -> (r: Option<String>)
    ensures
        opt_view(r) == match text {
            Some(t) => last_line_mentioning(lines(t@), strs(patterns@)),
            None => None,
        },
{
    let t = match text {
        Some(t) => t,
        None => return None,
    };
    let ls = lines_of(&chars_of(t));
    let ghost all = views(ls@);
    let mut i: usize = ls.len();
    assert(all.subrange(0, i as int) =~= all);
    while i > 0
        invariant
            i <= ls@.len(),
            all == views(ls@),
            all == lines(t@),
            text == Some(t),
            last_line_mentioning(all, strs(patterns@)) == last_line_mentioning(all.subrange(0, i as int), strs(patterns@)),
        decreases i,
    {
        let ghost pre = all.subrange(0, i as int);
        assert(pre.drop_last() =~= all.subrange(0, i - 1));
        let line = trim_chars(&ls[i - 1]);
        assert(all[i - 1] == ls@[i - 1]@);
        assert(pre.last() == ls@[i - 1]@);
        if line.len() > 0 && mentions_any_exec(&line, patterns) {
            assert(trim(pre.last()) == line@);
            assert(last_line_mentioning(pre, strs(patterns@)) == Some(line@));
            let out = string_of(&line);
            assert(opt_view(Some(out)) == Some(line@));
            return Some(out);
        }
        i = i - 1;
    }
    None
}

/// The last non-blank line of `text`, trimmed.
pub fn last_nonempty_line(text: Option<&str>) -> (r: Option<String>)
    ensures
        opt_view(r) == match text {
            Some(t) => last_nonblank(lines(t@)),
            None => None,
        },
{
    let t = match text {
        Some(t) => t,
        None => return None,
    };
    let ls = lines_of(&chars_of(t));
    let ghost all = views(ls@);
    let mut i: usize = ls.len();
    assert(all.subrange(0, i as int) =~= all);
    while i > 0
        invariant
            i <= ls@.len(),
            all == views(ls@),
            all == lines(t@),
            text == Some(t),
            last_nonblank(all) == last_nonblank(all.subrange(0, i as int)),
        decreases i,
    {
        let ghost pre = all.subrange(0, i as int);
        assert(pre.drop_last() =~= all.subrange(0, i - 1));
        let line = trim_chars(&ls[i - 1]);
        assert(all[i - 1] == ls@[i - 1]@);
        assert(pre.last() == ls@[i - 1]@);
        if line.len() > 0 {
            assert(trim(pre.last()) == line@);
            assert(last_nonblank(pre) == Some(line@));
            let out = string_of(&line);
            assert(opt_view(Some(out)) == Some(line@));
            return Some(out);
        }
        i = i - 1;
    }
    None
}

/// What the guest console shows when a guest fails to boot.
pub open spec fn guest_failure_patterns() -> Seq<Seq<char>> {
    seq![
        "Kernel panic - not syncing:"@,
        "VFS: Cannot open root device"@,
        "VFS: Unable to mount root fs"@,
        "Can't open blockdev"@,
        "No working init found"@,
        "Run /init as init process"@,
        "mount:"@,
        "EXT4-fs error"@,
        "failed"@,
        "error"@,
    ]
}

/// What the VM runner logs when it fails.
pub open spec fn runner_failure_patterns() -> Seq<Seq<char>> {
    seq![
        "unexpected exception:"@,
        "panicked at"@,
        "krun_start_enter failed"@,
        "failed with"@,
        "error"@,
    ]
}

fn guest_patterns() -> (v: Vec<String>)
    ensures
        strs(v@) == guest_failure_patterns(),
{
    let v = vec![
        owned("Kernel panic - not syncing:"),
        owned("VFS: Cannot open root device"),
        owned("VFS: Unable to mount root fs"),
        owned("Can't open blockdev"),
        owned("No working init found"),
        owned("Run /init as init process"),
        owned("mount:"),
        owned("EXT4-fs error"),
        owned("failed"),
        owned("error"),
    ];
    assert(strs(v@) =~= guest_failure_patterns());
    v
}

fn runner_patterns() -> (v: Vec<String>)
    ensures
        strs(v@) == runner_failure_patterns(),
{
    let v = vec![
        owned("unexpected exception:"),
        owned("panicked at"),
        owned("krun_start_enter failed"),
        owned("failed with"),
        owned("error"),
    ];
    assert(strs(v@) =~= runner_failure_patterns());
    v
}

pub open spec fn or_else(a: Option<Seq<char>>, b: Option<Seq<char>>) -> Option<Seq<char>> {
    if a is Some {
        a
    } else {
        b
    }
}

pub open spec fn text_lines(t: Option<Seq<char>>) -> Seq<Seq<char>> {
    match t {
        Some(t) => lines(t),
        None => Seq::empty(),
    }
}

/// The line that best explains a failed boot, from the tails of the guest
/// console and of the runner log: a known guest failure, then a known
/// runner failure, then the last line of the console, then of the runner.
pub open spec fn boot_detail(guest_console: Option<Seq<char>>, runner_log: Option<Seq<char>>) -> Option<Seq<char>> {
    or_else(
        last_line_mentioning(text_lines(guest_console), guest_failure_patterns()),
        or_else(
            last_line_mentioning(text_lines(runner_log), runner_failure_patterns()),
            or_else(last_nonblank(text_lines(guest_console)), last_nonblank(text_lines(runner_log))),
        ),
    )
}

proof fn lemma_no_lines_none(patterns: Seq<Seq<char>>)
    ensures
        last_line_mentioning(Seq::<Seq<char>>::empty(), patterns) is None,
        last_nonblank(Seq::<Seq<char>>::empty()) is None,
{
}

/// A line that names a known failure among `patterns`.
pub open spec fn explains(line: Seq<char>, patterns: Seq<Seq<char>>) -> bool {
    trim(line).len() > 0 && mentions_any(trim(line), patterns)
}

/// `d` is the trimmed form of the last line of `ls` for which `p` holds.
pub open spec fn is_last_with(ls: Seq<Seq<char>>, p: spec_fn(Seq<char>) -> bool, d: Seq<char>) -> bool {
    exists|i: int| 0 <= i < ls.len() && #[trigger] p(ls[i]) && trim(ls[i]) == d
        && forall|j: int| i < j < ls.len() ==> !p(#[trigger] ls[j])
}

proof fn lemma_last_mentioning_is_last(ls: Seq<Seq<char>>, patterns: Seq<Seq<char>>)
    ensures
        match last_line_mentioning(ls, patterns) {
            Some(d) => is_last_with(ls, |l: Seq<char>| explains(l, patterns), d),
            None => forall|j: int| 0 <= j < ls.len() ==> !explains(#[trigger] ls[j], patterns),
        },
    decreases ls.len(),
{
    let p = |l: Seq<char>| explains(l, patterns);
    if ls.len() > 0 {
        let rest = ls.drop_last();
        lemma_last_mentioning_is_last(rest, patterns);
        if explains(ls.last(), patterns) {
            let i = ls.len() - 1;
            assert(p(ls[i]) && trim(ls[i]) == trim(ls.last()));
        } else {
            match last_line_mentioning(rest, patterns) {
                Some(d) => {
                    let i = choose|i: int| 0 <= i < rest.len() && #[trigger] p(rest[i]) && trim(rest[i]) == d
                        && forall|j: int| i < j < rest.len() ==> !p(#[trigger] rest[j]);
                    assert(ls[i] == rest[i]);
                    assert forall|j: int| i < j < ls.len() implies !p(#[trigger] ls[j]) by {
                        if j < rest.len() {
                            assert(ls[j] == rest[j]);
                        }
                    }
                },
                None => {
                    assert forall|j: int| 0 <= j < ls.len() implies !explains(#[trigger] ls[j], patterns) by {
                        if j < rest.len() {
                            assert(ls[j] == rest[j]);
                        }
                    }
                },
            }
        }
    }
}

proof fn lemma_last_nonblank_is_last(ls: Seq<Seq<char>>)
    ensures
        match last_nonblank(ls) {
            Some(d) => is_last_with(ls, |l: Seq<char>| trim(l).len() > 0, d),
            None => forall|j: int| 0 <= j < ls.len() ==> trim(#[trigger] ls[j]).len() == 0,
        },
    decreases ls.len(),
{
    let p = |l: Seq<char>| trim(l).len() > 0;
    if ls.len() > 0 {
        let rest = ls.drop_last();
        lemma_last_nonblank_is_last(rest);
        if trim(ls.last()).len() > 0 {
            let i = ls.len() - 1;
            assert(p(ls[i]) && trim(ls[i]) == trim(ls.last()));
        } else {
            match last_nonblank(rest) {
                Some(d) => {
                    let i = choose|i: int| 0 <= i < rest.len() && #[trigger] p(rest[i]) && trim(rest[i]) == d
                        && forall|j: int| i < j < rest.len() ==> !p(#[trigger] rest[j]);
                    assert(ls[i] == rest[i]);
                    assert forall|j: int| i < j < ls.len() implies !p(#[trigger] ls[j]) by {
                        if j < rest.len() {
                            assert(ls[j] == rest[j]);
                        }
                    }
                },
                None => {
                    assert forall|j: int| 0 <= j < ls.len() implies trim(#[trigger] ls[j]).len() == 0 by {
                        if j < rest.len() {
                            assert(ls[j] == rest[j]);
                        }
                    }
                },
            }
        }
    }
}

/// Which line explains a failed boot, in order of preference: the last
/// guest console line naming a known guest failure; failing that, the last
/// runner log line naming a known runner failure; failing that, the last
/// non-blank line of the guest console; failing that, the last non-blank
/// line of the runner log; and nothing when both logs are blank.
pub proof fn lemma_boot_detail_preference(guest_console: Option<Seq<char>>, runner_log: Option<Seq<char>>)
    ensures
        ({
            let c = text_lines(guest_console);
            let r = text_lines(runner_log);
            let d = boot_detail(guest_console, runner_log);
            let guest_fault = |l: Seq<char>| explains(l, guest_failure_patterns());
            let runner_fault = |l: Seq<char>| explains(l, runner_failure_patterns());
            let nonblank = |l: Seq<char>| trim(l).len() > 0;
            &&& (exists|i: int| 0 <= i < c.len() && #[trigger] guest_fault(c[i]))
                ==> (d matches Some(x) && is_last_with(c, guest_fault, x))
            &&& ((forall|i: int| 0 <= i < c.len() ==> !#[trigger] guest_fault(c[i]))
                && (exists|i: int| 0 <= i < r.len() && #[trigger] runner_fault(r[i])))
                ==> (d matches Some(x) && is_last_with(r, runner_fault, x))
            &&& ((forall|i: int| 0 <= i < c.len() ==> !#[trigger] guest_fault(c[i]))
                && (forall|i: int| 0 <= i < r.len() ==> !#[trigger] runner_fault(r[i]))
                && (exists|i: int| 0 <= i < c.len() && #[trigger] nonblank(c[i])))
                ==> (d matches Some(x) && is_last_with(c, nonblank, x))
            &&& ((forall|i: int| 0 <= i < c.len() ==> !#[trigger] guest_fault(c[i]))
                && (forall|i: int| 0 <= i < r.len() ==> !#[trigger] runner_fault(r[i]))
                && (forall|i: int| 0 <= i < c.len() ==> !#[trigger] nonblank(c[i])))
                ==> match d {
                    Some(x) => is_last_with(r, nonblank, x),
                    None => forall|i: int| 0 <= i < r.len() ==> !#[trigger] nonblank(r[i]),
                }
        }),
{
    let c = text_lines(guest_console);
    let r = text_lines(runner_log);
    lemma_last_mentioning_is_last(c, guest_failure_patterns());
    lemma_last_mentioning_is_last(r, runner_failure_patterns());
    lemma_last_nonblank_is_last(c);
    lemma_last_nonblank_is_last(r);
    let guest_fault = |l: Seq<char>| explains(l, guest_failure_patterns());
    let runner_fault = |l: Seq<char>| explains(l, runner_failure_patterns());
    let nonblank = |l: Seq<char>| trim(l).len() > 0;
    assert((exists|i: int| 0 <= i < c.len() && #[trigger] guest_fault(c[i])) ==> last_line_mentioning(c, guest_failure_patterns()) is Some);
    assert((exists|i: int| 0 <= i < r.len() && #[trigger] runner_fault(r[i])) ==> last_line_mentioning(r, runner_failure_patterns()) is Some);
    assert((exists|i: int| 0 <= i < c.len() && #[trigger] nonblank(c[i])) ==> last_nonblank(c) is Some);
}

/// Picks the line that explains a failed boot (see `boot_detail`); the
/// texts are what could be read of the two logs.
pub fn boot_failure_detail(guest_console: Option<&str>, runner_log: Option<&str>) -> (r: Option<String>)
    ensures
        opt_view(r) == boot_detail(opt_str_view(guest_console), opt_str_view(runner_log)),
{
    proof {
        lemma_no_lines_none(guest_failure_patterns());
        lemma_no_lines_none(runner_failure_patterns());
    }
    if let Some(line) = select_boot_failure_line(guest_console, &guest_patterns()) {
        return Some(line);
    }
    if let Some(line) = select_boot_failure_line(runner_log, &runner_patterns()) {
        return Some(line);
    }
    if let Some(line) = last_nonempty_line(guest_console) {
        return Some(line);
    }
    last_nonempty_line(runner_log)
}

/// The error a failed launch is reported with: a failure the boot logs
/// explain (see `attaches_boot_detail`) becomes a backend failure that
/// quotes the explaining line, unless the error's text already holds it.
pub fn enrich_launch_error(stage: &str, error: SandboxError, guest_console: Option<&str>, runner_log: Option<&str>) -> (r: SandboxError)
    ensures
        ({
            let detail = boot_detail(opt_str_view(guest_console), opt_str_view(runner_log));
            if attaches_boot_detail(stage@, error) && detail is Some && !contains(error_text(error), detail->0) {
                r is Backend && r->Backend_0@ == stage@ + " failed: "@ + detail->0
            } else {
                r == error
            }
        }),
{
    if !should_attach_boot_detail(stage, &error) {
        return error;
    }
    let detail = match boot_failure_detail(guest_console, runner_log) {
        Some(d) => d,
        None => return error,
    };
    let rendered = error.to_message();
    let d = chars_of(detail.as_str());
    if contains_exec(&chars_of(rendered.as_str()), &d) {
        return error;
    }
    let m = string_of(&crate::text::concat_chars(&chars_of(stage), &crate::text::concat_chars(&chars_of(" failed: "), &d)));
    proof {
        assert(m@ =~= stage@ + " failed: "@ + d@);
    }
    SandboxError::backend(m)
}

/// The error for a sandbox id that no active sandbox has.
pub fn unknown_active_sandbox(sandbox_id: u128) -> (e: SandboxError)
    ensures
        e is InvalidConfig && e->InvalidConfig_0@ == "unknown active sandbox "@ + uuid_text(sandbox_id),
{
    SandboxError::invalid(crate::text::text2("unknown active sandbox ", &chars_of(uuid_string(sandbox_id).as_str())))
}

/// The sessions to list: the active ones, and the finished ones when
/// asked for, ordered by start time, then id.
pub fn list_sessions(active: Vec<SandboxSessionSummary>, history: Vec<SandboxSessionSummary>, include_history: bool) -> (r: Vec<SandboxSessionSummary>)
    ensures
        sorted_by_key(r@),
        r@.to_multiset() == if include_history {
            active@.to_multiset().add(history@.to_multiset())
        } else {
            active@.to_multiset()
        },
{
    let mut all = active;
    let ghost a0 = all@;
    if include_history {
        let mut rest = history;
        let ghost h0 = rest@;
        proof {
            broadcast use vstd::seq_lib::group_to_multiset_ensures;
        }
        while rest.len() > 0
            invariant
                all@.to_multiset().add(rest@.to_multiset()) == a0.to_multiset().add(h0.to_multiset()),
            decreases rest@.len(),
        {
            let ghost r0 = rest@;
            let x = rest.pop().unwrap();
            proof {
                broadcast use vstd::seq_lib::group_to_multiset_ensures;
                assert(r0 =~= rest@.push(x));
            }
            all.push(x);
            proof {
                broadcast use vstd::seq_lib::group_to_multiset_ensures;
                assert(all@.to_multiset().add(rest@.to_multiset()) =~= a0.to_multiset().add(h0.to_multiset()));
            }
        }
        proof {
            broadcast use vstd::seq_lib::group_to_multiset_ensures;
            assert(rest@.len() == 0);
            assert(all@.to_multiset() =~= all@.to_multiset().add(rest@.to_multiset()));
        }
    }
    sort_by_time_and_id(all)
}

/// The sessions the runtime knows, by sandbox id: the active ones (`A`)
/// and the records of the destroyed ones (`H`).
pub struct RegistryView<A, H> {
    pub active: Map<u128, A>,
    pub history: Map<u128, H>,
}

/// What starting to destroy sandbox `id` does to the registry: a sandbox
/// already destroyed is left as it is; otherwise it leaves the active set.
pub open spec fn destroy_begun<A, H>(v: RegistryView<A, H>, id: u128) -> RegistryView<A, H> {
    if v.history.contains_key(id) {
        v
    } else {
        RegistryView { active: v.active.remove(id), ..v }
    }
}

/// What finishing the destruction of sandbox `id` with record `h` does.
pub open spec fn destroy_finished<A, H>(v: RegistryView<A, H>, id: u128, h: H) -> RegistryView<A, H> {
    RegistryView { history: v.history.insert(id, h), ..v }
}

/// How destroying a sandbox starts.
pub enum DestroyStart<A> {
    /// It was destroyed before: its stored record is the answer.
    AlreadyDestroyed,
    /// Tear down this session, then store its record with `finish_destroy`.
    TearDown(A),
    /// No such sandbox.
    Unknown(SandboxError),
}

/// The registry of the runtime's sessions.
#[verifier::reject_recursive_types(A)]
#[verifier::reject_recursive_types(H)]
pub struct SessionRegistry<A, H> {
    active: HashMapWithView<u128, A>,
    history: HashMapWithView<u128, H>,
}

impl<A, H> SessionRegistry<A, H> {
    pub closed spec fn view(&self) -> RegistryView<A, H> {
        RegistryView { active: self.active@, history: self.history@ }
    }

    pub fn new() -> (r: SessionRegistry<A, H>)
        ensures
            r.view().active == Map::<u128, A>::empty(),
            r.view().history == Map::<u128, H>::empty(),
    {
        proof {
            broadcast use vstd::std_specs::hash::axiom_u128_obeys_hash_table_key_model;
        }
        SessionRegistry { active: HashMapWithView::new(), history: HashMapWithView::new() }
    }

    /// A launched sandbox becomes active.
    pub fn insert(&mut self, sandbox_id: u128, session: A)
        ensures
            final(self).view() == (RegistryView { active: old(self).view().active.insert(sandbox_id, session), ..old(self).view() }),
    {
        self.active.insert(sandbox_id, session);
    }

    /// The active session of a sandbox; an unknown sandbox is an error.
    pub fn active(&self, sandbox_id: u128) -> (r: Result<&A, SandboxError>)
        ensures
            match r {
                Ok(a) => self.view().active.contains_key(sandbox_id) && *a == self.view().active[sandbox_id],
                Err(e) => !self.view().active.contains_key(sandbox_id)
                    && e is InvalidConfig && e->InvalidConfig_0@ == "unknown active sandbox "@ + uuid_text(sandbox_id),
            },
    {
        match self.active.get(&sandbox_id) {
            Some(a) => Ok(a),
            None => Err(unknown_active_sandbox(sandbox_id)),
        }
    }

    /// Takes a sandbox out of the active set; an unknown sandbox is an error.
    pub fn remove_active(&mut self, sandbox_id: u128) -> (r: Result<A, SandboxError>)
        ensures
            match r {
                Ok(a) => old(self).view().active.contains_key(sandbox_id) && a == old(self).view().active[sandbox_id]
                    && final(self).view() == (RegistryView { active: old(self).view().active.remove(sandbox_id), ..old(self).view() }),
                Err(e) => !old(self).view().active.contains_key(sandbox_id) && final(self).view() == old(self).view()
                    && e is InvalidConfig && e->InvalidConfig_0@ == "unknown active sandbox "@ + uuid_text(sandbox_id),
            },
    {
        match self.active.remove(&sandbox_id) {
            Some(a) => Ok(a),
            None => Err(unknown_active_sandbox(sandbox_id)),
        }
    }

    /// The stored record of a destroyed sandbox.
    pub fn history_record(&self, sandbox_id: u128) -> (r: Option<&H>)
        ensures
            match r {
                Some(h) => self.view().history.contains_key(sandbox_id) && *h == self.view().history[sandbox_id],
                None => !self.view().history.contains_key(sandbox_id),
            },
    {
        self.history.get(&sandbox_id)
    }

    /// Stores the record of a destroyed sandbox.
    pub fn save_history(&mut self, sandbox_id: u128, record: H)
        ensures
            final(self).view() == destroy_finished(old(self).view(), sandbox_id, record),
    {
        self.history.insert(sandbox_id, record);
    }

    /// Starts destroying a sandbox: one destroyed before answers with its
    /// stored record; an active one leaves the active set to be torn down;
    /// any other is unknown.
    pub fn begin_destroy(&mut self, sandbox_id: u128) -> (r: DestroyStart<A>)
        ensures
            old(self).view().history.contains_key(sandbox_id) ==> r is AlreadyDestroyed,
            !old(self).view().history.contains_key(sandbox_id) && old(self).view().active.contains_key(sandbox_id)
                ==> r == DestroyStart::TearDown(old(self).view().active[sandbox_id]),
            !old(self).view().history.contains_key(sandbox_id) && !old(self).view().active.contains_key(sandbox_id)
                ==> (r matches DestroyStart::Unknown(e) && e is InvalidConfig
                && e->InvalidConfig_0@ == "unknown active sandbox "@ + uuid_text(sandbox_id)),
            final(self).view() == destroy_begun(old(self).view(), sandbox_id),
    {
        if self.history.contains_key(&sandbox_id) {
            return DestroyStart::AlreadyDestroyed;
        }
        match self.remove_active(sandbox_id) {
            Ok(a) => DestroyStart::TearDown(a),
            Err(e) => {
                assert(old(self).view().active.remove(sandbox_id) =~= old(self).view().active);
                DestroyStart::Unknown(e)
            },
        }
    }
}

/// Destroying a sandbox twice answers the second time with the record the
/// first stored, and the sandbox is no longer active.
pub proof fn lemma_second_destroy_returns_record<A, H>(v: RegistryView<A, H>, id: u128, h: H)
    requires
        !v.history.contains_key(id),
        v.active.contains_key(id),
    ensures
        destroy_finished(destroy_begun(v, id), id, h).history.contains_key(id),
        destroy_finished(destroy_begun(v, id), id, h).history[id] == h,
        !destroy_finished(destroy_begun(v, id), id, h).active.contains_key(id),
        destroy_begun(destroy_finished(destroy_begun(v, id), id, h), id) == destroy_finished(destroy_begun(v, id), id, h),
{
}

/// What `enrich_launch_error` makes of a failure at `stage`.
pub open spec fn enriched(stage: Seq<char>, error: SandboxError, guest_console: Option<Seq<char>>, runner_log: Option<Seq<char>>, r: SandboxError) -> bool {
    let detail = boot_detail(guest_console, runner_log);
    if attaches_boot_detail(stage, error) && detail is Some && !contains(error_text(error), detail->0) {
        r is Backend && r->Backend_0@ == stage + " failed: "@ + detail->0
    } else {
        r == error
    }
}

/// Where the creation of a sandbox stands.
#[derive(Debug, Clone, Copy, PartialEq, Eq, Structural)]
pub enum CreateStage {
    /// The request is to be checked against the active sandboxes.
    Checking,
    /// The workspace checkpoint to start from is being restored.
    Restoring,
    /// The workspace is being prepared.
    PreparingWorkspace,
    /// A warm run directory is asked from the pool.
    TakingWarmRun,
    /// The run directory is being recycled or prepared.
    PreparingRun,
    /// The backend is launching the VM.
    Launching,
    /// The guest agent is being connected.
    Connecting,
    /// The baseline snapshot of the workspace is being taken.
    Snapshotting,
    /// The sandbox is registered as active.
    Finished,
    /// Creation failed.
    Failed,
}

/// What the outside work of the last step gave.
pub enum CreateEvent {
    /// The workspaces of the active sandboxes.
    Checked { active_workspaces: Vec<String> },
    /// The last action succeeded.
    Succeeded,
    /// Whether the pool held a warm run directory.
    WarmRun { found: bool },
    /// The last action failed; for a launch or a guest connection, what the
    /// guest console and the runner logged (if they could be read).
    Failed { error: SandboxError, guest_console: Option<String>, runner_log: Option<String> },
}

/// What the caller does next.
pub enum CreateAction {
    /// Restore this workspace checkpoint.
    RestoreCheckpoint(String),
    /// Prepare the workspace.
    PrepareWorkspace,
    /// Take a warm run directory from the pool.
    TakeWarmRun,
    /// Recycle the warm run directory taken.
    RecycleRun,
    /// Prepare a fresh run directory.
    PrepareRun,
    /// Launch the VM.
    Launch,
    /// Connect to the guest agent.
    ConnectGuest,
    /// Take the baseline snapshot of the workspace.
    SnapshotBaseline,
    /// Register the sandbox as active and answer with its summary.
    Register,
    /// Answer with this error (logging a launch failure first).
    Fail(SandboxError),
    /// The event was not one this stage waits for: nothing to do.
    Ignore,
}

pub open spec fn opt_string_view(o: Option<String>) -> Option<Seq<char>> {
    match o {
        Some(s) => Some(s@),
        None => None,
    }
}

/// One step of creating a sandbox. The request is refused before anything
/// is restored, prepared or launched; a checkpoint to start from is
/// restored before the workspace is prepared; a warm run directory is
/// reused before a fresh one is prepared; the VM is launched, the guest
/// connected and the baseline taken, in that order, and only then is the
/// sandbox registered. A failure ends the creation with its error, which is
/// explained from the boot logs only for the launch and the guest
/// connection.
pub fn create_step(stage: CreateStage, isolation_mode: IsolationMode, spec: &SandboxSpec, event: CreateEvent) -> (r: (CreateStage, CreateAction))
    ensures
        match (stage, event) {
            (CreateStage::Checking, CreateEvent::Checked { active_workspaces }) => match sandbox_request_problem(isolation_mode, *spec, strs(active_workspaces@)) {
                Some(m) => r.0 == CreateStage::Failed && (r.1 matches CreateAction::Fail(e) && e is InvalidConfig && e->InvalidConfig_0@ == m),
                None => match spec.restore_commit {
                    Some(c) => r.0 == CreateStage::Restoring && (r.1 matches CreateAction::RestoreCheckpoint(x) && x@ == c@),
                    None => r.0 == CreateStage::PreparingWorkspace && r.1 is PrepareWorkspace,
                },
            },
            (CreateStage::Restoring, CreateEvent::Succeeded) => r.0 == CreateStage::PreparingWorkspace && r.1 is PrepareWorkspace,
            (CreateStage::PreparingWorkspace, CreateEvent::Succeeded) => r.0 == CreateStage::TakingWarmRun && r.1 is TakeWarmRun,
            (CreateStage::TakingWarmRun, CreateEvent::WarmRun { found }) => r.0 == CreateStage::PreparingRun
                && (if found { r.1 is RecycleRun } else { r.1 is PrepareRun }),
            (CreateStage::PreparingRun, CreateEvent::Succeeded) => r.0 == CreateStage::Launching && r.1 is Launch,
            (CreateStage::Launching, CreateEvent::Succeeded) => r.0 == CreateStage::Connecting && r.1 is ConnectGuest,
            (CreateStage::Connecting, CreateEvent::Succeeded) => r.0 == CreateStage::Snapshotting && r.1 is SnapshotBaseline,
            (CreateStage::Snapshotting, CreateEvent::Succeeded) => r.0 == CreateStage::Finished && r.1 is Register,
            (CreateStage::Launching, CreateEvent::Failed { error, guest_console, runner_log }) => r.0 == CreateStage::Failed
                && (r.1 matches CreateAction::Fail(e) && enriched("backend launch"@, error, opt_string_view(guest_console), opt_string_view(runner_log), e)),
            (CreateStage::Connecting, CreateEvent::Failed { error, guest_console, runner_log }) => r.0 == CreateStage::Failed
                && (r.1 matches CreateAction::Fail(e) && enriched("guest connect"@, error, opt_string_view(guest_console), opt_string_view(runner_log), e)),
            (CreateStage::Restoring, CreateEvent::Failed { error, .. }) => r.0 == CreateStage::Failed && r.1 == CreateAction::Fail(error),
            (CreateStage::PreparingWorkspace, CreateEvent::Failed { error, .. }) => r.0 == CreateStage::Failed && r.1 == CreateAction::Fail(error),
            (CreateStage::PreparingRun, CreateEvent::Failed { error, .. }) => r.0 == CreateStage::Failed && r.1 == CreateAction::Fail(error),
            (CreateStage::Snapshotting, CreateEvent::Failed { error, .. }) => r.0 == CreateStage::Failed && r.1 == CreateAction::Fail(error),
            _ => r.0 == stage && r.1 is Ignore,
        },
{
    match (stage, event) {
        (CreateStage::Checking, CreateEvent::Checked { active_workspaces }) => match check_sandbox_request(isolation_mode, spec, &active_workspaces) {
            Err(e) => (CreateStage::Failed, CreateAction::Fail(e)),
            Ok(()) => match &spec.restore_commit {
                Some(c) => (CreateStage::Restoring, CreateAction::RestoreCheckpoint(c.clone())),
                None => (CreateStage::PreparingWorkspace, CreateAction::PrepareWorkspace),
            },
        },
        (CreateStage::Restoring, CreateEvent::Succeeded) => (CreateStage::PreparingWorkspace, CreateAction::PrepareWorkspace),
        (CreateStage::PreparingWorkspace, CreateEvent::Succeeded) => (CreateStage::TakingWarmRun, CreateAction::TakeWarmRun),
        (CreateStage::TakingWarmRun, CreateEvent::WarmRun { found }) => if found {
            (CreateStage::PreparingRun, CreateAction::RecycleRun)
        } else {
            (CreateStage::PreparingRun, CreateAction::PrepareRun)
        },
        (CreateStage::PreparingRun, CreateEvent::Succeeded) => (CreateStage::Launching, CreateAction::Launch),
        (CreateStage::Launching, CreateEvent::Succeeded) => (CreateStage::Connecting, CreateAction::ConnectGuest),
        (CreateStage::Connecting, CreateEvent::Succeeded) => (CreateStage::Snapshotting, CreateAction::SnapshotBaseline),
        (CreateStage::Snapshotting, CreateEvent::Succeeded) => (CreateStage::Finished, CreateAction::Register),
        (CreateStage::Launching, CreateEvent::Failed { error, guest_console, runner_log }) => {
            let e = enrich_launch_error("backend launch", error, opt_as_str(&guest_console), opt_as_str(&runner_log));
            (CreateStage::Failed, CreateAction::Fail(e))
        },
        (CreateStage::Connecting, CreateEvent::Failed { error, guest_console, runner_log }) => {
            let e = enrich_launch_error("guest connect", error, opt_as_str(&guest_console), opt_as_str(&runner_log));
            (CreateStage::Failed, CreateAction::Fail(e))
        },
        (CreateStage::Restoring, CreateEvent::Failed { error, .. })
        | (CreateStage::PreparingWorkspace, CreateEvent::Failed { error, .. })
        | (CreateStage::PreparingRun, CreateEvent::Failed { error, .. })
        | (CreateStage::Snapshotting, CreateEvent::Failed { error, .. }) => (CreateStage::Failed, CreateAction::Fail(error)),
        _ => (stage, CreateAction::Ignore),
    }
}

fn opt_as_str(o: &Option<String>) -> (r: Option<&str>)
    ensures
        opt_str_view(r) == opt_string_view(*o),
{
    match o {
        Some(s) => Some(s.as_str()),
        None => None,
    }
}

/// A command without its own timeout gets the sandbox policy's.
pub fn exec_timeout(requested_ms: Option<u64>, policy: &ExecutionPolicy) -> (t: Option<u64>)
    ensures
        t == match requested_ms {
            Some(ms) => Some(ms),
            None => policy.timeout_ms,
        },
{
    match requested_ms {
        Some(ms) => Some(ms),
        None => policy.timeout_ms,
    }
}

/// One command at a time runs in a sandbox; a second one is refused.
pub fn exec_gate(slot_free: bool) -> (r: Result<(), SandboxError>)
    ensures
        slot_free ==> r is Ok,
        !slot_free ==> (r matches Err(SandboxError::Conflict(m)) && m@ == "parallel exec is not supported for a running BOX"@),
{
    if slot_free {
        Ok(())
    } else {
        Err(SandboxError::conflict(owned("parallel exec is not supported for a running BOX")))
    }
}

/// A sandbox is idle when no command runs in it and nothing touched it for
/// at least the idle timeout; `since_activity_ms` is `None` while its
/// activity clock is being updated.
pub fn is_idle_for(command_running: bool, since_activity_ms: Option<u64>, idle_timeout_ms: u64) -> (r: bool)
    ensures
        r == (!command_running && match since_activity_ms {
            Some(ms) => ms >= idle_timeout_ms,
            None => false,
        }),
{
    if command_running {
        return false;
    }
    match since_activity_ms {
        Some(ms) => ms >= idle_timeout_ms,
        None => false,
    }
}

/// What the idle reaper knows of one active sandbox: its id, whether a
/// command runs in it, and how long ago it was last touched (`None` while
/// its activity clock is being updated).
pub struct IdleProbe {
    pub sandbox_id: u128,
    pub command_running: bool,
    pub since_activity_ms: Option<u64>,
}

pub open spec fn probe_idle(p: IdleProbe, idle_timeout_ms: u64) -> bool {
    !p.command_running && match p.since_activity_ms {
        Some(ms) => ms >= idle_timeout_ms,
        None => false,
    }
}

/// The ids of the idle sandboxes, in the order they were probed.
pub open spec fn idle_ids(probes: Seq<IdleProbe>, idle_timeout_ms: u64) -> Seq<u128>
    decreases probes.len(),
{
    if probes.len() == 0 {
        Seq::empty()
    } else {
        let rest = idle_ids(probes.drop_last(), idle_timeout_ms);
        if probe_idle(probes.last(), idle_timeout_ms) {
            rest.push(probes.last().sandbox_id)
        } else {
            rest
        }
    }
}

/// The sandboxes the idle reaper destroys: those idle for the timeout.
pub fn idle_candidates(probes: &Vec<IdleProbe>, idle_timeout_ms: u64) -> (r: Vec<u128>)
    ensures
        r@ == idle_ids(probes@, idle_timeout_ms),
{
    let mut ids: Vec<u128> = Vec::new();
    let mut i: usize = 0;
    while i < probes.len()
        invariant
            i <= probes@.len(),
            ids@ == idle_ids(probes@.subrange(0, i as int), idle_timeout_ms),
        decreases probes@.len() - i,
    {
        let ghost pre = probes@.subrange(0, i + 1);
        assert(pre.drop_last() =~= probes@.subrange(0, i as int));
        let p = &probes[i];
        if is_idle_for(p.command_running, p.since_activity_ms, idle_timeout_ms) {
            ids.push(p.sandbox_id);
        }
        i = i + 1;
    }
    assert(probes@.subrange(0, probes@.len() as int) =~= probes@);
    ids
}

/// Forwarding a command's events stops after its exit, or once nobody
/// listens any more.
pub fn keep_forwarding(delivered: bool, event: &crate::protocol::ExecutionEvent) -> (r: bool)
    ensures
        r == (delivered && !(*event is Exit)),
{
    match event {
        crate::protocol::ExecutionEvent::Exit { .. } => false,
        _ => delivered,
    }
}

} // verus!
