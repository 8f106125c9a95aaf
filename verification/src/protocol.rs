//! Commands run in a guest, their output and how they ended.

use vstd::prelude::*;
use crate::text::owned;

verus! {

#[derive(Debug, Clone, Copy, PartialEq, Eq, Structural)]
pub enum OutputStream {
    Stdout,
    Stderr,
}

/// How a command ended.
#[derive(Debug, Clone, Copy, PartialEq, Eq, Structural)]
pub enum ExecExit {
    Success,
    ExitCode(i32),
    Timeout,
    Killed,
}

/// A command for the guest agent: the program, its arguments, working
/// directory and environment, an optional timeout, and how long to wait
/// after a termination request before killing it.
#[derive(Debug)]
pub struct ExecRequest {
    pub program: String,
    pub args: Vec<String>,
    pub cwd: String,
    pub env: Vec<(String, String)>,
    pub timeout_ms: Option<u64>,
    pub kill_grace_ms: u64,
}

/// An interactive shell for the guest agent.
#[derive(Debug)]
pub struct ShellRequest {
    pub program: String,
    pub args: Vec<String>,
    pub cwd: String,
    pub env: Vec<(String, String)>,
}

/// The views of a list of strings.
pub open spec fn strs(v: Seq<String>) -> Seq<Seq<char>> {
    v.map_values(|s: String| s@)
}

/// The views of a list of string pairs.
pub open spec fn pairs(v: Seq<(String, String)>) -> Seq<(Seq<char>, Seq<char>)> {
    v.map_values(|p: (String, String)| (p.0@, p.1@))
}

impl ExecRequest {
    /// A bash command line, run as `/bin/bash -lc <command>` in `/workspace`.
    pub fn shell(command: String) -> (r: ExecRequest)
        ensures
            r.program@ == "/bin/bash"@,
            strs(r.args@) == seq!["-lc"@, command@],
            r.cwd@ == "/workspace"@,
            r.env@.len() == 0,
            r.timeout_ms is None,
            r.kill_grace_ms == 250,
    {
        let mut args: Vec<String> = Vec::new();
        args.push(owned("-lc"));
        args.push(command);
        let r = ExecRequest {
            program: owned("/bin/bash"),
            args,
            cwd: owned("/workspace"),
            env: Vec::new(),
            timeout_ms: None,
            kill_grace_ms: 250,
        };
        assert(strs(r.args@) =~= seq!["-lc"@, r.args@[1]@]);
        r
    }
}

impl ShellRequest {
    /// An interactive login bash in `/workspace`.
    pub fn default() -> (r: ShellRequest)
        ensures
            r.program@ == "/bin/bash"@,
            strs(r.args@) == seq!["-l"@],
            r.cwd@ == "/workspace"@,
            r.env@.len() == 0,
    {
        let mut args: Vec<String> = Vec::new();
        args.push(owned("-l"));
        let r = ShellRequest {
            program: owned("/bin/bash"),
            args,
            cwd: owned("/workspace"),
            env: Vec::new(),
        };
        assert(strs(r.args@) =~= seq!["-l"@]);
        r
    }
}

/// An event of a running command.
#[derive(Debug)]
pub enum ExecutionEvent {
    Output { stream: OutputStream, data: Vec<u8> },
    Exit { status: ExecExit },
}

/// An event of an interactive shell.
#[derive(Debug)]
pub enum ShellEvent {
    Started,
    Output(Vec<u8>),
    Exit(i32),
}

/// The exit code a status carries: 0 on success, the code when the command
/// exited with one, none when it timed out or was killed.
pub open spec fn status_code(status: ExecExit) -> Option<i32> {
    match status {
        ExecExit::Success => Some(0),
        ExecExit::ExitCode(c) => Some(c),
        ExecExit::Timeout | ExecExit::Killed => None,
    }
}

pub fn exit_code(status: &ExecExit) -> (r: Option<i32>)
    ensures
        r == status_code(*status),
{
    match status {
        ExecExit::Success => Some(0),
        ExecExit::ExitCode(code) => Some(*code),
        ExecExit::Timeout | ExecExit::Killed => None,
    }
}

/// A finished command: how it ended, its exit code, and its output, both
/// interleaved and per stream.
#[derive(Debug)]
pub struct CompletedExecution {
    pub exit_status: ExecExit,
    pub exit_code: Option<i32>,
    pub output: Vec<u8>,
    pub stdout: Vec<u8>,
    pub stderr: Vec<u8>,
}

/// The output of the events of a command, in order, and that of one stream.
pub open spec fn all_output(events: Seq<ExecutionEvent>) -> Seq<u8>
    decreases events.len(),
{
    if events.len() == 0 {
        Seq::empty()
    } else {
        all_output(events.drop_last()) + match events.last() {
            ExecutionEvent::Output { data, .. } => data@,
            ExecutionEvent::Exit { .. } => Seq::empty(),
        }
    }
}

pub open spec fn stream_output(events: Seq<ExecutionEvent>, s: OutputStream) -> Seq<u8>
    decreases events.len(),
{
    if events.len() == 0 {
        Seq::empty()
    } else {
        stream_output(events.drop_last(), s) + match events.last() {
            ExecutionEvent::Output { stream, data } => if stream == s {
                data@
            } else {
                Seq::empty()
            },
            ExecutionEvent::Exit { .. } => Seq::empty(),
        }
    }
}

/// The status of the last exit event, `Killed` when there is none.
pub open spec fn final_status(events: Seq<ExecutionEvent>) -> ExecExit
    decreases events.len(),
{
    if events.len() == 0 {
        ExecExit::Killed
    } else {
        match events.last() {
            ExecutionEvent::Exit { status } => status,
            _ => final_status(events.drop_last()),
        }
    }
}

/// A command's collected result while its events arrive.
impl CompletedExecution {
    /// Nothing received yet: no output, and killed unless an exit arrives.
    pub fn empty() -> (c: CompletedExecution)
        ensures
            c.exit_status == ExecExit::Killed,
            c.exit_code == status_code(c.exit_status),
            c.output@.len() == 0,
            c.stdout@.len() == 0,
            c.stderr@.len() == 0,
    {
        CompletedExecution {
            exit_status: ExecExit::Killed,
            exit_code: None,
            output: Vec::new(),
            stdout: Vec::new(),
            stderr: Vec::new(),
        }
    }

    /// Takes in one event: output is appended to the interleaved output and
    /// to its stream; an exit sets the status and the exit code.
    pub fn record(&mut self, event: ExecutionEvent)
        ensures
            match event {
                ExecutionEvent::Output { stream, data } => {
                    &&& final(self).output@ == old(self).output@ + data@
                    &&& final(self).stdout@ == old(self).stdout@ + (if stream == OutputStream::Stdout {
                        data@
                    } else {
                        Seq::empty()
                    })
                    &&& final(self).stderr@ == old(self).stderr@ + (if stream == OutputStream::Stderr {
                        data@
                    } else {
                        Seq::empty()
                    })
                    &&& final(self).exit_status == old(self).exit_status
                    &&& final(self).exit_code == old(self).exit_code
                },
                ExecutionEvent::Exit { status } => {
                    &&& final(self).output@ == old(self).output@
                    &&& final(self).stdout@ == old(self).stdout@
                    &&& final(self).stderr@ == old(self).stderr@
                    &&& final(self).exit_status == status
                    &&& final(self).exit_code == status_code(status)
                },
            },
    {
        match event {
            ExecutionEvent::Output { stream, data } => {
                let mut i: usize = 0;
                let ghost o0 = self.output@;
                let ghost s0 = self.stdout@;
                let ghost e0 = self.stderr@;
                while i < data.len()
                    invariant
                        i <= data@.len(),
                        self.output@ == o0 + data@.subrange(0, i as int),
                        stream == OutputStream::Stdout ==> self.stdout@ == s0 + data@.subrange(0, i as int) && self.stderr@ == e0,
                        stream == OutputStream::Stderr ==> self.stderr@ == e0 + data@.subrange(0, i as int) && self.stdout@ == s0,
                        self.exit_status == old(self).exit_status,
                        self.exit_code == old(self).exit_code,
                    decreases data@.len() - i,
                {
                    let b = data[i];
                    self.output.push(b);
                    match stream {
                        OutputStream::Stdout => self.stdout.push(b),
                        OutputStream::Stderr => self.stderr.push(b),
                    }
                    i = i + 1;
                    assert(self.output@ =~= o0 + data@.subrange(0, i as int));
                    assert(stream == OutputStream::Stdout ==> self.stdout@ =~= s0 + data@.subrange(0, i as int));
                    assert(stream == OutputStream::Stderr ==> self.stderr@ =~= e0 + data@.subrange(0, i as int));
                }
                assert(data@.subrange(0, data@.len() as int) =~= data@);
                assert(s0 + Seq::<u8>::empty() =~= s0);
                assert(e0 + Seq::<u8>::empty() =~= e0);
            },
            ExecutionEvent::Exit { status } => {
                self.exit_code = exit_code(&status);
                self.exit_status = status;
            },
        }
    }
}

/// Collects a command's events, in order, into its result.
pub fn collect(events: Vec<ExecutionEvent>) -> (c: CompletedExecution)
    ensures
        c.output@ == all_output(events@),
        c.stdout@ == stream_output(events@, OutputStream::Stdout),
        c.stderr@ == stream_output(events@, OutputStream::Stderr),
        c.exit_status == final_status(events@),
        c.exit_code == status_code(final_status(events@)),
{
    let mut c = CompletedExecution::empty();
    let mut events = events;
    let ghost all = events@;
    let mut rest: Vec<ExecutionEvent> = Vec::new();
    // events are taken from the back, so reverse them first
    let n = events.len();
    while events.len() > 0
        invariant
            all.len() == n,
            events@.len() + rest@.len() == n,
            events@ == all.subrange(0, events@.len() as int),
            forall|j: int| 0 <= j < rest@.len() ==> rest@[j] == all[n - 1 - j],
        decreases events@.len(),
    {
        let e = events.pop().unwrap();
        rest.push(e);
        assert(events@ =~= all.subrange(0, events@.len() as int));
    }
    let mut k: usize = 0;
    assert(all.subrange(0, 0) =~= Seq::<ExecutionEvent>::empty());
    while rest.len() > 0
        invariant
            all.len() == n,
            k + rest@.len() == n,
            forall|j: int| 0 <= j < rest@.len() ==> rest@[j] == all[n - 1 - j],
            c.output@ == all_output(all.subrange(0, k as int)),
            c.stdout@ == stream_output(all.subrange(0, k as int), OutputStream::Stdout),
            c.stderr@ == stream_output(all.subrange(0, k as int), OutputStream::Stderr),
            c.exit_status == final_status(all.subrange(0, k as int)),
            c.exit_code == status_code(c.exit_status),
        decreases rest@.len(),
    {
        let ghost before = all.subrange(0, k as int);
        let e = rest.pop().unwrap();
        assert(e == all[k as int]);
        c.record(e);
        k = k + 1;
        proof {
            let now = all.subrange(0, k as int);
            assert(now.drop_last() =~= before);
            assert(now.last() == e);
        }
    }
    assert(all.subrange(0, n as int) =~= all);
    c
}

/// The interleaved output of a command is as long as its two streams
/// together.
pub proof fn lemma_output_is_both_streams(events: Seq<ExecutionEvent>)
    ensures
        all_output(events).len() == stream_output(events, OutputStream::Stdout).len()
            + stream_output(events, OutputStream::Stderr).len(),
    decreases events.len(),
{
    if events.len() > 0 {
        lemma_output_is_both_streams(events.drop_last());
    }
}

} // verus!
