//! The daemon's own log: how a message becomes timestamped lines, the tail
//! of a log file, and the excerpt of a VM log that follows a failed launch.

use vstd::prelude::*;
use crate::runtime::keep_last;
use crate::text::{
    chars_of, concat_chars, decimal, decimal_exec, join, join_exec, lines, lines_of, string_of,
    trim, trim_chars, views,
};
use crate::protocol::strs;

verus! {

/// The last `max_lines` lines of `text`, joined by `'\n'`.
pub open spec fn tail(text: Seq<char>, max_lines: nat) -> Seq<char> {
    join(keep_last(lines(text), max_lines), seq!['\n'])
}

/// Keeps the last `max_lines` lines of a log text; no lines for zero.
pub fn tail_lines(text: &str, max_lines: usize) -> (r: String)
    ensures
        r@ == tail(text@, max_lines as nat),
{
    let ls = lines_of(&chars_of(text));
    let n = ls.len();
    let start: usize = if n <= max_lines { 0 } else { n - max_lines };
    let mut kept: Vec<Vec<char>> = Vec::new();
    let mut i: usize = start;
    while i < n
        invariant
            n == ls@.len(),
            start <= i <= n,
            views(kept@) == views(ls@).subrange(start as int, i as int),
        decreases n - i,
    {
        let piece = concat_chars(&ls[i], &Vec::new());
        assert(piece@ =~= ls@[i as int]@);
        let ghost before = views(kept@);
        kept.push(piece);
        assert(views(kept@) =~= before.push(piece@));
        assert(views(ls@)[i as int] == ls@[i as int]@);
        assert(views(kept@) =~= views(ls@).subrange(start as int, i + 1));
        i = i + 1;
    }
    proof {
        let all = views(ls@);
        if all.len() <= max_lines {
            assert(all.subrange(0, all.len() as int) =~= all);
        }
    }
    let sep: Vec<char> = vec!['\n'];
    let out = join_exec(&kept, &sep);
    proof {
        assert(sep@ =~= seq!['\n']);
    }
    string_of(&out)
}

/// A tail never holds more lines than asked for, and they are the last
/// lines of the text, in order.
pub proof fn lemma_tail_is_last_lines(text: Seq<char>, max_lines: nat)
    ensures
        keep_last(lines(text), max_lines).len() <= max_lines,
        keep_last(lines(text), max_lines) == lines(text).subrange(
            lines(text).len() - keep_last(lines(text), max_lines).len(),
            lines(text).len() as int,
        ),
        max_lines == 0 ==> tail(text, max_lines) == Seq::<char>::empty(),
{
    let ls = lines(text);
    if ls.len() <= max_lines {
        assert(ls.subrange(0, ls.len() as int) =~= ls);
        if max_lines == 0 {
            assert(ls.len() == 0);
        }
    }
}

/// One log line: `[timestamp] [component] text`.
pub open spec fn log_line(timestamp_ms: nat, component: Seq<char>, line: Seq<char>) -> Seq<char> {
    seq!['['] + decimal(timestamp_ms) + "] ["@ + component + "] "@ + line
}

/// The lines written for a message: one per line of the message, or a bare
/// `[timestamp] [component]` when it has none.
pub open spec fn log_lines(timestamp_ms: nat, component: Seq<char>, message: Seq<char>) -> Seq<Seq<char>> {
    if lines(message).len() == 0 {
        seq![seq!['['] + decimal(timestamp_ms) + "] ["@ + component + seq![']']]
    } else {
        lines(message).map_values(|l: Seq<char>| log_line(timestamp_ms, component, l))
    }
}

fn cat3(a: &Vec<char>, b: &Vec<char>, c: &Vec<char>) -> (r: Vec<char>)
    ensures
        r@ == a@ + b@ + c@,
{
    concat_chars(&concat_chars(a, b), c)
}

/// Formats a message for the daemon log (see `log_lines`).
pub fn format_log_lines(timestamp_ms: u64, component: &str, message: &str) -> (r: Vec<String>)
    ensures
        strs(r@) == log_lines(timestamp_ms as nat, component@, message@),
{
    let open_bracket: Vec<char> = vec!['['];
    let head = cat3(&open_bracket, &decimal_exec(timestamp_ms), &concat_chars(&chars_of("] ["), &chars_of(component)));
    let ls = lines_of(&chars_of(message));
    let mut out: Vec<String> = Vec::new();
    if ls.len() == 0 {
        let close: Vec<char> = vec![']'];
        let only = concat_chars(&head, &close);
        out.push(string_of(&only));
        proof {
            assert(only@ =~= seq!['['] + decimal(timestamp_ms as nat) + "] ["@ + component@ + seq![']']);
            assert(strs(out@) =~= log_lines(timestamp_ms as nat, component@, message@));
        }
        return out;
    }
    let n = ls.len();
    let mut i: usize = 0;
    while i < n
        invariant
            n == ls@.len(),
            i <= n,
            views(ls@) == lines(message@),
            head@ == seq!['['] + decimal(timestamp_ms as nat) + "] ["@ + component@,
            strs(out@) == lines(message@).subrange(0, i as int).map_values(
                |l: Seq<char>| log_line(timestamp_ms as nat, component@, l),
            ),
        decreases n - i,
    {
        let line = cat3(&head, &chars_of("] "), &ls[i]);
        let ghost before = strs(out@);
        out.push(string_of(&line));
        proof {
            assert(strs(out@) =~= before.push(line@));
            assert(lines(message@).subrange(0, i + 1).map_values(
                |l: Seq<char>| log_line(timestamp_ms as nat, component@, l),
            ) =~= lines(message@).subrange(0, i as int).map_values(
                |l: Seq<char>| log_line(timestamp_ms as nat, component@, l),
            ).push(log_line(timestamp_ms as nat, component@, lines(message@)[i as int])));
            assert(views(ls@)[i as int] == ls@[i as int]@);
            assert(line@ =~= log_line(timestamp_ms as nat, component@, lines(message@)[i as int]));
            assert(strs(out@) =~= lines(message@).subrange(0, i + 1).map_values(
                |l: Seq<char>| log_line(timestamp_ms as nat, component@, l),
            ));
        }
        i = i + 1;
    }
    proof {
        assert(lines(message@).subrange(0, n as int) =~= lines(message@));
    }
    out
}

/// What reading a VM log for an excerpt gave.
pub enum ExcerptRead {
    /// The tail of the log.
    Text(String),
    /// The file does not exist.
    Missing,
    /// Reading failed with this error text.
    Failed(String),
}

/// The messages logged for the excerpt of a VM log after a failed launch.
pub open spec fn excerpt_messages(label: Seq<char>, path: Seq<char>, max_lines: nat, read: ExcerptRead) -> Seq<Seq<char>> {
    match read {
        ExcerptRead::Text(t) => if trim(t@).len() == 0 {
            seq![label + " log is empty path="@ + path]
        } else {
            seq![label + " log excerpt path="@ + path + " tail_lines="@ + decimal(max_lines)]
                + lines(t@).map_values(|l: Seq<char>| label + " | "@ + l)
        },
        ExcerptRead::Missing => seq![label + " log is missing path="@ + path],
        ExcerptRead::Failed(e) => seq!["failed to read "@ + label + " log path="@ + path + " error="@ + e@],
    }
}

/// Builds the messages of a log excerpt (see `excerpt_messages`).
pub fn file_excerpt_messages(label: &str, path: &str, max_lines: u64, read: &ExcerptRead) -> (r: Vec<String>)
    ensures
        strs(r@) == excerpt_messages(label@, path@, max_lines as nat, *read),
{
    let lab = chars_of(label);
    let p = chars_of(path);
    let mut out: Vec<String> = Vec::new();
    match read {
        ExcerptRead::Text(t) => {
            let tc = chars_of(t.as_str());
            if trim_chars(&tc).len() == 0 {
                let m = cat3(&lab, &chars_of(" log is empty path="), &p);
                out.push(string_of(&m));
                proof {
                    assert(strs(out@) =~= excerpt_messages(label@, path@, max_lines as nat, *read));
                }
                return out;
            }
            let m = cat3(&cat3(&lab, &chars_of(" log excerpt path="), &p), &chars_of(" tail_lines="), &decimal_exec(max_lines));
            out.push(string_of(&m));
            let ls = lines_of(&tc);
            let n = ls.len();
            let mut i: usize = 0;
            while i < n
                invariant
                    n == ls@.len(),
                    i <= n,
                    lab@ == label@,
                    views(ls@) == lines(t@),
                    strs(out@) == seq![m@] + lines(t@).subrange(0, i as int).map_values(
                        |l: Seq<char>| label@ + " | "@ + l,
                    ),
                decreases n - i,
            {
                let line = cat3(&lab, &chars_of(" | "), &ls[i]);
                let ghost before = strs(out@);
                out.push(string_of(&line));
                proof {
                    assert(strs(out@) =~= before.push(line@));
                    assert(lines(t@).subrange(0, i + 1).map_values(
                        |l: Seq<char>| label@ + " | "@ + l,
                    ) =~= lines(t@).subrange(0, i as int).map_values(
                        |l: Seq<char>| label@ + " | "@ + l,
                    ).push(label@ + " | "@ + lines(t@)[i as int]));
                    assert(views(ls@)[i as int] == ls@[i as int]@);
                    assert(strs(out@) =~= seq![m@] + lines(t@).subrange(0, i + 1).map_values(
                        |l: Seq<char>| label@ + " | "@ + l,
                    ));
                }
                i = i + 1;
            }
            proof {
                assert(lines(t@).subrange(0, n as int) =~= lines(t@));
                assert(m@ =~= label@ + " log excerpt path="@ + path@ + " tail_lines="@ + decimal(max_lines as nat));
            }
            out
        },
        ExcerptRead::Missing => {
            let m = cat3(&lab, &chars_of(" log is missing path="), &p);
            out.push(string_of(&m));
            proof {
                assert(strs(out@) =~= excerpt_messages(label@, path@, max_lines as nat, *read));
            }
            out
        },
        ExcerptRead::Failed(e) => {
            let m = cat3(&cat3(&chars_of("failed to read "), &lab, &chars_of(" log path=")), &concat_chars(&p, &chars_of(" error=")), &chars_of(e.as_str()));
            out.push(string_of(&m));
            proof {
                assert(m@ =~= "failed to read "@ + label@ + " log path="@ + path@ + " error="@ + e@);
                assert(strs(out@) =~= excerpt_messages(label@, path@, max_lines as nat, *read));
            }
            out
        },
    }
}

} // verus!
