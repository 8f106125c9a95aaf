//! Paths held as text, joined the way `Path::join` joins them on Unix.

use vstd::prelude::*;
use crate::text::{chars_of, chars_eq, concat_chars, split_all, split_all_exec, string_of, views};

verus! {

/// `base.join(part)`: an absolute `part` replaces `base`; otherwise the two
/// are joined with one `'/'` between them.
pub open spec fn path_join(base: Seq<char>, part: Seq<char>) -> Seq<char> {
    if part.len() > 0 && part[0] == '/' {
        part
    } else if base.len() == 0 {
        part
    } else if base.last() == '/' {
        base + part
    } else {
        base + seq!['/'] + part
    }
}

pub fn join_path(base: &str, part: &str) -> (r: String)
    ensures
        r@ == path_join(base@, part@),
{
    let b = chars_of(base);
    let p = chars_of(part);
    if p.len() > 0 && p[0] == '/' {
        return string_of(&p);
    }
    if b.len() == 0 {
        return string_of(&p);
    }
    if b[b.len() - 1] == '/' {
        return string_of(&concat_chars(&b, &p));
    }
    let slash: Vec<char> = vec!['/'];
    let r = concat_chars(&concat_chars(&b, &slash), &p);
    proof {
        assert(slash@ =~= seq!['/']);
    }
    string_of(&r)
}

/// The parts of a path that are neither empty nor `.`.
pub open spec fn normal_parts(segs: Seq<Seq<char>>) -> Seq<Seq<char>>
    decreases segs.len(),
{
    if segs.len() == 0 {
        Seq::empty()
    } else {
        let rest = normal_parts(segs.drop_last());
        if segs.last().len() == 0 || segs.last() == seq!['.'] {
            rest
        } else {
            rest.push(segs.last())
        }
    }
}

/// `Path::components` of a relative or absolute Unix path: the root (`/`)
/// or a leading current directory (`.`), then the named parts; repeated
/// separators and inner `.` parts are dropped.
pub open spec fn components(p: Seq<char>) -> Seq<Seq<char>> {
    let segs = split_all(p, seq!['/']);
    let head = if p.len() > 0 && p[0] == '/' {
        seq![seq!['/']]
    } else if segs.len() > 0 && segs[0] == seq!['.'] {
        seq![seq!['.']]
    } else {
        Seq::empty()
    };
    head + normal_parts(segs)
}

/// A tar member path names `expected`, as it is or behind a leading `./`.
pub open spec fn member_matches(actual: Seq<char>, expected: Seq<char>) -> bool {
    let a = components(actual);
    a == components(expected) || (a.len() > 0 && a[0] == seq!['.'] && a.drop_first() == components(expected))
}

pub fn path_components(p: &str) -> (r: Vec<Vec<char>>)
    ensures
        views(r@) == components(p@),
{
    let pc = chars_of(p);
    let slash: Vec<char> = vec!['/'];
    let dot: Vec<char> = vec!['.'];
    assert(slash@ =~= seq!['/']);
    assert(dot@ =~= seq!['.']);
    let segs = split_all_exec(&pc, &slash);
    let mut out: Vec<Vec<char>> = Vec::new();
    if pc.len() > 0 && pc[0] == '/' {
        out.push(vec!['/']);
    } else if segs.len() > 0 && chars_eq(&segs[0], &dot) {
        out.push(vec!['.']);
    }
    let ghost head = views(out@);
    assert(head =~= if p@.len() > 0 && p@[0] == '/' {
        seq![seq!['/']]
    } else if views(segs@).len() > 0 && views(segs@)[0] == seq!['.'] {
        seq![seq!['.']]
    } else {
        Seq::empty()
    });
    let n = segs.len();
    let mut i: usize = 0;
    while i < n
        invariant
            n == segs@.len(),
            i <= n,
            dot@ == seq!['.'],
            views(out@) == head + normal_parts(views(segs@).subrange(0, i as int)),
        decreases n - i,
    {
        let ghost pre = views(segs@).subrange(0, i + 1);
        assert(pre.drop_last() =~= views(segs@).subrange(0, i as int));
        assert(pre.last() == segs@[i as int]@);
        if segs[i].len() > 0 && !chars_eq(&segs[i], &dot) {
            let piece = concat_chars(&segs[i], &Vec::new());
            let ghost before = views(out@);
            out.push(piece);
            assert(views(out@) =~= before.push(piece@));
        }
        i = i + 1;
    }
    assert(views(segs@).subrange(0, n as int) =~= views(segs@));
    out
}

fn same_parts(a: &Vec<Vec<char>>, from: usize, b: &Vec<Vec<char>>) -> (r: bool)
    requires
        from <= a@.len(),
    ensures
        r == (views(a@).subrange(from as int, a@.len() as int) == views(b@)),
{
    let n = a.len();
    if n - from != b.len() {
        assert(views(a@).subrange(from as int, n as int).len() != views(b@).len());
        return false;
    }
    let mut i: usize = 0;
    while i < b.len()
        invariant
            n == a@.len(),
            from <= n,
            n - from == b@.len(),
            i <= b@.len(),
            forall|j: int| 0 <= j < i ==> views(a@)[from + j] == views(b@)[j],
        decreases b@.len() - i,
    {
        if !chars_eq(&a[from + i], &b[i]) {
            assert(views(a@).subrange(from as int, n as int)[i as int] != views(b@)[i as int]);
            return false;
        }
        i = i + 1;
    }
    assert(views(a@).subrange(from as int, n as int) =~= views(b@));
    true
}

/// Whether a tar member path names `expected` (see `member_matches`).
pub fn archive_member_matches(actual: &str, expected: &str) -> (r: bool)
    ensures
        r == member_matches(actual@, expected@),
{
    let a = path_components(actual);
    let e = path_components(expected);
    if same_parts(&a, 0, &e) {
        assert(views(a@).subrange(0, a@.len() as int) =~= views(a@));
        return true;
    }
    assert(views(a@).subrange(0, a@.len() as int) =~= views(a@));
    let dot: Vec<char> = vec!['.'];
    assert(dot@ =~= seq!['.']);
    if a.len() > 0 && chars_eq(&a[0], &dot) {
        assert(views(a@).drop_first() =~= views(a@).subrange(1, a@.len() as int));
        return same_parts(&a, 1, &e);
    }
    false
}

/// The absolute path inside an ext4 image of a path relative to the root
/// directory being copied: `/` then the path with `\\` turned into `/`.
pub open spec fn image_path(relative: Seq<char>) -> Seq<char> {
    seq!['/'] + relative.map_values(|c: char| if c == '\\' { '/' } else { c })
}

pub fn ext4_path(relative: &str) -> (r: String)
    ensures
        r@ == image_path(relative@),
{
    let rc = chars_of(relative);
    let mut out: Vec<char> = vec!['/'];
    let n = rc.len();
    let mut i: usize = 0;
    while i < n
        invariant
            n == rc@.len(),
            rc@ == relative@,
            i <= n,
            out@ == seq!['/'] + relative@.subrange(0, i as int).map_values(|c: char| if c == '\\' { '/' } else { c }),
        decreases n - i,
    {
        let c = rc[i];
        out.push(if c == '\\' { '/' } else { c });
        assert(out@ =~= seq!['/'] + relative@.subrange(0, i + 1).map_values(|c: char| if c == '\\' { '/' } else { c }));
        i = i + 1;
    }
    assert(relative@.subrange(0, n as int) =~= relative@);
    string_of(&out)
}

} // verus!
