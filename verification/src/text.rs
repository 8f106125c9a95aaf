//! Text helpers over sequences of `char`, with the meaning of the std
//! string operations the daemon relies on (`trim`, `lines`, `contains`,
//! `starts_with`, `split_once`).

use vstd::prelude::*;
use vstd::string::*;

verus! {

/// `char::is_whitespace`: the Unicode `White_Space` property.
pub open spec fn is_ws(c: char) -> bool {
    let u = c as u32;
    ||| u == 0x20 || (0x09 <= u && u <= 0x0D)
    ||| u == 0x85 || u == 0xA0 || u == 0x1680
    ||| (0x2000 <= u && u <= 0x200A)
    ||| u == 0x2028 || u == 0x2029 || u == 0x202F || u == 0x205F || u == 0x3000
}

pub fn is_whitespace(c: char) -> (r: bool)
    ensures
        r == is_ws(c),
{
    let u = c as u32;
    u == 0x20 || (0x09 <= u && u <= 0x0D) || u == 0x85 || u == 0xA0 || u == 0x1680 || (0x2000
        <= u && u <= 0x200A) || u == 0x2028 || u == 0x2029 || u == 0x202F || u == 0x205F || u
        == 0x3000
}

/// The characters of a string slice, in order.
pub fn chars_of(s: &str) -> (v: Vec<char>)
    ensures
        v@ == s@,
{
    let n = s.unicode_len();
    let mut v: Vec<char> = Vec::new();
    let mut i: usize = 0;
    while i < n
        invariant
            n == s@.len(),
            i <= n,
            v@ == s@.subrange(0, i as int),
        decreases n - i,
    {
        let c = s.get_char(i);
        v.push(c);
        i = i + 1;
        assert(v@ =~= s@.subrange(0, i as int));
    }
    assert(v@ =~= s@);
    v
}

/// Appends one character to a `String` (`String::push`).
#[verifier::external_body]
fn push_char(s: &mut String, c: char)
    ensures
        final(s)@ == old(s)@.push(c),
{
    s.push(c)
}

/// A `String` holding exactly the given characters.
pub fn string_of(v: &[char]) -> (s: String)
    ensures
        s@ == v@,
{
    let mut s = String::new();
    let mut i: usize = 0;
    while i < v.len()
        invariant
            i <= v@.len(),
            s@ == v@.subrange(0, i as int),
        decreases v@.len() - i,
    {
        push_char(&mut s, v[i]);
        i = i + 1;
        assert(s@ =~= v@.subrange(0, i as int));
    }
    assert(s@ =~= v@);
    s
}

/// Leading whitespace removed (`str::trim_start`).
pub open spec fn trim_start(s: Seq<char>) -> Seq<char>
    decreases s.len(),
{
    if s.len() > 0 && is_ws(s[0]) {
        trim_start(s.drop_first())
    } else {
        s
    }
}

/// Trailing whitespace removed (`str::trim_end`).
pub open spec fn trim_end(s: Seq<char>) -> Seq<char>
    decreases s.len(),
{
    if s.len() > 0 && is_ws(s.last()) {
        trim_end(s.drop_last())
    } else {
        s
    }
}

/// Whitespace removed at both ends (`str::trim`).
pub open spec fn trim(s: Seq<char>) -> Seq<char> {
    trim_end(trim_start(s))
}

proof fn lemma_trim_start_step(s: Seq<char>, i: int)
    requires
        0 <= i < s.len(),
        is_ws(s[i]),
    ensures
        trim_start(s.subrange(i, s.len() as int)) == trim_start(s.subrange(i + 1, s.len() as int)),
{
    assert(s.subrange(i, s.len() as int).drop_first() =~= s.subrange(i + 1, s.len() as int));
}

proof fn lemma_trim_end_step(s: Seq<char>, j: int)
    requires
        0 < j <= s.len(),
        is_ws(s[j - 1]),
    ensures
        trim_end(s.subrange(0, j)) == trim_end(s.subrange(0, j - 1)),
{
    assert(s.subrange(0, j).drop_last() =~= s.subrange(0, j - 1));
}

pub fn trim_chars(s: &[char]) -> (r: Vec<char>)
    ensures
        r@ == trim(s@),
{
    let n = s.len();
    let mut i: usize = 0;
    assert(s@.subrange(0, n as int) =~= s@);
    while i < n && is_whitespace(s[i])
        invariant
            n == s@.len(),
            i <= n,
            trim_start(s@) == trim_start(s@.subrange(i as int, n as int)),
        decreases n - i,
    {
        proof {
            lemma_trim_start_step(s@, i as int);
        }
        i = i + 1;
    }
    proof {
        assert(s@.subrange(0, n as int) =~= s@);
    }
    let ghost t = s@.subrange(i as int, n as int);
    assert(trim_start(t) == t) by {
        if t.len() > 0 {
            assert(t[0] == s@[i as int]);
        }
    }
    let mut j: usize = n;
    assert(t.subrange(0, (n - i) as int) =~= t);
    while j > i && is_whitespace(s[j - 1])
        invariant
            n == s@.len(),
            i <= j <= n,
            t == s@.subrange(i as int, n as int),
            trim_end(t) == trim_end(t.subrange(0, (j - i) as int)),
        decreases j,
    {
        proof {
            assert(t[(j - i) - 1] == s@[j - 1]);
            lemma_trim_end_step(t, (j - i) as int);
        }
        j = j - 1;
    }
    let mut r: Vec<char> = Vec::new();
    let mut k: usize = i;
    while k < j
        invariant
            i <= k <= j <= n,
            n == s@.len(),
            r@ == s@.subrange(i as int, k as int),
        decreases j - k,
    {
        r.push(s[k]);
        k = k + 1;
        assert(r@ =~= s@.subrange(i as int, k as int));
    }
    proof {
        let u = t.subrange(0, (j - i) as int);
        assert(u =~= s@.subrange(i as int, j as int));
        if u.len() > 0 {
            assert(u.last() == s@[j - 1]);
        }
        assert(trim_end(u) == u);
    }
    r
}


/// The views of a vector of character vectors.
pub open spec fn views(v: Seq<Vec<char>>) -> Seq<Seq<char>> {
    v.map_values(|x: Vec<char>| x@)
}

/// `p` occurs in `s` at position `i`.
pub open spec fn occurs_at(s: Seq<char>, p: Seq<char>, i: int) -> bool {
    0 <= i && i + p.len() <= s.len() && s.subrange(i, i + p.len()) == p
}

/// `str::contains` with a string pattern.
pub open spec fn contains(s: Seq<char>, p: Seq<char>) -> bool {
    exists|i: int| occurs_at(s, p, i)
}

/// `str::starts_with` with a string pattern.
pub open spec fn starts_with(s: Seq<char>, p: Seq<char>) -> bool {
    occurs_at(s, p, 0)
}

pub fn occurs_at_exec(s: &[char], p: &[char], i: usize) -> (r: bool)
    ensures
        r == occurs_at(s@, p@, i as int),
{
    let n = s.len();
    let m = p.len();
    if i > n || m > n - i {
        return false;
    }
    let mut k: usize = 0;
    while k < m
        invariant
            n == s@.len(),
            m == p@.len(),
            i + m <= n,
            k <= m,
            forall|j: int| 0 <= j < k ==> s@[i + j] == p@[j],
        decreases m - k,
    {
        if s[i + k] != p[k] {
            assert(s@.subrange(i as int, i + p@.len())[k as int] != p@[k as int]);
            return false;
        }
        k = k + 1;
    }
    assert(s@.subrange(i as int, i + p@.len()) =~= p@);
    true
}

pub fn starts_with_exec(s: &[char], p: &[char]) -> (r: bool)
    ensures
        r == starts_with(s@, p@),
{
    occurs_at_exec(s, p, 0)
}

/// First position at or after `i` where `p` occurs, or -1.
pub open spec fn find_from(s: Seq<char>, p: Seq<char>, i: int) -> int
    decreases s.len() + 1 - i,
{
    if i < 0 || i > s.len() {
        -1
    } else if occurs_at(s, p, i) {
        i
    } else {
        find_from(s, p, i + 1)
    }
}

/// `str::find` with a string pattern (-1 for `None`).
pub open spec fn find(s: Seq<char>, p: Seq<char>) -> int {
    find_from(s, p, 0)
}

proof fn lemma_find_from(s: Seq<char>, p: Seq<char>, i: int)
    requires
        0 <= i <= s.len(),
    ensures
        find_from(s, p, i) == -1 ==> forall|j: int| i <= j ==> !occurs_at(s, p, j),
        find_from(s, p, i) != -1 ==> i <= find_from(s, p, i) && occurs_at(s, p, find_from(s, p, i))
            && forall|j: int| i <= j < find_from(s, p, i) ==> !occurs_at(s, p, j),
    decreases s.len() + 1 - i,
{
    if !occurs_at(s, p, i) && i + 1 <= s.len() {
        lemma_find_from(s, p, i + 1);
    } else if !occurs_at(s, p, i) {
        assert(find_from(s, p, i + 1) == -1);
    }
}

/// `find` gives the first place `p` occurs in `s`, or -1 when it does not occur.
pub proof fn lemma_find(s: Seq<char>, p: Seq<char>)
    ensures
        find(s, p) == -1 <==> !contains(s, p),
        find(s, p) != -1 ==> 0 <= find(s, p) && occurs_at(s, p, find(s, p)) && forall|j: int|
            0 <= j < find(s, p) ==> !occurs_at(s, p, j),
{
    lemma_find_from(s, p, 0);
}

/// Position of the first occurrence of `p` in `s`, if any.
pub fn find_exec(s: &[char], p: &[char]) -> (r: Option<usize>)
    ensures
        match r {
            Some(i) => i as int == find(s@, p@) && i as int >= 0,
            None => find(s@, p@) == -1,
        },
{
    let mut i: usize = 0;
    while i < s.len()
        invariant
            i <= s@.len(),
            find(s@, p@) == find_from(s@, p@, i as int),
        decreases s@.len() - i,
    {
        if occurs_at_exec(s, p, i) {
            return Some(i);
        }
        i = i + 1;
    }
    if occurs_at_exec(s, p, i) {
        return Some(i);
    }
    assert(find_from(s@, p@, i as int + 1) == -1);
    None
}

pub fn contains_exec(s: &[char], p: &[char]) -> (r: bool)
    ensures
        r == contains(s@, p@),
{
    proof {
        lemma_find(s@, p@);
    }
    find_exec(s, p).is_some()
}

/// `str::split_once` with a string pattern.
pub open spec fn split_once(s: Seq<char>, p: Seq<char>) -> Option<(Seq<char>, Seq<char>)> {
    let i = find(s, p);
    if i == -1 {
        None
    } else {
        Some((s.subrange(0, i), s.subrange(i + p.len(), s.len() as int)))
    }
}

/// Copy of `s[from..to]`.
pub fn slice_chars(s: &[char], from: usize, to: usize) -> (r: Vec<char>)
    requires
        from <= to <= s@.len(),
    ensures
        r@ == s@.subrange(from as int, to as int),
{
    let mut r: Vec<char> = Vec::new();
    let mut k = from;
    while k < to
        invariant
            from <= k <= to <= s@.len(),
            r@ == s@.subrange(from as int, k as int),
        decreases to - k,
    {
        r.push(s[k]);
        k = k + 1;
        assert(r@ =~= s@.subrange(from as int, k as int));
    }
    r
}

pub fn split_once_exec(s: &[char], p: &[char]) -> (r: Option<(Vec<char>, Vec<char>)>)
    ensures
        match r {
            Some((a, b)) => split_once(s@, p@) == Some((a@, b@)),
            None => split_once(s@, p@) is None,
        },
{
    proof {
        lemma_find(s@, p@);
    }
    match find_exec(s, p) {
        Some(i) => {
            let a = slice_chars(s, 0, i);
            let n = s.len();
            let b = slice_chars(s, i + p.len(), n);
            Some((a, b))
        },
        None => None,
    }
}


proof fn lemma_occurs_single(t: Seq<char>, c: char, j: int)
    ensures
        occurs_at(t, seq![c], j) <==> (0 <= j < t.len() && t[j] == c),
{
    if 0 <= j < t.len() && t[j] == c {
        assert(t.subrange(j, j + 1) =~= seq![c]);
    }
    if occurs_at(t, seq![c], j) {
        assert(t.subrange(j, j + 1)[0] == c);
    }
}

/// The first occurrence of the character `c` in `t` is at `k`.
pub proof fn lemma_find_char(t: Seq<char>, c: char, k: int)
    requires
        0 <= k < t.len(),
        t[k] == c,
        forall|j: int| 0 <= j < k ==> t[j] != c,
    ensures
        find(t, seq![c]) == k,
{
    lemma_find(t, seq![c]);
    lemma_occurs_single(t, c, k);
    let f = find(t, seq![c]);
    if f != -1 {
        lemma_occurs_single(t, c, f);
        if f > k {
            assert(!occurs_at(t, seq![c], k));
        }
    }
}

/// The character `c` does not occur in `t`.
pub proof fn lemma_find_char_none(t: Seq<char>, c: char)
    requires
        forall|j: int| 0 <= j < t.len() ==> t[j] != c,
    ensures
        find(t, seq![c]) == -1,
{
    lemma_find(t, seq![c]);
    let f = find(t, seq![c]);
    if f != -1 {
        lemma_occurs_single(t, c, f);
    }
}

/// A place `find` gives leaves room for the whole pattern.
pub proof fn lemma_find_bounds(s: Seq<char>, p: Seq<char>)
    ensures
        find(s, p) == -1 || (0 <= find(s, p) && find(s, p) + p.len() <= s.len()),
{
    lemma_find(s, p);
}

/// One line without its line ending: a `'\r'` before the `'\n'` is dropped.
pub open spec fn strip_cr(l: Seq<char>) -> Seq<char> {
    if l.len() > 0 && l.last() == '\r' {
        l.drop_last()
    } else {
        l
    }
}

/// `str::lines`: the text split at `'\n'` (and `"\r\n"`); a final line
/// ending does not start another line.
pub open spec fn lines(s: Seq<char>) -> Seq<Seq<char>>
    decreases s.len(),
{
    if s.len() == 0 {
        Seq::empty()
    } else {
        let p = find(s, seq!['\n']);
        if p == -1 {
            seq![s]
        } else {
            proof {
                lemma_find_bounds(s, seq!['\n']);
            }
            seq![strip_cr(s.subrange(0, p))] + lines(s.subrange(p + 1, s.len() as int))
        }
    }
}

pub fn strip_cr_exec(l: Vec<char>) -> (r: Vec<char>)
    ensures
        r@ == strip_cr(l@),
{
    let ghost l0 = l@;
    let mut l = l;
    let n = l.len();
    if n > 0 && l[n - 1] == '\r' {
        l.pop();
        assert(l@ =~= l0.drop_last());
    }
    l
}

/// The lines of `s` (`str::lines`).
pub fn lines_of(s: &[char]) -> (r: Vec<Vec<char>>)
    ensures
        views(r@) == lines(s@),
{
    let n = s.len();
    let mut out: Vec<Vec<char>> = Vec::new();
    let mut start: usize = 0;
    let mut i: usize = 0;
    assert(s@.subrange(0, n as int) =~= s@);
    assert(views(out@) =~= Seq::<Seq<char>>::empty());
    while i < n
        invariant
            n == s@.len(),
            start <= i <= n,
            lines(s@) == views(out@) + lines(s@.subrange(start as int, n as int)),
            forall|j: int| start <= j < i ==> s@[j] != '\n',
        decreases n - i,
    {
        if s[i] == '\n' {
            let ghost t = s@.subrange(start as int, n as int);
            proof {
                lemma_find_char(t, '\n', (i - start) as int);
                assert(t.subrange(0, (i - start) as int) =~= s@.subrange(start as int, i as int));
                assert(t.subrange((i - start) + 1, t.len() as int) =~= s@.subrange(
                    i + 1,
                    n as int,
                ));
            }
            let line = strip_cr_exec(slice_chars(s, start, i));
            let ghost before = views(out@);
            out.push(line);
            proof {
                assert(views(out@) =~= before.push(line@));
                assert(lines(t) == seq![line@] + lines(s@.subrange(i + 1, n as int)));
                assert(views(out@) + lines(s@.subrange(i + 1, n as int)) =~= before + lines(t));
            }
            start = i + 1;
        }
        i = i + 1;
    }
    if start < n {
        let ghost t = s@.subrange(start as int, n as int);
        proof {
            lemma_find_char_none(t, '\n');
        }
        let rest = slice_chars(s, start, n);
        let ghost before = views(out@);
        out.push(rest);
        proof {
            assert(views(out@) =~= before.push(rest@));
            assert(lines(t) == seq![t]);
        }
    } else {
        assert(s@.subrange(start as int, n as int).len() == 0);
    }
    assert(views(out@) =~= lines(s@));
    out
}

/// The pieces joined with `sep` between them (`[_]::join`).
pub open spec fn join(ls: Seq<Seq<char>>, sep: Seq<char>) -> Seq<char>
    decreases ls.len(),
{
    if ls.len() == 0 {
        Seq::empty()
    } else if ls.len() == 1 {
        ls[0]
    } else {
        join(ls.drop_last(), sep) + sep + ls.last()
    }
}

pub fn join_exec(ls: &Vec<Vec<char>>, sep: &[char]) -> (r: Vec<char>)
    ensures
        r@ == join(views(ls@), sep@),
{
    let mut r: Vec<char> = Vec::new();
    let mut i: usize = 0;
    while i < ls.len()
        invariant
            i <= ls@.len(),
            r@ == join(views(ls@.subrange(0, i as int)), sep@),
        decreases ls@.len() - i,
    {
        let ghost prev = views(ls@.subrange(0, i as int));
        if i > 0 {
            let mut k: usize = 0;
            let ghost r0 = r@;
            while k < sep.len()
                invariant
                    k <= sep@.len(),
                    r@ == r0 + sep@.subrange(0, k as int),
                decreases sep@.len() - k,
            {
                r.push(sep[k]);
                k = k + 1;
                assert(r@ =~= r0 + sep@.subrange(0, k as int));
            }
            assert(sep@.subrange(0, sep@.len() as int) =~= sep@);
        }
        let piece = &ls[i];
        let ghost r1 = r@;
        let mut k: usize = 0;
        while k < piece.len()
            invariant
                k <= piece@.len(),
                r@ == r1 + piece@.subrange(0, k as int),
            decreases piece@.len() - k,
        {
            r.push(piece[k]);
            k = k + 1;
            assert(r@ =~= r1 + piece@.subrange(0, k as int));
        }
        assert(piece@.subrange(0, piece@.len() as int) =~= piece@);
        i = i + 1;
        proof {
            let cur = views(ls@.subrange(0, i as int));
            assert(cur.drop_last() =~= prev);
            assert(cur.last() == piece@);
            if i == 1 {
                assert(cur =~= seq![piece@]);
                assert(r@ =~= piece@);
            }
        }
    }
    assert(ls@.subrange(0, ls@.len() as int) =~= ls@);
    r
}

/// `char::to_ascii_lowercase`.
pub open spec fn ascii_lower(c: char) -> char {
    if 'A' <= c && c <= 'Z' {
        ((c as u32) + 32) as char
    } else {
        c
    }
}

pub fn ascii_lower_exec(c: char) -> (r: char)
    ensures
        r == ascii_lower(c),
{
    if 'A' <= c && c <= 'Z' {
        ((c as u8) + 32) as char
    } else {
        c
    }
}

/// `str::to_ascii_lowercase`.
pub open spec fn lower(s: Seq<char>) -> Seq<char> {
    s.map_values(|c: char| ascii_lower(c))
}

pub fn lower_exec(s: &[char]) -> (r: Vec<char>)
    ensures
        r@ == lower(s@),
{
    let mut r: Vec<char> = Vec::new();
    let mut i: usize = 0;
    while i < s.len()
        invariant
            i <= s@.len(),
            r@ == lower(s@.subrange(0, i as int)),
        decreases s@.len() - i,
    {
        r.push(ascii_lower_exec(s[i]));
        i = i + 1;
        assert(r@ =~= lower(s@.subrange(0, i as int)));
    }
    assert(s@.subrange(0, s@.len() as int) =~= s@);
    r
}


/// Index of the first whitespace character of `t`, or its length.
pub open spec fn ws_pos(t: Seq<char>) -> int
    decreases t.len(),
{
    if t.len() == 0 {
        0
    } else if is_ws(t[0]) {
        0
    } else {
        1 + ws_pos(t.drop_first())
    }
}

proof fn lemma_ws_pos(t: Seq<char>, k: int)
    requires
        0 <= k <= t.len(),
        forall|j: int| 0 <= j < k ==> !is_ws(t[j]),
        k == t.len() || is_ws(t[k]),
    ensures
        ws_pos(t) == k,
    decreases t.len(),
{
    if t.len() > 0 && k > 0 {
        lemma_ws_pos(t.drop_first(), k - 1);
    }
}

/// The position of the first whitespace lies within the text, past a
/// leading non-whitespace character.
pub proof fn lemma_ws_pos_bounds(t: Seq<char>)
    ensures
        0 <= ws_pos(t) <= t.len(),
        t.len() > 0 && !is_ws(t[0]) ==> ws_pos(t) >= 1,
    decreases t.len(),
{
    if t.len() > 0 && !is_ws(t[0]) {
        lemma_ws_pos_bounds(t.drop_first());
    }
}

/// Trimming the start keeps a suffix that starts with no whitespace.
pub proof fn lemma_trim_start_shape(s: Seq<char>)
    ensures
        trim_start(s).len() <= s.len(),
        trim_start(s) == s.subrange(s.len() - trim_start(s).len(), s.len() as int),
        trim_start(s).len() > 0 ==> !is_ws(trim_start(s)[0]),
    decreases s.len(),
{
    if s.len() > 0 && is_ws(s[0]) {
        lemma_trim_start_shape(s.drop_first());
        let t = trim_start(s.drop_first());
        assert(s.drop_first().subrange(s.len() - 1 - t.len(), s.len() - 1) =~= s.subrange(
            s.len() - t.len(),
            s.len() as int,
        ));
    } else {
        assert(s.subrange(0, s.len() as int) =~= s);
    }
}

/// `str::split_whitespace`: the maximal runs of non-whitespace characters.
pub open spec fn words(s: Seq<char>) -> Seq<Seq<char>>
    decreases s.len(),
{
    let t = trim_start(s);
    if t.len() == 0 {
        Seq::empty()
    } else {
        proof {
            lemma_trim_start_shape(s);
            lemma_ws_pos_bounds(t);
        }
        let k = ws_pos(t);
        seq![t.subrange(0, k)] + words(t.subrange(k, t.len() as int))
    }
}

pub fn words_of(s: &[char]) -> (r: Vec<Vec<char>>)
    ensures
        views(r@) == words(s@),
{
    let n = s.len();
    let mut out: Vec<Vec<char>> = Vec::new();
    let mut i: usize = 0;
    assert(s@.subrange(0, n as int) =~= s@);
    assert(views(out@) =~= Seq::<Seq<char>>::empty());
    while i < n
        invariant
            n == s@.len(),
            i <= n,
            words(s@) == views(out@) + words(s@.subrange(i as int, n as int)),
        decreases n - i,
    {
        if is_whitespace(s[i]) {
            proof {
                lemma_trim_start_step(s@, i as int);
            }
            i = i + 1;
        } else {
            let mut j: usize = i;
            while j < n && !is_whitespace(s[j])
                invariant
                    n == s@.len(),
                    i <= j <= n,
                    forall|m: int| i <= m < j ==> !is_ws(s@[m]),
                decreases n - j,
            {
                j = j + 1;
            }
            let ghost t = s@.subrange(i as int, n as int);
            proof {
                assert(t[0] == s@[i as int]);
                assert(trim_start(t) == t);
                lemma_ws_pos(t, (j - i) as int);
                assert(t.subrange(0, (j - i) as int) =~= s@.subrange(i as int, j as int));
                assert(t.subrange((j - i) as int, t.len() as int) =~= s@.subrange(
                    j as int,
                    n as int,
                ));
            }
            let word = slice_chars(s, i, j);
            let ghost before = views(out@);
            out.push(word);
            proof {
                assert(views(out@) =~= before.push(word@));
                assert(words(t) == seq![word@] + words(s@.subrange(j as int, n as int)));
                assert(views(out@) + words(s@.subrange(j as int, n as int)) =~= before + words(
                    t,
                ));
            }
            i = j;
        }
    }
    proof {
        let e = s@.subrange(n as int, n as int);
        assert(e.len() == 0);
        assert(trim_start(e) == e);
        assert(words(e) =~= Seq::<Seq<char>>::empty());
        assert(views(out@) + words(e) =~= views(out@));
    }
    out
}


/// The decimal digits of `n` (`Display` for unsigned integers).
pub open spec fn decimal(n: nat) -> Seq<char>
    decreases n,
{
    if n < 10 {
        seq![(48 + n) as char]
    } else {
        decimal(n / 10).push((48 + n % 10) as char)
    }
}

/// `n.to_string()` for a `u64`, as characters.
pub fn decimal_exec(n: u64) -> (r: Vec<char>)
    ensures
        r@ == decimal(n as nat),
    decreases n,
{
    if n < 10 {
        let c = ((n as u8) + 48) as char;
        let mut r = Vec::new();
        r.push(c);
        assert(r@ =~= decimal(n as nat));
        r
    } else {
        let mut r = decimal_exec(n / 10);
        let c = (((n % 10) as u8) + 48) as char;
        r.push(c);
        r
    }
}

/// `a` followed by `b`.
pub fn concat_chars(a: &[char], b: &[char]) -> (r: Vec<char>)
    ensures
        r@ == a@ + b@,
{
    let mut r: Vec<char> = Vec::new();
    let mut i: usize = 0;
    while i < a.len()
        invariant
            i <= a@.len(),
            r@ == a@.subrange(0, i as int),
        decreases a@.len() - i,
    {
        r.push(a[i]);
        i = i + 1;
        assert(r@ =~= a@.subrange(0, i as int));
    }
    let mut j: usize = 0;
    while j < b.len()
        invariant
            j <= b@.len(),
            a@.len() == i,
            r@ == a@ + b@.subrange(0, j as int),
        decreases b@.len() - j,
    {
        r.push(b[j]);
        j = j + 1;
        assert(r@ =~= a@ + b@.subrange(0, j as int));
    }
    assert(a@.subrange(0, i as int) =~= a@);
    assert(b@.subrange(0, j as int) =~= b@);
    r
}

/// Whether two character sequences are equal.
pub fn chars_eq(a: &[char], b: &[char]) -> (r: bool)
    ensures
        r == (a@ == b@),
{
    if a.len() != b.len() {
        return false;
    }
    let mut i: usize = 0;
    while i < a.len()
        invariant
            i <= a@.len(),
            a@.len() == b@.len(),
            forall|j: int| 0 <= j < i ==> a@[j] == b@[j],
        decreases a@.len() - i,
    {
        if a[i] != b[i] {
            return false;
        }
        i = i + 1;
    }
    assert(a@ =~= b@);
    true
}


/// An owned copy of a string slice.
pub fn owned(s: &str) -> (r: String)
    ensures
        r@ == s@,
{
    String::from_str(s)
}

/// `a` then `b`, as a `String`.
pub fn text2(a: &str, b: &[char]) -> (r: String)
    ensures
        r@ == a@ + b@,
{
    string_of(&concat_chars(&chars_of(a), b))
}

/// `a`, `b` and `c` one after the other, as a `String`.
pub fn text3(a: &str, b: &[char], c: &str) -> (r: String)
    ensures
        r@ == a@ + b@ + c@,
{
    let ab = concat_chars(&chars_of(a), b);
    string_of(&concat_chars(&ab, &chars_of(c)))
}

/// Byte sequence `p` occurs in `s` at position `i`.
pub open spec fn bytes_at(s: Seq<u8>, p: Seq<u8>, i: int) -> bool {
    0 <= i && i + p.len() <= s.len() && s.subrange(i, i + p.len()) == p
}

/// Byte sequence `p` occurs somewhere in `s` (`windows(p.len()).any(|w| w == p)`
/// for a non-empty `p`).
pub open spec fn bytes_contain(s: Seq<u8>, p: Seq<u8>) -> bool {
    exists|i: int| bytes_at(s, p, i)
}

pub fn bytes_at_exec(s: &[u8], p: &[u8], i: usize) -> (r: bool)
    ensures
        r == bytes_at(s@, p@, i as int),
{
    let n = s.len();
    let m = p.len();
    if i > n || m > n - i {
        return false;
    }
    let mut k: usize = 0;
    while k < m
        invariant
            n == s@.len(),
            m == p@.len(),
            i + m <= n,
            k <= m,
            forall|j: int| 0 <= j < k ==> s@[i + j] == p@[j],
        decreases m - k,
    {
        if s[i + k] != p[k] {
            assert(s@.subrange(i as int, i + p@.len())[k as int] != p@[k as int]);
            return false;
        }
        k = k + 1;
    }
    assert(s@.subrange(i as int, i + p@.len()) =~= p@);
    true
}

pub fn bytes_contain_exec(s: &[u8], p: &[u8]) -> (r: bool)
    ensures
        r == bytes_contain(s@, p@),
{
    let n = s.len();
    let mut i: usize = 0;
    while i < n
        invariant
            n == s@.len(),
            i <= n,
            forall|j: int| 0 <= j < i ==> !bytes_at(s@, p@, j),
        decreases n - i,
    {
        if bytes_at_exec(s, p, i) {
            return true;
        }
        i = i + 1;
    }
    if bytes_at_exec(s, p, i) {
        return true;
    }
    assert forall|j: int| !bytes_at(s@, p@, j) by {
        if bytes_at(s@, p@, j) && j > n {
            assert(false);
        }
    }
    false
}


/// `a < b` in the order of `str` (`Ord`): character by character, a proper
/// prefix first.
pub open spec fn str_lt(a: Seq<char>, b: Seq<char>) -> bool
    decreases a.len(),
{
    if b.len() == 0 {
        false
    } else if a.len() == 0 {
        true
    } else if a[0] != b[0] {
        a[0] < b[0]
    } else {
        str_lt(a.drop_first(), b.drop_first())
    }
}

/// No text is ordered before itself.
pub proof fn lemma_str_lt_irreflexive(a: Seq<char>)
    ensures
        !str_lt(a, a),
    decreases a.len(),
{
    if a.len() > 0 {
        lemma_str_lt_irreflexive(a.drop_first());
    }
}

/// The order of texts is transitive.
pub proof fn lemma_str_lt_transitive(a: Seq<char>, b: Seq<char>, c: Seq<char>)
    requires
        str_lt(a, b),
        str_lt(b, c),
    ensures
        str_lt(a, c),
    decreases a.len(),
{
    if a.len() > 0 && b.len() > 0 && c.len() > 0 && a[0] == b[0] && b[0] == c[0] {
        lemma_str_lt_transitive(a.drop_first(), b.drop_first(), c.drop_first());
    }
}

/// Two different texts are ordered one way or the other.
pub proof fn lemma_str_lt_total(a: Seq<char>, b: Seq<char>)
    ensures
        a == b || str_lt(a, b) || str_lt(b, a),
    decreases a.len(),
{
    if a.len() > 0 && b.len() > 0 && a[0] == b[0] {
        lemma_str_lt_total(a.drop_first(), b.drop_first());
        if a.drop_first() == b.drop_first() {
            assert(a =~= seq![a[0]] + a.drop_first());
            assert(b =~= seq![b[0]] + b.drop_first());
        }
    } else if a.len() == 0 && b.len() == 0 {
        assert(a =~= b);
    }
}

/// Two texts are never ordered both ways.
pub proof fn lemma_str_lt_asymmetric(a: Seq<char>, b: Seq<char>)
    requires
        str_lt(a, b),
    ensures
        !str_lt(b, a),
{
    if str_lt(b, a) {
        lemma_str_lt_transitive(a, b, a);
        lemma_str_lt_irreflexive(a);
    }
}

pub fn str_lt_exec(a: &[char], b: &[char]) -> (r: bool)
    ensures
        r == str_lt(a@, b@),
{
    let n = a.len();
    let m = b.len();
    let mut i: usize = 0;
    proof {
        assert(a@.subrange(0, n as int) =~= a@);
        assert(b@.subrange(0, m as int) =~= b@);
    }
    while i < n && i < m && a[i] == b[i]
        invariant
            n == a@.len(),
            m == b@.len(),
            i <= n,
            i <= m,
            str_lt(a@, b@) == str_lt(a@.subrange(i as int, n as int), b@.subrange(i as int, m as int)),
        decreases n - i,
    {
        proof {
            let x = a@.subrange(i as int, n as int);
            let y = b@.subrange(i as int, m as int);
            assert(x.drop_first() =~= a@.subrange(i + 1, n as int));
            assert(y.drop_first() =~= b@.subrange(i + 1, m as int));
        }
        i = i + 1;
    }
    let ghost x = a@.subrange(i as int, n as int);
    let ghost y = b@.subrange(i as int, m as int);
    if i == m {
        assert(y.len() == 0);
        false
    } else if i == n {
        assert(x.len() == 0);
        true
    } else {
        assert(x[0] == a@[i as int] && y[0] == b@[i as int]);
        a[i] < b[i]
    }
}

/// Strictly increasing in the order of `str`.
pub open spec fn strictly_sorted(v: Seq<Seq<char>>) -> bool {
    forall|i: int, j: int| 0 <= i < j < v.len() ==> str_lt(v[i], v[j])
}

/// Inserts `x` into a strictly sorted list of texts unless it is there.
pub fn insert_sorted_unique(v: &mut Vec<String>, x: String)
    requires
        strictly_sorted(crate::protocol::strs(old(v)@)),
    ensures
        strictly_sorted(crate::protocol::strs(final(v)@)),
        crate::protocol::strs(final(v)@).to_set() == crate::protocol::strs(old(v)@).to_set().insert(x@),
{
    let ghost s0 = crate::protocol::strs(v@);
    let xc = chars_of(x.as_str());
    let n = v.len();
    let mut i: usize = 0;
    while i < n
        invariant
            n == v@.len(),
            i <= n,
            s0 == crate::protocol::strs(v@),
            xc@ == x@,
            forall|j: int| 0 <= j < i ==> str_lt(s0[j], x@),
        ensures
            i < n ==> !str_lt(s0[i as int], x@),
        decreases n - i,
    {
        let vc = chars_of(v[i].as_str());
        assert(s0[i as int] == v@[i as int]@);
        if !str_lt_exec(&vc, &xc) {
            break;
        }
        i = i + 1;
    }
    if i < n && chars_eq(&chars_of(v[i].as_str()), &xc) {
        proof {
            assert(s0[i as int] == v@[i as int]@);
            assert(s0.to_set().insert(x@) =~= s0.to_set()) by {
                assert(s0[i as int] == x@);
                assert(s0.contains(x@));
            }
        }
        return;
    }
    proof {
        if i < n {
            lemma_str_lt_total(s0[i as int], x@);
            assert(str_lt(x@, s0[i as int]));
        }
    }
    v.insert(i, x);
    proof {
        let s1 = crate::protocol::strs(v@);
        assert(s1 =~= s0.insert(i as int, x@));
        assert forall|a: int, b: int| 0 <= a < b < s1.len() implies str_lt(s1[a], s1[b]) by {
            if a < i && b == i {
            } else if a < i && b > i {
            } else if a == i && b > i {
                if b > i + 1 {
                    lemma_str_lt_transitive(x@, s0[i as int], s0[b - 1]);
                }
            } else if a > i {
            }
        }
        assert(s1.to_set() =~= s0.to_set().insert(x@)) by {
            assert forall|e: Seq<char>| s1.to_set().contains(e) <==> s0.to_set().insert(x@).contains(e) by {
                if s1.contains(e) {
                    let k = choose|k: int| 0 <= k < s1.len() && s1[k] == e;
                    if k < i {
                        assert(s0[k] == e);
                    } else if k > i {
                        assert(s0[k - 1] == e);
                    }
                }
                if s0.contains(e) {
                    let k = choose|k: int| 0 <= k < s0.len() && s0[k] == e;
                    if k < i {
                        assert(s1[k] == e);
                    } else {
                        assert(s1[k + 1] == e);
                    }
                }
                if e == x@ {
                    assert(s1[i as int] == e);
                }
            }
        }
    }
}

/// `s` split at every occurrence of `p` (`str::split` with a non-empty
/// pattern).
pub open spec fn split_all(s: Seq<char>, p: Seq<char>) -> Seq<Seq<char>>
    decreases s.len(),
{
    if p.len() == 0 {
        seq![s]
    } else {
        let i = find(s, p);
        if i == -1 {
            seq![s]
        } else {
            proof {
                lemma_find_bounds(s, p);
            }
            seq![s.subrange(0, i)] + split_all(s.subrange(i + p.len(), s.len() as int), p)
        }
    }
}

pub fn split_all_exec(s: &[char], p: &[char]) -> (r: Vec<Vec<char>>)
    requires
        p@.len() > 0,
    ensures
        views(r@) == split_all(s@, p@),
{
    let n = s.len();
    let mut out: Vec<Vec<char>> = Vec::new();
    let mut rest = slice_chars(s, 0, n);
    assert(rest@ =~= s@);
    loop
        invariant
            p@.len() > 0,
            views(out@) + split_all(rest@, p@) == split_all(s@, p@),
        decreases rest@.len(),
    {
        proof {
            lemma_find(rest@, p@);
            lemma_find_bounds(rest@, p@);
        }
        match find_exec(&rest, p) {
            Some(i) => {
                let m = rest.len();
                let head = slice_chars(&rest, 0, i);
                let tail = slice_chars(&rest, i + p.len(), m);
                let ghost before = views(out@);
                out.push(head);
                assert(views(out@) =~= before.push(head@));
                assert(split_all(rest@, p@) == seq![head@] + split_all(tail@, p@));
                assert(views(out@) + split_all(tail@, p@) =~= before + split_all(rest@, p@));
                rest = tail;
            },
            None => {
                let ghost before = views(out@);
                out.push(rest);
                assert(views(out@) =~= before + seq![rest@]);
                return out;
            },
        }
    }
}

} // verus!
