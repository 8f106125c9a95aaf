//! Listings ordered by when things were created, then by id: BOX records
//! and sandbox sessions are both listed this way.

use vstd::prelude::*;
use vstd::seq_lib::to_multiset_insert;
use crate::boxes::BoxRecord;
use crate::runtime::SandboxSessionSummary;

verus! {

/// Something listed by a creation time, with an id to break ties.
pub trait TimeOrdered: Sized {
    spec fn time_key(&self) -> u64;

    spec fn id_key(&self) -> u128;

    fn time(&self) -> (t: u64)
        ensures
            t == self.time_key(),
    ;

    fn id(&self) -> (i: u128)
        ensures
            i == self.id_key(),
    ;
}

impl TimeOrdered for BoxRecord {
    open spec fn time_key(&self) -> u64 {
        self.created_at_ms
    }

    open spec fn id_key(&self) -> u128 {
        self.box_id
    }

    fn time(&self) -> (t: u64) {
        self.created_at_ms
    }

    fn id(&self) -> (i: u128) {
        self.box_id
    }
}

impl TimeOrdered for SandboxSessionSummary {
    open spec fn time_key(&self) -> u64 {
        self.started_at_ms
    }

    open spec fn id_key(&self) -> u128 {
        self.sandbox_id
    }

    fn time(&self) -> (t: u64) {
        self.started_at_ms
    }

    fn id(&self) -> (i: u128) {
        self.sandbox_id
    }
}

/// `a` comes no later than `b`: earlier time, or the same time and an id no
/// greater.
pub open spec fn key_le<T: TimeOrdered>(a: T, b: T) -> bool {
    a.time_key() < b.time_key() || (a.time_key() == b.time_key() && a.id_key() <= b.id_key())
}

/// Ordered by time, then id.
pub open spec fn sorted_by_key<T: TimeOrdered>(s: Seq<T>) -> bool {
    forall|i: int, j: int| 0 <= i < j < s.len() ==> key_le(s[i], s[j])
}

fn key_lt_exec<T: TimeOrdered>(a: &T, b: &T) -> (r: bool)
    ensures
        r == !key_le(*b, *a),
{
    let (ta, tb) = (a.time(), b.time());
    ta < tb || (ta == tb && a.id() < b.id())
}

/// Puts `x` after every item that does not come later than it.
fn insert_by_key<T: TimeOrdered>(v: &mut Vec<T>, x: T)
    requires
        sorted_by_key(old(v)@),
    ensures
        sorted_by_key(final(v)@),
        final(v)@.to_multiset() == old(v)@.to_multiset().insert(x),
{
    let n = v.len();
    let mut i: usize = n;
    while i > 0
        invariant
            n == v@.len(),
            i <= n,
            forall|j: int| i <= j < n ==> !key_le(v@[j], x),
        ensures
            i > 0 ==> key_le(v@[i - 1], x),
        decreases i,
    {
        if !key_lt_exec(&x, &v[i - 1]) {
            break;
        }
        i = i - 1;
    }
    let ghost s0 = v@;
    proof {
        to_multiset_insert(s0, i as int, x);
    }
    v.insert(i, x);
    proof {
        let s1 = v@;
        assert(s1 =~= s0.insert(i as int, x));
        assert forall|a: int, b: int| 0 <= a < b < s1.len() implies key_le(s1[a], s1[b]) by {
            if a < i && b == i {
                assert(key_le(s0[a], s0[i - 1]) || a == i - 1);
            } else if a == i && b > i {
                assert(!key_le(s0[b - 1], x));
            } else if a < i && b > i {
                assert(key_le(s0[a], s0[b - 1]));
            } else if a > i {
                assert(key_le(s0[a - 1], s0[b - 1]));
            }
        }
    }
}

/// The items ordered by time, then id.
pub fn sort_by_time_and_id<T: TimeOrdered>(items: Vec<T>) -> (r: Vec<T>)
    ensures
        sorted_by_key(r@),
        r@.to_multiset() == items@.to_multiset(),
{
    let mut rest = items;
    let mut out: Vec<T> = Vec::new();
    proof {
        broadcast use vstd::seq_lib::group_to_multiset_ensures;
        assert(out@.to_multiset() =~= vstd::multiset::Multiset::empty());
    }
    while rest.len() > 0
        invariant
            sorted_by_key(out@),
            out@.to_multiset().add(rest@.to_multiset()) == items@.to_multiset(),
        decreases rest@.len(),
    {
        let ghost r0 = rest@;
        let x = rest.pop().unwrap();
        proof {
            broadcast use vstd::seq_lib::group_to_multiset_ensures;
            assert(r0 =~= rest@.push(x));
        }
        insert_by_key(&mut out, x);
        proof {
            broadcast use vstd::seq_lib::group_to_multiset_ensures;
            assert(out@.to_multiset().add(rest@.to_multiset()) =~= items@.to_multiset());
        }
    }
    proof {
        broadcast use vstd::seq_lib::group_to_multiset_ensures;
        assert(rest@.len() == 0);
        assert(rest@.to_multiset() =~= vstd::multiset::Multiset::empty());
        assert(out@.to_multiset().add(rest@.to_multiset()) =~= out@.to_multiset());
    }
    out
}

} // verus!
