//! The BOX registry on disk: one JSON file per BOX, named by its id, in the
//! `boxes` directory of the state directory.

use vstd::prelude::*;
use crate::boxes::BoxRecord;
use crate::error::SandboxError;
use crate::ids::{uuid_parse, uuid_parsed, uuid_string, uuid_text};
use crate::ordering::{sort_by_time_and_id, sorted_by_key};
use crate::paths::{join_path, path_join};
use crate::text::{chars_eq, chars_of, slice_chars, string_of, text2, text3};

verus! {

/// Where BOX records are kept.
#[derive(Debug, Clone)]
pub struct BoxStore {
    state_dir: String,
}

/// The position of the last `'.'` in `name`, or -1.
pub open spec fn last_dot(name: Seq<char>) -> int
    decreases name.len(),
{
    if name.len() == 0 {
        -1
    } else if name.last() == '.' {
        name.len() - 1
    } else {
        last_dot(name.drop_last())
    }
}

proof fn lemma_last_dot(name: Seq<char>)
    ensures
        -1 <= last_dot(name) < name.len(),
        last_dot(name) >= 0 ==> name[last_dot(name)] == '.',
        forall|j: int| last_dot(name) < j < name.len() ==> name[j] != '.',
    decreases name.len(),
{
    if name.len() > 0 && name.last() != '.' {
        lemma_last_dot(name.drop_last());
        assert forall|j: int| last_dot(name) < j < name.len() implies name[j] != '.' by {
            if j < name.len() - 1 {
                assert(name.drop_last()[j] == name[j]);
            }
        }
    }
}

/// The extension of a file name (`Path::extension`): what follows the last
/// dot, unless that dot starts the name.
pub open spec fn extension(name: Seq<char>) -> Option<Seq<char>> {
    if last_dot(name) <= 0 {
        None
    } else {
        Some(name.subrange(last_dot(name) + 1, name.len() as int))
    }
}

/// The stem of a file name (`Path::file_stem`): the name without its
/// extension.
pub open spec fn stem(name: Seq<char>) -> Seq<char> {
    if last_dot(name) <= 0 {
        name
    } else {
        name.subrange(0, last_dot(name))
    }
}

/// A directory entry is a BOX record: `<uuid>.json`.
pub open spec fn is_record_name(name: Seq<char>) -> bool {
    extension(name) == Some("json"@) && uuid_parsed(stem(name)) is Some
}

fn last_dot_exec(name: &Vec<char>) -> (r: Option<usize>)
    ensures
        match r {
            Some(i) => i as int == last_dot(name@),
            None => last_dot(name@) == -1,
        },
{
    proof {
        lemma_last_dot(name@);
    }
    let mut i: usize = name.len();
    while i > 0
        invariant
            i <= name@.len(),
            forall|j: int| i <= j < name@.len() ==> name@[j] != '.',
        decreases i,
    {
        if name[i - 1] == '.' {
            proof {
                lemma_last_dot_at(name@, i - 1);
            }
            return Some(i - 1);
        }
        i = i - 1;
    }
    proof {
        lemma_last_dot_at(name@, -1);
    }
    None
}

proof fn lemma_last_dot_at(name: Seq<char>, i: int)
    requires
        -1 <= i < name.len(),
        i >= 0 ==> name[i] == '.',
        forall|j: int| i < j < name.len() ==> name[j] != '.',
    ensures
        last_dot(name) == i,
    decreases name.len(),
{
    if name.len() > 0 && name.last() != '.' {
        lemma_last_dot_at(name.drop_last(), i);
    }
}

/// The stem of a registry file name when its extension is `json`.
pub fn json_stem(name: &str) -> (r: Option<String>)
    ensures
        match r {
            Some(s) => extension(name@) == Some("json"@) && s@ == stem(name@),
            None => extension(name@) != Some("json"@),
        },
{
    let n = chars_of(name);
    proof {
        lemma_last_dot(n@);
    }
    let d = match last_dot_exec(&n) {
        Some(d) => d,
        None => return None,
    };
    if d == 0 {
        return None;
    }
    let ext = slice_chars(&n, d + 1, n.len());
    if !chars_eq(&ext, &chars_of("json")) {
        return None;
    }
    Some(string_of(&slice_chars(&n, 0, d)))
}

/// Whether a file in the registry directory holds a BOX record (other JSON
/// files, such as the credential registry, live there too).
pub fn is_box_record_file(name: &str) -> (r: bool)
    ensures
        r == is_record_name(name@),
{
    match json_stem(name) {
        Some(s) => uuid_parse(s.as_str()).is_some(),
        None => false,
    }
}

/// The error for a BOX that has no record.
pub fn unknown_box(box_id: u128) -> (e: SandboxError)
    ensures
        e is NotFound && e->NotFound_0@ == "unknown BOX "@ + uuid_text(box_id),
{
    SandboxError::not_found(text2("unknown BOX ", &chars_of(uuid_string(box_id).as_str())))
}

impl BoxStore {
    pub closed spec fn state_dir(&self) -> Seq<char> {
        self.state_dir@
    }

    pub open spec fn boxes_path(&self) -> Seq<char> {
        path_join(self.state_dir(), "boxes"@)
    }

    pub open spec fn record_path(&self, box_id: u128) -> Seq<char> {
        path_join(self.boxes_path(), uuid_text(box_id) + ".json"@)
    }

    pub fn new(state_dir: String) -> (s: BoxStore)
        ensures
            s.state_dir() == state_dir@,
    {
        BoxStore { state_dir }
    }

    pub fn boxes_dir(&self) -> (r: String)
        ensures
            r@ == self.boxes_path(),
    {
        join_path(self.state_dir.as_str(), "boxes")
    }

    /// The file that holds the record of `box_id`.
    pub fn box_path(&self, box_id: u128) -> (r: String)
        ensures
            r@ == self.record_path(box_id),
    {
        let file = text3("", &chars_of(uuid_string(box_id).as_str()), ".json");
        proof {
            reveal_strlit("");
            assert(file@ =~= uuid_text(box_id) + ".json"@);
        }
        join_path(self.boxes_dir().as_str(), file.as_str())
    }

    /// Where a record is written before it replaces the old one.
    pub fn temp_path(&self, box_id: u128) -> (r: String)
        ensures
            r@ == self.record_path(box_id) + ".tmp"@,
    {
        let p = self.box_path(box_id);
        text3(p.as_str(), &Vec::new(), ".tmp")
    }

    /// The records listed by the registry, ordered by creation time, then
    /// by id.
    pub fn list_order(&self, records: Vec<BoxRecord>) -> (r: Vec<BoxRecord>)
        ensures
            sorted_by_key(r@),
            r@.to_multiset() == records@.to_multiset(),
    {
        sort_by_time_and_id(records)
    }
}

} // verus!
