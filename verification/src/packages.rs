//! Alpine package indexes: reading `APKINDEX` blocks into a package table
//! and a table of provided names, and resolving the packages an image needs
//! with everything they depend on.

use vstd::prelude::*;
use crate::images::base_apk_packages;
use crate::protocol::strs;
use crate::text::{
    chars_of, lines, lines_of, owned, split_once, split_once_exec, starts_with, starts_with_exec, string_of, text3, trim,
    trim_chars, views, words, words_of, strictly_sorted, insert_sorted_unique, str_lt,
    str_lt_exec, chars_eq, lemma_str_lt_total, lemma_str_lt_transitive, lemma_str_lt_irreflexive,
};
use crate::textmap::TextMap;
use crate::text::{split_all, split_all_exec};

verus! {

/// One package of an index.
#[derive(Debug, Clone)]
pub struct Package {
    pub name: String,
    pub version: String,
    pub repo: String,
    pub depends: Vec<String>,
    pub provides: Vec<String>,
}

/// A package as plain text values.
pub struct PackageView {
    pub name: Seq<char>,
    pub version: Seq<char>,
    pub repo: Seq<char>,
    pub depends: Seq<Seq<char>>,
    pub provides: Seq<Seq<char>>,
}

impl View for Package {
    type V = PackageView;

    open spec fn view(&self) -> PackageView {
        PackageView {
            name: self.name@,
            version: self.version@,
            repo: self.repo@,
            depends: strs(self.depends@),
            provides: strs(self.provides@),
        }
    }
}

/// The name of the `.apk` file of a package.
pub open spec fn apk_file_name(name: Seq<char>, version: Seq<char>) -> Seq<char> {
    name + "-"@ + version + ".apk"@
}

impl Package {
    pub fn file_name(&self) -> (r: String)
        ensures
            r@ == apk_file_name(self.name@, self.version@),
    {
        let head = text3("", &chars_of(self.name.as_str()), "-");
        let r = text3(head.as_str(), &chars_of(self.version.as_str()), ".apk");
        proof {
            reveal_strlit("");
            assert(r@ =~= apk_file_name(self.name@, self.version@));
        }
        r
    }
}

/// `s` up to the first `m`, or all of `s` when there is none.
pub open spec fn cut_at(s: Seq<char>, m: char) -> Seq<char> {
    match split_once(s, seq![m]) {
        Some((left, _)) => left,
        None => s,
    }
}

/// A dependency token without its version constraint or flags: everything
/// from the first of `!`, `?`, `<`, `>`, `=`, `~` on is dropped.
pub open spec fn constraint_free(token: Seq<char>) -> Seq<char> {
    trim(cut_at(cut_at(cut_at(cut_at(cut_at(cut_at(trim(token), '!'), '?'), '<'), '>'), '='), '~'))
}

fn cut_at_exec(s: Vec<char>, m: char) -> (r: Vec<char>)
    ensures
        r@ == cut_at(s@, m),
{
    let p: Vec<char> = vec![m];
    proof {
        assert(p@ =~= seq![m]);
    }
    match split_once_exec(&s, &p) {
        Some((left, _)) => left,
        None => s,
    }
}

pub fn strip_constraint(token: &str) -> (r: String)
    ensures
        r@ == constraint_free(token@),
{
    let mut v = trim_chars(&chars_of(token));
    v = cut_at_exec(v, '!');
    v = cut_at_exec(v, '?');
    v = cut_at_exec(v, '<');
    v = cut_at_exec(v, '>');
    v = cut_at_exec(v, '=');
    v = cut_at_exec(v, '~');
    string_of(&trim_chars(&v))
}

/// The text values of a map whose values are `String`s.
pub open spec fn text_map(m: Map<Seq<char>, String>) -> Map<Seq<char>, Seq<char>> {
    m.map_values(|s: String| s@)
}

/// The package a dependency token stands for: a virtual name (`so:`,
/// `cmd:`) only through the package that provides it, any other name
/// through its provider when it has one and as itself otherwise; nothing
/// for an empty token.
pub open spec fn dep_name(providers: Map<Seq<char>, Seq<char>>, token: Seq<char>) -> Option<Seq<char>> {
    let dep = constraint_free(token);
    if dep.len() == 0 {
        None
    } else if starts_with(dep, "so:"@) || starts_with(dep, "cmd:"@) {
        if providers.dom().contains(dep) {
            Some(providers[dep])
        } else {
            None
        }
    } else if providers.dom().contains(dep) {
        Some(providers[dep])
    } else {
        Some(dep)
    }
}

/// A dependency stands for the package that provides it, whatever its
/// form (`so:`, `cmd:`, a path such as `/bin/sh`, `pc:`, or a plain name);
/// a name nobody provides stands for itself, except a virtual `so:` or
/// `cmd:` name, which then stands for nothing; an empty dependency stands
/// for nothing.
pub proof fn lemma_dep_name_follows_providers(providers: Map<Seq<char>, Seq<char>>, token: Seq<char>)
    ensures
        ({
            let dep = constraint_free(token);
            &&& dep.len() == 0 ==> dep_name(providers, token) is None
            &&& (dep.len() > 0 && providers.dom().contains(dep)) ==> dep_name(providers, token) == Some(providers[dep])
            &&& (dep.len() > 0 && !providers.dom().contains(dep) && !starts_with(dep, "so:"@)
                && !starts_with(dep, "cmd:"@)) ==> dep_name(providers, token) == Some(dep)
            &&& (dep.len() > 0 && !providers.dom().contains(dep) && (starts_with(dep, "so:"@)
                || starts_with(dep, "cmd:"@))) ==> dep_name(providers, token) is None
        }),
{
}

pub fn normalize_dep(providers: &TextMap<String>, token: &str) -> (r: Option<String>)
    requires
        providers.wf(),
    ensures
        match r {
            Some(n) => dep_name(text_map(providers.view()), token@) == Some(n@),
            None => dep_name(text_map(providers.view()), token@) is None,
        },
{
    let dep = strip_constraint(token);
    let d = chars_of(dep.as_str());
    if d.len() == 0 {
        return None;
    }
    let found = providers.get(dep.as_str());
    if starts_with_exec(&d, &chars_of("so:")) || starts_with_exec(&d, &chars_of("cmd:")) {
        return match found {
            Some(p) => Some(p.clone()),
            None => None,
        };
    }
    match found {
        Some(p) => Some(p.clone()),
        None => Some(dep),
    }
}

/// The `key:value` fields of an index block, one per line that has a
/// colon, in order.
pub open spec fn field_pairs(ls: Seq<Seq<char>>) -> Seq<(Seq<char>, Seq<char>)>
    decreases ls.len(),
{
    if ls.len() == 0 {
        Seq::empty()
    } else {
        let rest = field_pairs(ls.drop_last());
        match split_once(ls.last(), seq![':']) {
            Some(kv) => rest.push(kv),
            None => rest,
        }
    }
}

pub open spec fn pair_views(v: Seq<(String, String)>) -> Seq<(Seq<char>, Seq<char>)> {
    v.map_values(|p: (String, String)| (p.0@, p.1@))
}

/// Splits an index block into its fields (see `field_pairs`).
pub fn package_fields(block: &str) -> (r: Vec<(String, String)>)
    ensures
        pair_views(r@) == field_pairs(lines(block@)),
{
    let ls = lines_of(&chars_of(block));
    let colon: Vec<char> = vec![':'];
    proof {
        assert(colon@ =~= seq![':']);
    }
    let n = ls.len();
    let mut out: Vec<(String, String)> = Vec::new();
    let mut i: usize = 0;
    while i < n
        invariant
            n == ls@.len(),
            i <= n,
            colon@ == seq![':'],
            views(ls@) == lines(block@),
            pair_views(out@) == field_pairs(lines(block@).subrange(0, i as int)),
        decreases n - i,
    {
        let ghost pre = lines(block@).subrange(0, i + 1);
        assert(pre.drop_last() =~= lines(block@).subrange(0, i as int));
        assert(pre.last() == ls@[i as int]@);
        match split_once_exec(&ls[i], &colon) {
            Some((k, v)) => {
                let ghost before = pair_views(out@);
                out.push((string_of(&k), string_of(&v)));
                assert(pair_views(out@) =~= before.push((k@, v@)));
            },
            None => {},
        }
        i = i + 1;
    }
    assert(lines(block@).subrange(0, n as int) =~= lines(block@));
    out
}

/// The values given for `key`, in order.
pub open spec fn values_for(ps: Seq<(Seq<char>, Seq<char>)>, key: Seq<char>) -> Seq<Seq<char>>
    decreases ps.len(),
{
    if ps.len() == 0 {
        Seq::empty()
    } else if ps.last().0 == key {
        values_for(ps.drop_last(), key).push(ps.last().1)
    } else {
        values_for(ps.drop_last(), key)
    }
}

/// The first value given for `key`.
pub fn first_field(fields: &Vec<(String, String)>, key: &str) -> (r: Option<String>)
    ensures
        match r {
            Some(v) => values_for(pair_views(fields@), key@).len() > 0
                && v@ == values_for(pair_views(fields@), key@)[0],
            None => values_for(pair_views(fields@), key@).len() == 0,
        },
{
    let k = chars_of(key);
    let n = fields.len();
    let mut i: usize = 0;
    while i < n
        invariant
            n == fields@.len(),
            i <= n,
            k@ == key@,
            values_for(pair_views(fields@).subrange(0, i as int), key@).len() == 0,
        decreases n - i,
    {
        let ghost pre = pair_views(fields@).subrange(0, i + 1);
        assert(pre.drop_last() =~= pair_views(fields@).subrange(0, i as int));
        assert(pre.last() == (fields@[i as int].0@, fields@[i as int].1@));
        if chars_eq(&chars_of(fields[i].0.as_str()), &k) {
            proof {
                assert(values_for(pre, key@) =~= seq![fields@[i as int].1@]);
                lemma_values_for_prefix(pair_views(fields@), key@, i + 1);
                assert(values_for(pre, key@)[0] == fields@[i as int].1@);
            }
            return Some(fields[i].1.clone());
        }
        i = i + 1;
    }
    assert(pair_views(fields@).subrange(0, n as int) =~= pair_views(fields@));
    None
}

/// The values for a key in a longer list start with those in its prefix.
proof fn lemma_values_for_prefix(ps: Seq<(Seq<char>, Seq<char>)>, key: Seq<char>, i: int)
    requires
        0 <= i <= ps.len(),
    ensures
        values_for(ps, key).len() >= values_for(ps.subrange(0, i), key).len(),
        forall|j: int| 0 <= j < values_for(ps.subrange(0, i), key).len()
            ==> values_for(ps, key)[j] == #[trigger] values_for(ps.subrange(0, i), key)[j],
    decreases ps.len() - i,
{
    if i < ps.len() {
        lemma_values_for_prefix(ps, key, i + 1);
        let a = ps.subrange(0, i);
        let b = ps.subrange(0, i + 1);
        assert(b.drop_last() =~= a);
        assert forall|j: int| 0 <= j < values_for(a, key).len() implies values_for(ps, key)[j]
            == #[trigger] values_for(a, key)[j] by {
            assert(values_for(b, key)[j] == values_for(a, key)[j]);
        }
    } else {
        assert(ps.subrange(0, i) =~= ps);
    }
}

/// The whitespace-separated words of each value, one after the other.
pub open spec fn all_words(vs: Seq<Seq<char>>) -> Seq<Seq<char>>
    decreases vs.len(),
{
    if vs.len() == 0 {
        Seq::empty()
    } else {
        all_words(vs.drop_last()) + words(vs.last())
    }
}

/// All the words given for `key` (a field may be given on several lines).
pub fn join_fields(fields: &Vec<(String, String)>, key: &str) -> (r: Vec<String>)
    ensures
        strs(r@) == all_words(values_for(pair_views(fields@), key@)),
{
    let k = chars_of(key);
    let n = fields.len();
    let mut out: Vec<String> = Vec::new();
    let mut i: usize = 0;
    while i < n
        invariant
            n == fields@.len(),
            i <= n,
            k@ == key@,
            strs(out@) == all_words(values_for(pair_views(fields@).subrange(0, i as int), key@)),
        decreases n - i,
    {
        let ghost pre = pair_views(fields@).subrange(0, i + 1);
        assert(pre.drop_last() =~= pair_views(fields@).subrange(0, i as int));
        assert(pre.last() == (fields@[i as int].0@, fields@[i as int].1@));
        if chars_eq(&chars_of(fields[i].0.as_str()), &k) {
            let ws = words_of(&chars_of(fields[i].1.as_str()));
            let m = ws.len();
            let mut j: usize = 0;
            let ghost base = strs(out@);
            while j < m
                invariant
                    m == ws@.len(),
                    j <= m,
                    strs(out@) == base + views(ws@).subrange(0, j as int),
                decreases m - j,
            {
                let ghost before = strs(out@);
                out.push(string_of(&ws[j]));
                assert(strs(out@) =~= before.push(ws@[j as int]@));
                assert(views(ws@).subrange(0, j + 1) =~= views(ws@).subrange(0, j as int).push(ws@[j as int]@));
                j = j + 1;
            }
            assert(views(ws@).subrange(0, m as int) =~= views(ws@));
            let ghost vs = values_for(pre, key@);
            assert(vs =~= values_for(pre.drop_last(), key@).push(fields@[i as int].1@));
            assert(vs.drop_last() =~= values_for(pre.drop_last(), key@));
            assert(all_words(vs) == all_words(vs.drop_last()) + words(vs.last()));
        } else {
            assert(values_for(pre, key@) == values_for(pre.drop_last(), key@));
        }
        i = i + 1;
    }
    assert(pair_views(fields@).subrange(0, n as int) =~= pair_views(fields@));
    out
}

/// The packages of a package table as plain values.
pub open spec fn pkg_map(m: Map<Seq<char>, Package>) -> Map<Seq<char>, PackageView> {
    m.map_values(|p: Package| p@)
}

proof fn lemma_pkg_map_insert(m: Map<Seq<char>, Package>, k: Seq<char>, p: Package)
    ensures
        pkg_map(m.insert(k, p)) == pkg_map(m).insert(k, p@),
{
    assert(pkg_map(m.insert(k, p)) =~= pkg_map(m).insert(k, p@));
}

proof fn lemma_text_map_insert(m: Map<Seq<char>, String>, k: Seq<char>, v: String)
    ensures
        text_map(m.insert(k, v)) == text_map(m).insert(k, v@),
{
    assert(text_map(m.insert(k, v)) =~= text_map(m).insert(k, v@));
}

/// `m` with `k` mapped to `v` unless `k` is already there.
pub open spec fn add_if_absent(m: Map<Seq<char>, Seq<char>>, k: Seq<char>, v: Seq<char>) -> Map<Seq<char>, Seq<char>> {
    if m.dom().contains(k) {
        m
    } else {
        m.insert(k, v)
    }
}

/// Records `name` as the provider of each entry of `provided`, in order,
/// where no provider is known yet.
pub open spec fn add_providers(m: Map<Seq<char>, Seq<char>>, provided: Seq<Seq<char>>, name: Seq<char>) -> Map<Seq<char>, Seq<char>>
    decreases provided.len(),
{
    if provided.len() == 0 {
        m
    } else {
        add_if_absent(add_providers(m, provided.drop_last(), name), constraint_free(provided.last()), name)
    }
}

/// The package an index block describes, if it names one (`P:`) and its
/// version (`V:`); its dependencies (`D:`) and what it provides (`p:`) are
/// the words of those fields.
pub open spec fn block_package(repo: Seq<char>, block: Seq<char>) -> Option<PackageView> {
    let ps = field_pairs(lines(block));
    let names = values_for(ps, "P"@);
    let versions = values_for(ps, "V"@);
    if names.len() == 0 || versions.len() == 0 {
        None
    } else {
        Some(PackageView {
            name: names[0],
            version: versions[0],
            repo,
            depends: all_words(values_for(ps, "D"@)),
            provides: all_words(values_for(ps, "p"@)),
        })
    }
}

/// The two tables after one block is read: the package replaces any of its
/// name, and it becomes the provider of its own name and of what it
/// provides wherever no provider was known.
pub open spec fn load_block(
    packages: Map<Seq<char>, PackageView>,
    providers: Map<Seq<char>, Seq<char>>,
    repo: Seq<char>,
    block: Seq<char>,
) -> (Map<Seq<char>, PackageView>, Map<Seq<char>, Seq<char>>) {
    match block_package(repo, block) {
        None => (packages, providers),
        Some(p) => (
            packages.insert(p.name, p),
            add_providers(add_if_absent(providers, p.name, p.name), p.provides, p.name),
        ),
    }
}

fn insert_provider(providers: &mut TextMap<String>, key: String, name: &String)
    requires
        old(providers).wf(),
    ensures
        final(providers).wf(),
        text_map(final(providers).view()) == add_if_absent(text_map(old(providers).view()), key@, name@),
{
    let ghost k = key@;
    let present = providers.contains_key(key.as_str());
    providers.insert_if_absent(key, name.clone());
    proof {
        if !present {
            lemma_text_map_insert(old(providers).view(), k, *name);
        }
    }
}

/// Reads one index block into the package and provider tables (see
/// `load_block`).
pub fn load_package_block(repo: &str, block: &str, packages: &mut TextMap<Package>, providers: &mut TextMap<String>)
    requires
        old(packages).wf(),
        old(providers).wf(),
    ensures
        final(packages).wf(),
        final(providers).wf(),
        (pkg_map(final(packages).view()), text_map(final(providers).view()))
            == load_block(pkg_map(old(packages).view()), text_map(old(providers).view()), repo@, block@),
{
    let fields = package_fields(block);
    let name = match first_field(&fields, "P") {
        Some(n) => n,
        None => return,
    };
    let version = match first_field(&fields, "V") {
        Some(v) => v,
        None => return,
    };
    let package = Package {
        name: name.clone(),
        version,
        repo: owned(repo),
        depends: join_fields(&fields, "D"),
        provides: join_fields(&fields, "p"),
    };
    let ghost pv = package@;
    assert(block_package(repo@, block@) == Some(pv));
    insert_provider(providers, name.clone(), &name);
    let n = package.provides.len();
    let mut i: usize = 0;
    while i < n
        invariant
            n == package.provides@.len(),
            i <= n,
            providers.wf(),
            pv == package@,
            name@ == pv.name,
            text_map(providers.view()) == add_providers(
                add_if_absent(text_map(old(providers).view()), pv.name, pv.name),
                pv.provides.subrange(0, i as int),
                pv.name,
            ),
        decreases n - i,
    {
        let key = strip_constraint(package.provides[i].as_str());
        insert_provider(providers, key, &name);
        proof {
            let pre = pv.provides.subrange(0, i + 1);
            assert(pre.drop_last() =~= pv.provides.subrange(0, i as int));
            assert(pre.last() == package.provides@[i as int]@);
        }
        i = i + 1;
    }
    assert(pv.provides.subrange(0, n as int) =~= pv.provides);
    let ghost before = packages.view();
    packages.insert(name, package);
    proof {
        lemma_pkg_map_insert(before, pv.name, package);
    }
}

/// Every package is filed under its own name.
pub open spec fn keyed_by_name(packages: Map<Seq<char>, PackageView>) -> bool {
    forall|k: Seq<char>| #[trigger] packages.dom().contains(k) ==> packages[k].name == k
}

/// The two tables after reading the blocks in order.
pub open spec fn load_blocks(
    packages: Map<Seq<char>, PackageView>,
    providers: Map<Seq<char>, Seq<char>>,
    repo: Seq<char>,
    blocks: Seq<Seq<char>>,
) -> (Map<Seq<char>, PackageView>, Map<Seq<char>, Seq<char>>)
    decreases blocks.len(),
{
    if blocks.len() == 0 {
        (packages, providers)
    } else {
        let (pk, pr) = load_blocks(packages, providers, repo, blocks.drop_last());
        load_block(pk, pr, repo, blocks.last())
    }
}

/// Reading blocks files each package under its own name.
pub proof fn lemma_load_blocks_keyed(
    packages: Map<Seq<char>, PackageView>,
    providers: Map<Seq<char>, Seq<char>>,
    repo: Seq<char>,
    blocks: Seq<Seq<char>>,
)
    requires
        keyed_by_name(packages),
    ensures
        keyed_by_name(load_blocks(packages, providers, repo, blocks).0),
    decreases blocks.len(),
{
    if blocks.len() > 0 {
        lemma_load_blocks_keyed(packages, providers, repo, blocks.drop_last());
    }
}

/// The blocks of an index: the trimmed text split at blank lines.
pub open spec fn index_blocks(content: Seq<char>) -> Seq<Seq<char>> {
    split_all(trim(content), seq!['\n', '\n'])
}

/// Reads the text of one repository's index into the tables.
pub fn load_index(repo: &str, content: &str, packages: &mut TextMap<Package>, providers: &mut TextMap<String>)
    requires
        old(packages).wf(),
        old(providers).wf(),
    ensures
        final(packages).wf(),
        final(providers).wf(),
        (pkg_map(final(packages).view()), text_map(final(providers).view()))
            == load_blocks(pkg_map(old(packages).view()), text_map(old(providers).view()), repo@, index_blocks(content@)),
{
    let sep: Vec<char> = vec!['\n', '\n'];
    assert(sep@ =~= seq!['\n', '\n']);
    let blocks = split_all_exec(&trim_chars(&chars_of(content)), &sep);
    let ghost all = views(blocks@);
    let n = blocks.len();
    let mut i: usize = 0;
    while i < n
        invariant
            n == blocks@.len(),
            i <= n,
            all == views(blocks@),
            all == index_blocks(content@),
            packages.wf(),
            providers.wf(),
            (pkg_map(packages.view()), text_map(providers.view())) == load_blocks(
                pkg_map(old(packages).view()),
                text_map(old(providers).view()),
                repo@,
                all.subrange(0, i as int),
            ),
        decreases n - i,
    {
        let block = string_of(&blocks[i]);
        load_package_block(repo, block.as_str(), packages, providers);
        proof {
            let pre = all.subrange(0, i + 1);
            assert(pre.drop_last() =~= all.subrange(0, i as int));
            assert(pre.last() == blocks@[i as int]@);
        }
        i = i + 1;
    }
    assert(all.subrange(0, n as int) =~= all);
}

/// The package and provider tables of the `main` and `community`
/// repositories, read in that order from their index texts.
pub fn load_indexes(main: &str, community: &str) -> (r: (TextMap<Package>, TextMap<String>))
    ensures
        r.0.wf(),
        r.1.wf(),
        keyed_by_name(pkg_map(r.0.view())),
        (pkg_map(r.0.view()), text_map(r.1.view())) == ({
            let (pk, pr) = load_blocks(Map::empty(), Map::empty(), "main"@, index_blocks(main@));
            load_blocks(pk, pr, "community"@, index_blocks(community@))
        }),
{
    let mut packages: TextMap<Package> = TextMap::new();
    let mut providers: TextMap<String> = TextMap::new();
    assert(pkg_map(packages.view()) =~= Map::empty());
    assert(text_map(providers.view()) =~= Map::empty());
    load_index("main", main, &mut packages, &mut providers);
    proof {
        lemma_load_blocks_keyed(Map::empty(), Map::empty(), "main"@, index_blocks(main@));
    }
    let ghost mid = (pkg_map(packages.view()), text_map(providers.view()));
    load_index("community", community, &mut packages, &mut providers);
    proof {
        lemma_load_blocks_keyed(mid.0, mid.1, "community"@, index_blocks(community@));
    }
    (packages, providers)
}

/// The packages an image asks for: the base packages, `npm` when npm
/// packages are to be cached, and each extra package name, trimmed, unless
/// it is blank.
pub open spec fn wanted_set(extra: Seq<Seq<char>>, include_npm: bool) -> Set<Seq<char>> {
    Set::new(|x: Seq<char>| base_apk_packages().contains(x) || (include_npm && x == "npm"@)
        || exists|i: int| 0 <= i < extra.len() && trim(#[trigger] extra[i]) == x && x.len() > 0)
}

/// The packages an image asks for (see `wanted_set`), sorted, each once.
pub fn wanted_apk_packages(extra: &Vec<String>, include_npm: bool) -> (r: Vec<String>)
    ensures
        strictly_sorted(strs(r@)),
        strs(r@).to_set() == wanted_set(strs(extra@), include_npm),
{
    let base = crate::images::base_apk_package_list();
    let mut out: Vec<String> = Vec::new();
    assert(strs(out@).to_set() =~= Set::empty());
    let nb = base.len();
    let mut i: usize = 0;
    while i < nb
        invariant
            nb == base@.len(),
            i <= nb,
            strs(base@) == base_apk_packages(),
            strictly_sorted(strs(out@)),
            strs(out@).to_set() == Set::new(|x: Seq<char>| exists|j: int| 0 <= j < i && strs(base@)[j] == x),
        decreases nb - i,
    {
        let ghost before = strs(out@).to_set();
        insert_sorted_unique(&mut out, base[i].clone());
        assert(strs(out@).to_set() =~= Set::new(|x: Seq<char>| exists|j: int| 0 <= j < i + 1 && strs(base@)[j] == x)) by {
            assert(strs(base@)[i as int] == base@[i as int]@);
            assert forall|x: Seq<char>| (exists|j: int| 0 <= j < i + 1 && strs(base@)[j] == x) implies strs(out@).to_set().contains(x) by {
                let j = choose|j: int| 0 <= j < i + 1 && strs(base@)[j] == x;
                if j < i {
                    assert(before.contains(x));
                }
            }
        }
        i = i + 1;
    }
    let ghost base_set = strs(out@).to_set();
    assert(base_set =~= base_apk_packages().to_set()) by {
        assert forall|x: Seq<char>| base_set.contains(x) <==> base_apk_packages().contains(x) by {
            if base_apk_packages().contains(x) {
                let j = choose|j: int| 0 <= j < base_apk_packages().len() && base_apk_packages()[j] == x;
                assert(strs(base@)[j] == x);
            }
        }
    }
    if include_npm {
        insert_sorted_unique(&mut out, owned("npm"));
    }
    let ghost start = strs(out@).to_set();
    assert(start =~= Set::new(|x: Seq<char>| base_apk_packages().contains(x) || (include_npm && x == "npm"@)));
    let ne = extra.len();
    let mut k: usize = 0;
    while k < ne
        invariant
            ne == extra@.len(),
            k <= ne,
            strictly_sorted(strs(out@)),
            start == Set::new(|x: Seq<char>| base_apk_packages().contains(x) || (include_npm && x == "npm"@)),
            strs(out@).to_set() == start.union(Set::new(|x: Seq<char>| exists|j: int| 0 <= j < k && trim(
                #[trigger] strs(extra@)[j],
            ) == x && x.len() > 0)),
        decreases ne - k,
    {
        let t = trim_chars(&chars_of(extra[k].as_str()));
        let ghost before = strs(out@).to_set();
        assert(strs(extra@)[k as int] == extra@[k as int]@);
        if t.len() > 0 {
            insert_sorted_unique(&mut out, string_of(&t));
        }
        assert(strs(out@).to_set() =~= start.union(Set::new(|x: Seq<char>| exists|j: int| 0 <= j < k + 1 && trim(
            #[trigger] strs(extra@)[j],
        ) == x && x.len() > 0))) by {
            assert forall|x: Seq<char>| start.union(Set::new(|x: Seq<char>| exists|j: int| 0 <= j < k + 1 && trim(
                #[trigger] strs(extra@)[j],
            ) == x && x.len() > 0)).contains(x) implies strs(out@).to_set().contains(x) by {
                if !start.contains(x) {
                    let j = choose|j: int| 0 <= j < k + 1 && trim(#[trigger] strs(extra@)[j]) == x && x.len() > 0;
                    if j < k {
                        assert(before.contains(x));
                    }
                }
            }
        }
        k = k + 1;
    }
    assert(strs(out@).to_set() =~= wanted_set(strs(extra@), include_npm));
    out
}

/// The names of a list of packages.
pub open spec fn names_of(v: Seq<Package>) -> Seq<Seq<char>> {
    v.map_values(|p: Package| p.name@)
}

/// Inserts `p` into a list of packages sorted by name, where its name is
/// new.
fn insert_package_sorted(v: &mut Vec<Package>, p: Package)
    requires
        strictly_sorted(names_of(old(v)@)),
        !names_of(old(v)@).contains(p.name@),
    ensures
        strictly_sorted(names_of(final(v)@)),
        exists|i: int| 0 <= i <= old(v)@.len() && final(v)@ == old(v)@.insert(i, p),
{
    let ghost s0 = names_of(v@);
    let pc = chars_of(p.name.as_str());
    let n = v.len();
    let mut i: usize = 0;
    while i < n
        invariant
            n == v@.len(),
            i <= n,
            s0 == names_of(v@),
            pc@ == p.name@,
            forall|j: int| 0 <= j < i ==> str_lt(s0[j], p.name@),
        ensures
            i < n ==> !str_lt(s0[i as int], p.name@),
        decreases n - i,
    {
        let vc = chars_of(v[i].name.as_str());
        assert(s0[i as int] == v@[i as int].name@);
        if !str_lt_exec(&vc, &pc) {
            break;
        }
        i = i + 1;
    }
    proof {
        if i < n {
            lemma_str_lt_total(s0[i as int], p.name@);
            assert(s0[i as int] != p.name@);
            assert(str_lt(p.name@, s0[i as int]));
        }
    }
    let ghost x = p.name@;
    v.insert(i, p);
    proof {
        let s1 = names_of(v@);
        assert(s1 =~= s0.insert(i as int, x));
        assert forall|a: int, b: int| 0 <= a < b < s1.len() implies str_lt(s1[a], s1[b]) by {
            if a == i && b > i + 1 {
                lemma_str_lt_transitive(x, s0[i as int], s0[b - 1]);
            }
        }
    }
}

/// The name a token on the wanted list stands for.
pub open spec fn wanted_name(providers: Map<Seq<char>, Seq<char>>, wanted: Seq<Seq<char>>, n: Seq<char>) -> bool {
    exists|i: int| 0 <= i < wanted.len() && dep_name(providers, #[trigger] wanted[i]) == Some(n)
}

/// `n` is what one of the dependencies of package `m` stands for.
pub open spec fn dep_of(packages: Map<Seq<char>, PackageView>, providers: Map<Seq<char>, Seq<char>>, m: Seq<char>, n: Seq<char>) -> bool {
    packages.dom().contains(m) && exists|j: int| 0 <= j < packages[m].depends.len()
        && dep_name(providers, #[trigger] packages[m].depends[j]) == Some(n)
}

/// The names on the wanted list.
pub open spec fn wanted_names(providers: Map<Seq<char>, Seq<char>>, wanted: Seq<Seq<char>>) -> Set<Seq<char>> {
    Set::new(|n: Seq<char>| wanted_name(providers, wanted, n))
}

/// `names` and the dependencies of its members.
pub open spec fn grow(packages: Map<Seq<char>, PackageView>, providers: Map<Seq<char>, Seq<char>>, names: Set<Seq<char>>) -> Set<Seq<char>> {
    names.union(Set::new(|n: Seq<char>| exists|m: Seq<char>| #[trigger] names.contains(m) && dep_of(packages, providers, m, n)))
}

/// The names reached from the wanted list in at most `k` dependency steps.
pub open spec fn reach(
    packages: Map<Seq<char>, PackageView>,
    providers: Map<Seq<char>, Seq<char>>,
    wanted: Seq<Seq<char>>,
    k: nat,
) -> Set<Seq<char>>
    decreases k,
{
    if k == 0 {
        wanted_names(providers, wanted)
    } else {
        grow(packages, providers, reach(packages, providers, wanted, (k - 1) as nat))
    }
}

/// `n` is needed: wanted, or a dependency of a needed package.
pub open spec fn reachable(
    packages: Map<Seq<char>, PackageView>,
    providers: Map<Seq<char>, Seq<char>>,
    wanted: Seq<Seq<char>>,
    n: Seq<char>,
) -> bool {
    exists|k: nat| #[trigger] reach(packages, providers, wanted, k).contains(n)
}

/// A set that holds the wanted names and the dependencies of its members
/// holds everything needed.
proof fn lemma_closed_holds_reach(
    packages: Map<Seq<char>, PackageView>,
    providers: Map<Seq<char>, Seq<char>>,
    wanted: Seq<Seq<char>>,
    s: Set<Seq<char>>,
    k: nat,
    n: Seq<char>,
)
    requires
        forall|x: Seq<char>| wanted_name(providers, wanted, x) ==> #[trigger] s.contains(x),
        forall|m: Seq<char>, x: Seq<char>| #[trigger] s.contains(m) && #[trigger] dep_of(packages, providers, m, x) ==> s.contains(x),
        reach(packages, providers, wanted, k).contains(n),
    ensures
        s.contains(n),
    decreases k,
{
    if k > 0 {
        let prev = reach(packages, providers, wanted, (k - 1) as nat);
        if prev.contains(n) {
            lemma_closed_holds_reach(packages, providers, wanted, s, (k - 1) as nat, n);
        } else {
            let m = choose|m: Seq<char>| #[trigger] prev.contains(m) && dep_of(packages, providers, m, n);
            lemma_closed_holds_reach(packages, providers, wanted, s, (k - 1) as nat, m);
        }
    }
}

/// A dependency of a needed package is needed.
proof fn lemma_reach_step(
    packages: Map<Seq<char>, PackageView>,
    providers: Map<Seq<char>, Seq<char>>,
    wanted: Seq<Seq<char>>,
    m: Seq<char>,
    n: Seq<char>,
)
    requires
        reachable(packages, providers, wanted, m),
        dep_of(packages, providers, m, n),
    ensures
        reachable(packages, providers, wanted, n),
{
    let k = choose|k: nat| #[trigger] reach(packages, providers, wanted, k).contains(m);
    let prev = reach(packages, providers, wanted, k);
    assert(grow(packages, providers, prev).contains(n));
    assert(reach(packages, providers, wanted, k + 1).contains(n));
}

/// A wanted name is needed.
proof fn lemma_reach_wanted(
    packages: Map<Seq<char>, PackageView>,
    providers: Map<Seq<char>, Seq<char>>,
    wanted: Seq<Seq<char>>,
    n: Seq<char>,
)
    requires
        wanted_name(providers, wanted, n),
    ensures
        reachable(packages, providers, wanted, n),
{
    assert(reach(packages, providers, wanted, 0).contains(n));
}

/// Some token on the stack stands for `n`.
pub open spec fn on_stack(providers: Map<Seq<char>, Seq<char>>, stack: Seq<Seq<char>>, n: Seq<char>) -> bool {
    exists|s: int| 0 <= s < stack.len() && dep_name(providers, #[trigger] stack[s]) == Some(n)
}

fn copy_strings(v: &Vec<String>) -> (r: Vec<String>)
    ensures
        r@ == v@,
{
    let mut out: Vec<String> = Vec::new();
    let n = v.len();
    let mut i: usize = 0;
    while i < n
        invariant
            n == v@.len(),
            i <= n,
            out@ == v@.subrange(0, i as int),
        decreases n - i,
    {
        out.push(v[i].clone());
        assert(out@ =~= v@.subrange(0, i + 1));
        i = i + 1;
    }
    assert(v@.subrange(0, n as int) =~= v@);
    out
}

impl Package {
    /// A copy of the package, field for field.
    pub fn copied(&self) -> (r: Package)
        ensures
            r@ == self@,
    {
        Package {
            name: self.name.clone(),
            version: self.version.clone(),
            repo: self.repo.clone(),
            depends: copy_strings(&self.depends),
            provides: copy_strings(&self.provides),
        }
    }
}

/// The error for a needed package that no index holds.
pub open spec fn missing_package(n: Seq<char>) -> Seq<char> {
    "missing package in APKINDEX: "@ + n
}

fn contains_name(v: &Vec<Package>, name: &String) -> (r: bool)
    ensures
        r == names_of(v@).contains(name@),
{
    let k = chars_of(name.as_str());
    let n = v.len();
    let mut i: usize = 0;
    while i < n
        invariant
            n == v@.len(),
            i <= n,
            k@ == name@,
            forall|j: int| 0 <= j < i ==> names_of(v@)[j] != name@,
        decreases n - i,
    {
        if chars_eq(&chars_of(v[i].name.as_str()), &k) {
            assert(names_of(v@)[i as int] == name@);
            return true;
        }
        i = i + 1;
    }
    false
}

/// A target on the stack stays on it when the stack loses its last token
/// and that token stood for something else.
proof fn lemma_on_stack_after_pop(pr: Map<Seq<char>, Seq<char>>, st0: Seq<Seq<char>>, st1: Seq<Seq<char>>, n: Seq<char>)
    requires
        st0.len() > 0,
        st1.len() >= st0.len() - 1,
        forall|s: int| 0 <= s < st0.len() - 1 ==> st1[s] == st0[s],
        on_stack(pr, st0, n),
        dep_name(pr, st0.last()) != Some(n),
    ensures
        on_stack(pr, st1, n),
{
    let s = choose|s: int| 0 <= s < st0.len() && dep_name(pr, #[trigger] st0[s]) == Some(n);
    assert(s != st0.len() - 1);
    assert(st1[s] == st0[s]);
}

proof fn lemma_sorted_distinct(v: Seq<Seq<char>>)
    requires
        strictly_sorted(v),
    ensures
        v.no_duplicates(),
{
    assert forall|i: int, j: int| 0 <= i < v.len() && 0 <= j < v.len() && i != j implies v[i] != v[j] by {
        if i < j {
            assert(str_lt(v[i], v[j]));
            if v[i] == v[j] {
                lemma_str_lt_irreflexive(v[i]);
            }
        } else {
            assert(str_lt(v[j], v[i]));
            if v[i] == v[j] {
                lemma_str_lt_irreflexive(v[i]);
            }
        }
    }
}

/// The first needed package missing from the index, in the order the
/// resolution meets names: tokens are taken from the top of a stack that
/// starts as the wanted list, a name already `seen` is passed over, and a
/// package found pushes its dependencies. `None` when nothing is missing.
pub open spec fn first_missing(
    packages: Map<Seq<char>, PackageView>,
    providers: Map<Seq<char>, Seq<char>>,
    stack: Seq<Seq<char>>,
    seen: Set<Seq<char>>,
) -> Option<Seq<char>>
    decreases packages.dom().len() - seen.len(), stack.len(),
    when packages.dom().finite() && seen.subset_of(packages.dom())
{
    if stack.len() == 0 {
        None
    } else {
        let rest = stack.drop_last();
        match dep_name(providers, stack.last()) {
            None => first_missing(packages, providers, rest, seen),
            Some(n) => if seen.contains(n) {
                first_missing(packages, providers, rest, seen)
            } else if !packages.dom().contains(n) {
                Some(n)
            } else {
                proof {
                    vstd::set_lib::lemma_len_subset(seen.insert(n), packages.dom());
                    vstd::set_lib::lemma_len_subset(seen, packages.dom());
                }
                first_missing(packages, providers, rest + packages[n].depends, seen.insert(n))
            },
        }
    }
}

proof fn lemma_first_missing_step(
    pk: Map<Seq<char>, PackageView>,
    pr: Map<Seq<char>, Seq<char>>,
    st: Seq<Seq<char>>,
    seen: Set<Seq<char>>,
)
    requires
        pk.dom().finite(),
        seen.subset_of(pk.dom()),
    ensures
        st.len() == 0 ==> first_missing(pk, pr, st, seen) is None,
        st.len() > 0 ==> first_missing(pk, pr, st, seen) == match dep_name(pr, st.last()) {
            None => first_missing(pk, pr, st.drop_last(), seen),
            Some(n) => if seen.contains(n) {
                first_missing(pk, pr, st.drop_last(), seen)
            } else if !pk.dom().contains(n) {
                Some(n)
            } else {
                first_missing(pk, pr, st.drop_last() + pk[n].depends, seen.insert(n))
            },
        },
{
}

/// The names of the resolved packages lie in the index.
proof fn lemma_seen_in_index(pk: Map<Seq<char>, PackageView>, v: Seq<Package>)
    requires
        forall|i: int| 0 <= i < v.len() ==> pk.dom().contains(#[trigger] names_of(v)[i]),
    ensures
        names_of(v).to_set().subset_of(pk.dom()),
{
    assert forall|x: Seq<char>| names_of(v).to_set().contains(x) implies pk.dom().contains(x) by {
        let k = choose|k: int| 0 <= k < names_of(v).len() && names_of(v)[k] == x;
    }
}

/// The packages needed for `wanted`, sorted by name: each wanted token and
/// each dependency of a needed package, through `dep_name`, names a needed
/// package; a needed package that no index holds is an error.
pub fn resolve_packages(packages: &TextMap<Package>, providers: &TextMap<String>, wanted: &Vec<String>) -> (r: Result<Vec<Package>, String>)
    requires
        packages.wf(),
        providers.wf(),
        keyed_by_name(pkg_map(packages.view())),
    ensures
        ({
            let pk = pkg_map(packages.view());
            let pr = text_map(providers.view());
            let w = strs(wanted@);
            match r {
                Ok(v) => {
                    &&& strictly_sorted(names_of(v@))
                    &&& forall|i: int| 0 <= i < v@.len() ==> pk.dom().contains(#[trigger] names_of(v@)[i])
                        && pk[names_of(v@)[i]] == v@[i]@
                    &&& forall|n: Seq<char>| #[trigger] names_of(v@).contains(n) <==> reachable(pk, pr, w, n)
                },
                Err(msg) => exists|n: Seq<char>| reachable(pk, pr, w, n) && !pk.dom().contains(n)
                    && msg@ == missing_package(n),
            }
        }),
        r is Ok ==> first_missing(pkg_map(packages.view()), text_map(providers.view()), strs(wanted@), Set::empty()) is None,
        r is Err ==> (first_missing(pkg_map(packages.view()), text_map(providers.view()), strs(wanted@), Set::empty())
            matches Some(n) && r->Err_0@ == missing_package(n)),
{
    let ghost pk = pkg_map(packages.view());
    let ghost pr = text_map(providers.view());
    let ghost w = strs(wanted@);
    let total = packages.len();
    let mut stack = copy_strings(wanted);
    let mut resolved: Vec<Package> = Vec::new();
    proof {
        crate::textmap::lemma_map_of_finite(packages);
        assert(pk.dom() =~= packages.view().dom());
        assert(names_of(resolved@).to_set() =~= Set::<Seq<char>>::empty());
        assert(strs(stack@) == w);
        assert forall|s: int| 0 <= s < stack@.len() implies (dep_name(pr, #[trigger] strs(stack@)[s]) matches Some(n)
            ==> reachable(pk, pr, w, n)) by {
            if let Some(n) = dep_name(pr, strs(stack@)[s]) {
                assert(w[s] == strs(stack@)[s]);
                lemma_reach_wanted(pk, pr, w, n);
            }
        }
        assert forall|n: Seq<char>| #[trigger] wanted_name(pr, w, n) implies names_of(resolved@).contains(n)
            || on_stack(pr, strs(stack@), n) by {
            let i = choose|i: int| 0 <= i < w.len() && dep_name(pr, #[trigger] w[i]) == Some(n);
            assert(strs(stack@)[i] == w[i]);
        }
    }
    while stack.len() > 0
        invariant
            packages.wf(),
            providers.wf(),
            pk == pkg_map(packages.view()),
            pr == text_map(providers.view()),
            w == strs(wanted@),
            keyed_by_name(pk),
            pk.dom().finite(),
            first_missing(pk, pr, strs(stack@), names_of(resolved@).to_set()) == first_missing(pk, pr, w, Set::empty()),
            total == packages.view().dom().len(),
            resolved@.len() <= total,
            strictly_sorted(names_of(resolved@)),
            forall|i: int| 0 <= i < resolved@.len() ==> pk.dom().contains(#[trigger] names_of(resolved@)[i])
                && pk[names_of(resolved@)[i]] == resolved@[i]@,
            forall|n: Seq<char>| #[trigger] names_of(resolved@).contains(n) ==> reachable(pk, pr, w, n),
            forall|s: int| 0 <= s < stack@.len() ==> (dep_name(pr, #[trigger] strs(stack@)[s]) matches Some(n)
                ==> reachable(pk, pr, w, n)),
            forall|n: Seq<char>| #[trigger] wanted_name(pr, w, n) ==> names_of(resolved@).contains(n)
                || on_stack(pr, strs(stack@), n),
            forall|m: Seq<char>, n: Seq<char>| #[trigger] names_of(resolved@).contains(m) && #[trigger] dep_of(pk, pr, m, n)
                ==> names_of(resolved@).contains(n) || on_stack(pr, strs(stack@), n),
        decreases total - resolved@.len(), stack@.len(),
    {
        let ghost st0 = strs(stack@);
        let token = stack.pop().unwrap();
        let ghost st1 = strs(stack@);
        assert(token@ == st0.last());
        assert forall|s: int| 0 <= s < st0.len() - 1 implies st1[s] == st0[s] by {}
        let ghost names0 = names_of(resolved@);
        proof {
            lemma_seen_in_index(pk, resolved@);
            lemma_first_missing_step(pk, pr, st0, names0.to_set());
            assert(st1 =~= st0.drop_last());
        }
        match normalize_dep(providers, token.as_str()) {
            None => {
                proof {
                    assert forall|n: Seq<char>| #[trigger] wanted_name(pr, w, n) implies names_of(resolved@).contains(n)
                        || on_stack(pr, st1, n) by {
                        if !names0.contains(n) {
                            lemma_on_stack_after_pop(pr, st0, st1, n);
                        }
                    }
                    assert forall|m: Seq<char>, n: Seq<char>| #[trigger] names_of(resolved@).contains(m) && #[trigger] dep_of(pk, pr, m, n)
                        implies names_of(resolved@).contains(n) || on_stack(pr, st1, n) by {
                        if !names0.contains(n) {
                            lemma_on_stack_after_pop(pr, st0, st1, n);
                        }
                    }
                    assert forall|s: int| 0 <= s < stack@.len() implies (dep_name(pr, #[trigger] strs(stack@)[s]) matches Some(n)
                        ==> reachable(pk, pr, w, n)) by {
                        assert(st1[s] == st0[s]);
                    }
                }
            },
            Some(name) => {
                if contains_name(&resolved, &name) {
                    proof {
                        assert forall|n: Seq<char>| #[trigger] wanted_name(pr, w, n) implies names_of(resolved@).contains(n)
                            || on_stack(pr, st1, n) by {
                            if !names0.contains(n) {
                                lemma_on_stack_after_pop(pr, st0, st1, n);
                            }
                        }
                        assert forall|m: Seq<char>, n: Seq<char>| #[trigger] names_of(resolved@).contains(m) && #[trigger] dep_of(pk, pr, m, n)
                            implies names_of(resolved@).contains(n) || on_stack(pr, st1, n) by {
                            if !names0.contains(n) {
                                lemma_on_stack_after_pop(pr, st0, st1, n);
                            }
                        }
                        assert forall|s: int| 0 <= s < stack@.len() implies (dep_name(pr, #[trigger] strs(stack@)[s]) matches Some(n)
                            ==> reachable(pk, pr, w, n)) by {
                            assert(st1[s] == st0[s]);
                        }
                    }
                } else {
                    let found = packages.get(name.as_str());
                    proof {
                        assert(dep_name(pr, st0[st0.len() - 1]) == Some(name@));
                        assert(reachable(pk, pr, w, name@));
                    }
                    let package = match found {
                        Some(p) => p.copied(),
                        None => {
                            let msg = text3("missing package in APKINDEX: ", &chars_of(name.as_str()), "");
                            proof {
                                reveal_strlit("");
                                assert(msg@ =~= missing_package(name@));
                                assert(!pk.dom().contains(name@));
                            }
                            return Err(msg);
                        },
                    };
                    let ghost pv = package@;
                    assert(pk.dom().contains(name@) && pk[name@] == pv);
                    assert(pv.name == name@);
                    let nd = package.depends.len();
                    let mut j: usize = 0;
                    while j < nd
                        invariant
                            nd == package.depends@.len(),
                            j <= nd,
                            pv == package@,
                            strs(stack@) == st1 + pv.depends.subrange(0, j as int),
                        decreases nd - j,
                    {
                        let ghost before = strs(stack@);
                        stack.push(package.depends[j].clone());
                        assert(strs(stack@) =~= before.push(package.depends@[j as int]@));
                        assert(pv.depends.subrange(0, j + 1) =~= pv.depends.subrange(0, j as int).push(pv.depends[j as int]));
                        j = j + 1;
                    }
                    assert(pv.depends.subrange(0, nd as int) =~= pv.depends);
                    let ghost st2 = strs(stack@);
                    let ghost old_resolved = resolved@;
                    insert_package_sorted(&mut resolved, package);
                    proof {
                        let pos = choose|i: int| 0 <= i <= old_resolved.len() && resolved@ == old_resolved.insert(i, package);
                        assert(names_of(resolved@) =~= names0.insert(pos, name@));
                        let names1 = names_of(resolved@);
                        assert forall|x: Seq<char>| #[trigger] names1.contains(x) <==> names0.contains(x) || x == name@ by {
                            if names1.contains(x) {
                                let k = choose|k: int| 0 <= k < names1.len() && names1[k] == x;
                                if k < pos {
                                    assert(names0[k] == x);
                                } else if k > pos {
                                    assert(names0[k - 1] == x);
                                }
                            }
                            if names0.contains(x) {
                                let k = choose|k: int| 0 <= k < names0.len() && names0[k] == x;
                                if k < pos {
                                    assert(names1[k] == x);
                                } else {
                                    assert(names1[k + 1] == x);
                                }
                            }
                            if x == name@ {
                                assert(names1[pos] == x);
                            }
                        }
                        assert forall|i: int| 0 <= i < resolved@.len() implies pk.dom().contains(#[trigger] names_of(resolved@)[i])
                            && pk[names_of(resolved@)[i]] == resolved@[i]@ by {
                            if i < pos {
                                assert(resolved@[i] == old_resolved[i]);
                                assert(names0[i] == names1[i]);
                            } else if i > pos {
                                assert(resolved@[i] == old_resolved[i - 1]);
                                assert(names0[i - 1] == names1[i]);
                            }
                        }
                        assert forall|s: int| 0 <= s < stack@.len() implies (dep_name(pr, #[trigger] strs(stack@)[s]) matches Some(n)
                            ==> reachable(pk, pr, w, n)) by {
                            if s < st1.len() {
                                assert(st2[s] == st1[s] && st1[s] == st0[s]);
                            } else {
                                let jj = s - st1.len();
                                assert(st2[s] == pv.depends[jj]);
                                if let Some(n) = dep_name(pr, st2[s]) {
                                    assert(dep_of(pk, pr, name@, n));
                                    lemma_reach_step(pk, pr, w, name@, n);
                                }
                            }
                        }
                        assert forall|n: Seq<char>| #[trigger] wanted_name(pr, w, n) implies names1.contains(n)
                            || on_stack(pr, st2, n) by {
                            if !names0.contains(n) && n != name@ {
                                lemma_on_stack_after_pop(pr, st0, st2, n);
                            }
                        }
                        assert forall|m: Seq<char>, n: Seq<char>| #[trigger] names1.contains(m) && #[trigger] dep_of(pk, pr, m, n)
                            implies names1.contains(n) || on_stack(pr, st2, n) by {
                            if m == name@ {
                                let jj = choose|jj: int| 0 <= jj < pk[m].depends.len()
                                    && dep_name(pr, #[trigger] pk[m].depends[jj]) == Some(n);
                                assert(st2[st1.len() + jj] == pv.depends[jj]);
                            } else if !names0.contains(n) && n != name@ {
                                assert(names0.contains(m));
                                lemma_on_stack_after_pop(pr, st0, st2, n);
                            }
                        }
                        assert(names1.to_set() =~= names0.to_set().insert(name@));
                        assert(st2 =~= st0.drop_last() + pk[name@].depends);
                        lemma_sorted_distinct(names1);
                        names1.unique_seq_to_set();
                        assert(names1.to_set().subset_of(packages.view().dom())) by {
                            assert forall|x: Seq<char>| names1.to_set().contains(x) implies packages.view().dom().contains(x) by {
                                let k = choose|k: int| 0 <= k < names1.len() && names1[k] == x;
                                assert(pk.dom().contains(names_of(resolved@)[k]));
                            }
                        }
                        crate::textmap::lemma_map_of_finite(packages);
                        vstd::set_lib::lemma_len_subset(names1.to_set(), packages.view().dom());
                    }
                }
            },
        }
    }
    proof {
        lemma_seen_in_index(pk, resolved@);
        lemma_first_missing_step(pk, pr, strs(stack@), names_of(resolved@).to_set());
        let names = names_of(resolved@);
        assert forall|n: Seq<char>| #[trigger] names.contains(n) <==> reachable(pk, pr, w, n) by {
            if reachable(pk, pr, w, n) {
                let k = choose|k: nat| #[trigger] reach(pk, pr, w, k).contains(n);
                assert forall|x: Seq<char>| wanted_name(pr, w, x) implies #[trigger] names.to_set().contains(x) by {
                    assert(!on_stack(pr, strs(stack@), x));
                }
                assert forall|m: Seq<char>, x: Seq<char>| #[trigger] names.to_set().contains(m) && #[trigger] dep_of(pk, pr, m, x)
                    implies names.to_set().contains(x) by {
                    assert(names.contains(m));
                    assert(!on_stack(pr, strs(stack@), x));
                }
                lemma_closed_holds_reach(pk, pr, w, names.to_set(), k, n);
            }
        }
    }
    Ok(resolved)
}

} // verus!
