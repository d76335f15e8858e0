//! Persistent memory kept as one file per key plus an index of entries.
//! This module holds the bookkeeping: key sanitising, paths, and the index
//! updates of write, read, list and delete.
use vstd::prelude::*;

use crate::clock::Timestamp;
use crate::text::{
    chars_of, push_char, push_str, seq_starts_with, starts_with, str_eq, string_from_chars,
    string_views, to_owned_string,
};
use crate::turn::clone_opt_string;

verus! {

/// Joining a relative path onto a base, as `PathBuf::push` does on Unix: an
/// absolute path replaces the base; otherwise a `/` is put between them unless
/// the base is empty or already ends with one.
pub open spec fn path_join(base: Seq<char>, rel: Seq<char>) -> Seq<char> {
    if rel.len() > 0 && rel[0] == '/' {
        rel
    } else if base.len() > 0 && base.last() != '/' {
        base + seq!['/'] + rel
    } else {
        base + rel
    }
}

/// `Path::new(base).join(rel)` as text.
pub fn join_path(base: &str, rel: &str) -> (res: String)
    ensures
        res@ == path_join(base@, rel@),
{
    let rv = chars_of(rel);
    if rv.len() > 0 && rv[0] == '/' {
        return to_owned_string(rel);
    }
    let bv = chars_of(base);
    let mut s = to_owned_string(base);
    if bv.len() > 0 && bv[bv.len() - 1] != '/' {
        push_char(&mut s, '/');
    }
    push_str(&mut s, rel);
    s
}

/// Characters that cannot stand in a file name and are replaced by `_`.
pub open spec fn is_key_forbidden(c: char) -> bool {
    c == '/' || c == '\\' || c == ':' || c == '*' || c == '?' || c == '"' || c == '<' || c == '>' || c == '|'
}

/// A key with every forbidden character replaced by `_`.
pub open spec fn sanitized(key: Seq<char>) -> Seq<char> {
    key.map_values(|c: char| if is_key_forbidden(c) { '_' } else { c })
}

/// Memory store rooted at a directory.
#[derive(Debug)]
pub struct FileMemory {
    pub base_path: String,
}

impl FileMemory {
    /// A store rooted at `base_path`.
    pub fn new(base_path: &str) -> (res: Self)
        ensures
            res.base_path@ == base_path@,
    {
        FileMemory { base_path: to_owned_string(base_path) }
    }

    /// The index file, `<base>/.index.json`.
    pub fn index_path(&self) -> (res: String)
        ensures
            res@ == path_join(self.base_path@, ".index.json"@),
    {
        join_path(self.base_path.as_str(), ".index.json")
    }

    /// The file of an entry, `<base>/<key>.md`.
    pub fn entry_path(&self, key: &str) -> (res: String)
        ensures
            res@ == path_join(self.base_path@, key@ + ".md"@),
    {
        let mut name = to_owned_string(key);
        push_str(&mut name, ".md");
        join_path(self.base_path.as_str(), name.as_str())
    }

    /// The key with the characters `/ \ : * ? " < > |` replaced by `_`.
    pub fn sanitize_key(key: &str) -> (res: String)
        ensures
            res@ == sanitized(key@),
    {
        let v = chars_of(key);
        let mut out: Vec<char> = Vec::new();
        for i in 0..v.len()
            invariant
                v@ == key@,
                out@ == sanitized(key@.take(i as int)),
        {
            let c = v[i];
            let d = if c == '/' || c == '\\' || c == ':' || c == '*' || c == '?' || c == '"' || c == '<'
                || c == '>' || c == '|' {
                '_'
            } else {
                c
            };
            out.push(d);
            assert(sanitized(key@.take(i + 1)) =~= sanitized(key@.take(i as int)).push(d));
        }
        assert(key@.take(v.len() as int) =~= key@);
        string_from_chars(&out)
    }
}

/// A sanitised key contains no forbidden character, has the length of the
/// original, and sanitising it again changes nothing.
pub proof fn lemma_sanitize_key(key: Seq<char>)
    ensures
        forall|i: int| 0 <= i < sanitized(key).len() ==> !is_key_forbidden(#[trigger] sanitized(key)[i]),
        sanitized(key).len() == key.len(),
        sanitized(sanitized(key)) == sanitized(key),
{
    assert(sanitized(sanitized(key)) =~= sanitized(key));
}

/// Tags and provenance of an entry.
#[derive(Debug, PartialEq, Eq)]
pub struct Metadata {
    pub tags: Vec<String>,
    pub source: Option<String>,
}

/// An entry as read back.
#[derive(Debug)]
pub struct MemoryEntry {
    pub key: String,
    pub content: String,
    pub metadata: Option<Metadata>,
    pub created_at: Timestamp,
    pub updated_at: Timestamp,
}

/// One line of the index.
#[derive(Debug)]
pub struct IndexEntry {
    pub key: String,
    pub path: String,
    pub tags: Vec<String>,
    pub source: Option<String>,
    pub created_at: Timestamp,
    pub updated_at: Timestamp,
}

/// The index of all entries.
#[derive(Debug)]
pub struct MemoryIndex {
    pub entries: Vec<IndexEntry>,
}

/// The first position of `key` in the index.
pub open spec fn first_pos(entries: Seq<IndexEntry>, key: Seq<char>) -> Option<int>
    decreases entries.len(),
{
    if entries.len() == 0 {
        None
    } else {
        match first_pos(entries.drop_last(), key) {
            Some(p) => Some(p),
            None => if entries.last().key@ == key { Some(entries.len() - 1) } else { None },
        }
    }
}

/// The tags that a write records.
pub open spec fn meta_tags(m: Option<Metadata>) -> Seq<String> {
    match m {
        Some(m) => m.tags@,
        None => Seq::empty(),
    }
}

/// The source that a write records.
pub open spec fn meta_source(m: Option<Metadata>) -> Option<String> {
    match m {
        Some(m) => m.source,
        None => None,
    }
}

/// The line that a write of `key` at `path` with `metadata` at time `now` leaves.
pub open spec fn written_line(e: IndexEntry, key: Seq<char>, path: Seq<char>, metadata: Option<Metadata>, now: Timestamp) -> bool {
    &&& e.key@ == key
    &&& e.path@ == path
    &&& e.tags@ == meta_tags(metadata)
    &&& e.source == meta_source(metadata)
    &&& e.updated_at == now
}

/// Whether an index line is for another key than `key`.
pub open spec fn other_key(key: Seq<char>) -> spec_fn(IndexEntry) -> bool {
    |e: IndexEntry| e.key@ != key
}

/// No key occurs twice.
pub open spec fn keys_unique(entries: Seq<IndexEntry>) -> bool {
    forall|i: int, j: int| 0 <= i < j < entries.len() ==> (#[trigger] entries[i]).key@ != (#[trigger] entries[j]).key@
}

fn clone_strings(v: &Vec<String>) -> (res: Vec<String>)
    ensures
        res@ == v@,
{
    let mut out: Vec<String> = Vec::new();
    for i in 0..v.len()
        invariant
            out@ == v@.take(i as int),
    {
        out.push(v[i].clone());
        assert(v@.take(i + 1) == v@.take(i as int).push(v@[i as int]));
    }
    assert(v@.take(v.len() as int) == v@);
    out
}

proof fn lemma_first_pos(entries: Seq<IndexEntry>, key: Seq<char>)
    ensures
        match first_pos(entries, key) {
            Some(p) => 0 <= p < entries.len() && entries[p].key@ == key
                && forall|q: int| 0 <= q < p ==> (#[trigger] entries[q]).key@ != key,
            None => forall|q: int| 0 <= q < entries.len() ==> (#[trigger] entries[q]).key@ != key,
        },
    decreases entries.len(),
{
    if entries.len() > 0 {
        let init = entries.drop_last();
        lemma_first_pos(init, key);
        match first_pos(init, key) {
            Some(p) => {
                assert(entries[p] == init[p]);
                assert forall|q: int| 0 <= q < p implies (#[trigger] entries[q]).key@ != key by {
                    assert(entries[q] == init[q]);
                }
            },
            None => {
                assert forall|q: int| 0 <= q < entries.len() - 1 implies (#[trigger] entries[q]).key@ != key by {
                    assert(entries[q] == init[q]);
                }
                assert(entries[entries.len() - 1] == entries.last());
            },
        }
    }
}

impl MemoryIndex {
    /// An empty index.
    pub fn new() -> (res: Self)
        ensures
            res.entries@.len() == 0,
    {
        MemoryIndex { entries: Vec::new() }
    }

    /// The first position holding `key`.
    pub fn position(&self, key: &str) -> (res: Option<usize>)
        ensures
            match res {
                Some(i) => first_pos(self.entries@, key@) == Some(i as int),
                None => first_pos(self.entries@, key@) is None,
            },
    {
        proof {
            lemma_first_pos(self.entries@, key@);
        }
        for i in 0..self.entries.len()
            invariant
                forall|q: int| 0 <= q < i ==> (#[trigger] self.entries@[q]).key@ != key@,
                match first_pos(self.entries@, key@) {
                    Some(p) => 0 <= p < self.entries@.len() && self.entries@[p].key@ == key@
                        && forall|q: int| 0 <= q < p ==> (#[trigger] self.entries@[q]).key@ != key@,
                    None => forall|q: int| 0 <= q < self.entries@.len() ==> (#[trigger] self.entries@[q]).key@ != key@,
                },
        {
            if str_eq(self.entries[i].key.as_str(), key) {
                return Some(i);
            }
        }
        None
    }

    /// Record a write of `key` (already sanitised) stored at `path` at time
    /// `now`: an existing line for the key is replaced, keeping its creation
    /// time; otherwise a line is appended, created now.
    pub fn upsert(&mut self, key: &str, path: &str, metadata: &Option<Metadata>, now: Timestamp)
        ensures
            match first_pos(old(self).entries@, key@) {
                Some(p) => final(self).entries@.len() == old(self).entries@.len()
                    && written_line(final(self).entries@[p], key@, path@, *metadata, now)
                    && final(self).entries@[p].created_at == old(self).entries@[p].created_at
                    && forall|q: int| 0 <= q < old(self).entries@.len() && q != p
                        ==> #[trigger] final(self).entries@[q] == old(self).entries@[q],
                None => final(self).entries@.len() == old(self).entries@.len() + 1
                    && written_line(final(self).entries@.last(), key@, path@, *metadata, now)
                    && final(self).entries@.last().created_at == now
                    && forall|q: int| 0 <= q < old(self).entries@.len()
                        ==> #[trigger] final(self).entries@[q] == old(self).entries@[q],
            },
    {
        proof {
            lemma_first_pos(self.entries@, key@);
        }
        let pos = self.position(key);
        let (tags, source) = match metadata {
            Some(m) => (clone_strings(&m.tags), clone_opt_string(&m.source)),
            None => (Vec::new(), None),
        };
        match pos {
            Some(p) => {
                assert(first_pos(self.entries@, key@) == Some(p as int));
                let created_at = self.entries[p].created_at;
                let entry = IndexEntry {
                    key: to_owned_string(key),
                    path: to_owned_string(path),
                    tags,
                    source,
                    created_at,
                    updated_at: now,
                };
                let ghost ge = entry;
                self.entries.set(p, entry);
                assert(self.entries@[p as int] == ge);

            },
            None => {
                let entry = IndexEntry {
                    key: to_owned_string(key),
                    path: to_owned_string(path),
                    tags,
                    source,
                    created_at: now,
                    updated_at: now,
                };
                self.entries.push(entry);
            },
        }
    }

    /// Record a delete: every line for `key` goes, the others stay in order.
    pub fn remove_key(&mut self, key: &str)
        ensures
            final(self).entries@ == old(self).entries@.filter(other_key(key@)),
    {
        let ghost keep = other_key(key@);
        let mut rest: Vec<IndexEntry> = Vec::new();
        std::mem::swap(&mut rest, &mut self.entries);
        let ghost orig = rest@;
        let mut kept: Vec<IndexEntry> = Vec::new();
        while rest.len() > 0
            invariant
                orig == old(self).entries@,
                keep == other_key(key@),
                rest@.len() <= orig.len(),
                rest@ == orig.skip(orig.len() - rest@.len()),
                kept@ == orig.take(orig.len() - rest@.len()).filter(keep),
            decreases rest.len(),
        {
            let ghost n0 = orig.len() - rest@.len();
            let ghost r0 = rest@;
            let e = rest.remove(0);
            assert(e == orig[n0]) by {
                assert(r0[0] == orig.skip(n0)[0]);
            }
            assert(rest@ =~= orig.skip(n0 + 1));
            assert(orig.take(n0 + 1).drop_last() =~= orig.take(n0));
            assert(orig.take(n0 + 1).last() == e);
            let ghost ge = e;
            let drop = str_eq(e.key.as_str(), key);
            assert(drop == (ge.key@ == key@));
            if !drop {
                kept.push(e);
            }
            proof {
                reveal(Seq::filter);
                assert(keep(ge) == !drop);
            }
        }
        assert(orig.take(orig.len() as int) =~= orig);
        self.entries = kept;
    }

    /// The keys listed for an optional prefix: those that start with it and
    /// whose file exists (`exists[i]` tells whether the file of line `i` exists).
    pub fn list_keys(&self, prefix: Option<&str>, exists: &Vec<bool>) -> (res: Vec<String>)
        requires
            exists.len() == self.entries.len(),
        ensures
            string_views(res@) == listed(self.entries@, prefix_view(prefix), exists@),
    {
        let mut out: Vec<String> = Vec::new();
        for i in 0..self.entries.len()
            invariant
                exists.len() == self.entries.len(),
                string_views(out@) == listed(self.entries@.take(i as int), prefix_view(prefix), exists@.take(i as int)),
        {
            let e = &self.entries[i];
            let ok = match prefix {
                Some(p) => starts_with(e.key.as_str(), p),
                None => true,
            } && exists[i];
            let ghost prev = out@;
            if ok {
                out.push(e.key.clone());
            }
            assert(self.entries@.take(i + 1).drop_last() =~= self.entries@.take(i as int));
            assert(exists@.take(i + 1).drop_last() =~= exists@.take(i as int));
            assert(string_views(out@) =~= listed(self.entries@.take(i + 1), prefix_view(prefix), exists@.take(i + 1))) by {
                if ok {
                    assert(string_views(out@) =~= string_views(prev).push(e.key@));
                }
            }
        }
        assert(self.entries@.take(self.entries.len() as int) =~= self.entries@);
        assert(exists@.take(self.entries.len() as int) =~= exists@);
        out
    }

    /// The entry read back for line `pos` with the file's `content`.
    pub fn entry_at(&self, pos: usize, content: String) -> (res: MemoryEntry)
        requires
            pos < self.entries.len(),
        ensures
            res.key == self.entries@[pos as int].key,
            res.content == content,
            res.metadata matches Some(m) && m.tags@ == self.entries@[pos as int].tags@
                && m.source == self.entries@[pos as int].source,
            res.created_at == self.entries@[pos as int].created_at,
            res.updated_at == self.entries@[pos as int].updated_at,
    {
        let e = &self.entries[pos];
        MemoryEntry {
            key: e.key.clone(),
            content,
            metadata: Some(Metadata { tags: clone_strings(&e.tags), source: clone_opt_string(&e.source) }),
            created_at: e.created_at,
            updated_at: e.updated_at,
        }
    }
}

/// The view of an optional prefix.
pub open spec fn prefix_view(p: Option<&str>) -> Option<Seq<char>> {
    match p {
        Some(s) => Some(s@),
        None => None,
    }
}

/// The keys that a listing shows.
pub open spec fn listed(entries: Seq<IndexEntry>, prefix: Option<Seq<char>>, exists: Seq<bool>) -> Seq<Seq<char>>
    decreases entries.len(),
{
    if entries.len() == 0 || exists.len() == 0 {
        Seq::empty()
    } else {
        let prev = listed(entries.drop_last(), prefix, exists.drop_last());
        let e = entries.last();
        let ok = match prefix {
            Some(p) => seq_starts_with(e.key@, p),
            None => true,
        } && exists.last();
        if ok { prev.push(e.key@) } else { prev }
    }
}

/// After a write of `key`, the index holds exactly one line for it when it held
/// at most one before, the line found first for the key is the one just
/// written, and no key occurs twice if none did before.
pub proof fn lemma_write_then_read(before: Seq<IndexEntry>, after: Seq<IndexEntry>, key: Seq<char>, path: Seq<char>, now: Timestamp)
    requires
        match first_pos(before, key) {
            Some(p) => after.len() == before.len() && after[p].key@ == key && after[p].path@ == path
                && after[p].updated_at == now
                && forall|q: int| 0 <= q < before.len() && q != p ==> #[trigger] after[q] == before[q],
            None => after.len() == before.len() + 1 && after.last().key@ == key && after.last().path@ == path
                && after.last().updated_at == now
                && forall|q: int| 0 <= q < before.len() ==> #[trigger] after[q] == before[q],
        },
    ensures
        first_pos(after, key) matches Some(p) && after[p].path@ == path && after[p].updated_at == now,
        keys_unique(before) ==> keys_unique(after),
{
    lemma_first_pos(before, key);
    lemma_first_pos(after, key);
    match first_pos(before, key) {
        Some(p) => {
            assert forall|q: int| 0 <= q < p implies (#[trigger] after[q]).key@ != key by {
                assert(after[q] == before[q]);
            }
            if keys_unique(before) {
                assert forall|i: int, j: int| 0 <= i < j < after.len() implies
                    (#[trigger] after[i]).key@ != (#[trigger] after[j]).key@ by {
                    if i != p && j != p {
                        assert(after[i] == before[i] && after[j] == before[j]);
                    } else if i == p {
                        assert(after[j] == before[j]);
                        assert(before[p].key@ == key);
                    } else {
                        assert(after[i] == before[i]);
                        assert(before[p].key@ == key);
                    }
                }
            }
        },
        None => {
            let n = before.len() as int;
            assert forall|q: int| 0 <= q < n implies (#[trigger] after[q]).key@ != key by {
                assert(after[q] == before[q]);
            }
            assert(after[n] == after.last());
            if keys_unique(before) {
                assert forall|i: int, j: int| 0 <= i < j < after.len() implies
                    (#[trigger] after[i]).key@ != (#[trigger] after[j]).key@ by {
                    assert(after[i] == before[i]);
                    if j < n {
                        assert(after[j] == before[j]);
                    }
                }
            }
        },
    }
}

/// A write of `key` leaves every other key where it was: the line found first
/// for another key is at the same position and unchanged.
pub proof fn lemma_write_keeps_others(before: Seq<IndexEntry>, after: Seq<IndexEntry>, key: Seq<char>, other: Seq<char>)
    requires
        other != key,
        match first_pos(before, key) {
            Some(p) => after.len() == before.len() && after[p].key@ == key
                && forall|q: int| 0 <= q < before.len() && q != p ==> #[trigger] after[q] == before[q],
            None => after.len() == before.len() + 1 && after.last().key@ == key
                && forall|q: int| 0 <= q < before.len() ==> #[trigger] after[q] == before[q],
        },
    ensures
        first_pos(after, other) == first_pos(before, other),
        first_pos(before, other) matches Some(p) ==> after[p] == before[p],
{
    lemma_first_pos(before, key);
    lemma_first_pos(before, other);
    lemma_first_pos(after, other);
    assert forall|q: int| 0 <= q < after.len() && (#[trigger] after[q]).key@ == other implies
        q < before.len() && after[q] == before[q] by {
        match first_pos(before, key) {
            Some(p0) => {
                if q == p0 {
                    assert(after[p0].key@ == key);
                }
            },
            None => {
                if q == before.len() {
                    assert(after[q] == after.last());
                }
            },
        }
    }
    match first_pos(before, other) {
        Some(p) => {
            assert(before[p].key@ == other);
            match first_pos(before, key) {
                Some(p0) => {
                    assert(p != p0);
                },
                None => {},
            }
            assert(after[p] == before[p]);
            match first_pos(after, other) {
                Some(pa) => {
                    if pa < p {
                        assert(after[pa] == before[pa]);
                    } else if pa > p {
                        assert(after[p].key@ == other);
                    }
                },
                None => {
                    assert(after[p].key@ == other);
                },
            }
        },
        None => {
            match first_pos(after, other) {
                Some(pa) => {
                    assert(after[pa] == before[pa]);
                },
                None => {},
            }
        },
    }
}

/// After a delete of `key`, no line for it remains.
pub proof fn lemma_delete_then_read(before: Seq<IndexEntry>, key: Seq<char>)
    ensures
        first_pos(before.filter(other_key(key)), key) is None,
        keys_unique(before) ==> keys_unique(before.filter(other_key(key))),
{
    let keep = other_key(key);
    let after = before.filter(keep);
    lemma_first_pos(after, key);
    assert forall|q: int| 0 <= q < after.len() implies (#[trigger] after[q]).key@ != key by {
        assert(keep(after[q]));
    }
    if keys_unique(before) {
        lemma_filter_unique(before, key);
    }
}

/// A delete of `key` leaves every other key readable as it was: a key found
/// before is found after, on the same line, and a key missing before is
/// still missing.
pub proof fn lemma_delete_keeps_others(before: Seq<IndexEntry>, key: Seq<char>, other: Seq<char>)
    requires
        other != key,
    ensures
        first_pos(before, other) is None ==> first_pos(before.filter(other_key(key)), other) is None,
        first_pos(before, other) matches Some(p) ==> (first_pos(before.filter(other_key(key)), other) matches Some(pa)
            && before.filter(other_key(key))[pa] == before[p]),
    decreases before.len(),
{
    reveal(Seq::filter);
    let keep = other_key(key);
    if before.len() > 0 {
        let init = before.drop_last();
        let x = before.last();
        lemma_delete_keeps_others(init, key, other);
        let fi = init.filter(keep);
        let after = before.filter(keep);
        assert(after == if keep(x) { fi.push(x) } else { fi });
        if keep(x) {
            assert(after.drop_last() =~= fi);
            assert(after.last() == x);
        }
        lemma_first_pos(init, other);
        lemma_first_pos(fi, other);
        match first_pos(init, other) {
            Some(p) => {
                assert(first_pos(before, other) == Some(p));
                let pa = first_pos(fi, other)->0;
                assert(first_pos(after, other) == Some(pa));
                assert(init[p] == before[p]);
                if keep(x) {
                    assert(after[pa] == fi[pa]);
                }
            },
            None => {
                if x.key@ == other {
                    assert(keep(x));
                    assert(first_pos(after, other) == Some(fi.len() as int));
                    assert(after[fi.len() as int] == x);
                    assert(before[before.len() - 1] == x);
                } else {
                    assert(first_pos(before, other) is None);
                }
            },
        }
    }
}

proof fn lemma_filter_unique(before: Seq<IndexEntry>, key: Seq<char>)
    requires
        keys_unique(before),
    ensures
        keys_unique(before.filter(other_key(key))),
    decreases before.len(),
{
    reveal(Seq::filter);
    let keep = other_key(key);
    if before.len() > 0 {
        let init = before.drop_last();
        assert forall|i: int, j: int| 0 <= i < j < init.len() implies
            (#[trigger] init[i]).key@ != (#[trigger] init[j]).key@ by {
            assert(init[i] == before[i] && init[j] == before[j]);
        }
        lemma_filter_unique(init, key);
        let fi = init.filter(keep);
        let f = before.filter(keep);
        if keep(before.last()) {
            assert(f == fi.push(before.last()));
            assert forall|q: int| 0 <= q < fi.len() implies (#[trigger] fi[q]).key@ != before.last().key@ by {
                assert(fi.contains(fi[q]));
                init.lemma_filter_contains_rev(keep, fi[q]);
                let w = choose|w: int| 0 <= w < init.len() && init[w] == fi[q];
                assert(before[w] == init[w]);
                assert(before[before.len() - 1] == before.last());
            }
            assert forall|i: int, j: int| 0 <= i < j < f.len() implies
                (#[trigger] f[i]).key@ != (#[trigger] f[j]).key@ by {
                if j < fi.len() {
                    assert(f[i] == fi[i] && f[j] == fi[j]);
                } else {
                    assert(f[i] == fi[i]);
                }
            }
        } else {
            assert(f == fi);
        }
    }
}

/// `grep_regex::RegexMatcher`, used to search entry files.
#[verifier::external_type_specification]
#[verifier::external_body]
pub struct ExRegexMatcher(grep_regex::RegexMatcher);

/// Whether `grep_regex` builds a line matcher from a pattern: the pattern
/// parses as a regular expression and holds no literal line feed.
pub uninterp spec fn line_matcher_builds(pattern: Seq<char>) -> bool;

/// `grep_regex::RegexMatcher::new_line_matcher`: a matcher for lines
/// terminated by `\n`, or `None` when the crate refuses the pattern. Whether
/// it builds is named, not stated.
#[verifier::external_body]
fn new_line_matcher(pattern: &str) -> (res: Option<grep_regex::RegexMatcher>)
    ensures
        res is Some <==> line_matcher_builds(pattern@),
{
    grep_regex::RegexMatcher::new_line_matcher(pattern).ok()
}

/// A character the `regex` crate treats as special.
pub open spec fn regex_meta(c: char) -> bool {
    c == '\\' || c == '.' || c == '+' || c == '*' || c == '?' || c == '(' || c == ')' || c == '|' || c == '['
        || c == ']' || c == '{' || c == '}' || c == '^' || c == '$' || c == '#' || c == '&' || c == '-' || c == '~'
}

/// A text with every special character escaped by a backslash.
pub open spec fn regex_escaped(s: Seq<char>) -> Seq<char>
    decreases s.len(),
{
    if s.len() == 0 {
        Seq::empty()
    } else {
        let prev = regex_escaped(s.drop_last());
        if regex_meta(s.last()) { prev + seq!['\\', s.last()] } else { prev.push(s.last()) }
    }
}

/// `regex::escape`: its source puts a backslash before each character that
/// `regex_syntax::is_meta_character` accepts and keeps every character.
#[verifier::external_body]
fn regex_escape(s: &str) -> (res: String)
    ensures
        res@ == regex_escaped(s@),
{
    regex::escape(s)
}

/// The pattern a search tries first: the query as a case-insensitive
/// regular expression.
pub open spec fn search_pattern(query: Seq<char>) -> Seq<char> {
    "(?i)"@ + query
}

/// A search's line matcher together with the pattern it was built from.
/// Only `FileMemory::search_matcher` makes one, so its matcher is always the
/// one `grep_regex` built from its pattern.
pub struct SearchMatcher {
    pattern: String,
    matcher: grep_regex::RegexMatcher,
}

/// Whether the line matcher `grep_regex` builds from `pattern` finds a match
/// in `text`.
pub uninterp spec fn line_hit(pattern: Seq<char>, text: Seq<char>) -> bool;

/// `grep_matcher::Matcher::is_match` of the search's matcher on the bytes of
/// `text`. The answer is named over the pattern the matcher was built from
/// and the text; a regex matcher has no error case.
#[verifier::external_body]
fn text_hit(m: &SearchMatcher, text: &str) -> (res: bool)
    ensures
        res == line_hit(m.pattern(), text@),
{
    match grep_matcher::Matcher::is_match(&m.matcher, text.as_bytes()) {
        Ok(b) => b,
        Err(_) => false,
    }
}

/// An entry is a hit when the matcher matches its key, one of its tags, or
/// a line of its content (`content_hit`).
pub open spec fn entry_hit(pattern: Seq<char>, key: Seq<char>, tags: Seq<Seq<char>>, content_hit: bool) -> bool {
    ||| content_hit
    ||| line_hit(pattern, key)
    ||| exists|i: int| 0 <= i < tags.len() && line_hit(pattern, #[trigger] tags[i])
}

impl SearchMatcher {
    /// The pattern the matcher was built from.
    pub closed spec fn pattern(&self) -> Seq<char> {
        self.pattern@
    }

    /// The line matcher, for searching the entry files.
    pub fn matcher(&self) -> &grep_regex::RegexMatcher {
        &self.matcher
    }

    /// Whether an entry with `key` and `tags`, whose content matched as
    /// `content_hit` says, is a hit of the search.
    pub fn hits_entry(&self, key: &str, tags: &Vec<String>, content_hit: bool) -> (res: bool)
        ensures
            res == entry_hit(self.pattern(), key@, string_views(tags@), content_hit),
    {
        if content_hit || text_hit(self, key) {
            return true;
        }
        let ghost views = string_views(tags@);
        for i in 0..tags.len()
            invariant
                views == string_views(tags@),
                forall|k: int| 0 <= k < i ==> !line_hit(self.pattern(), #[trigger] views[k]),
        {
            if text_hit(self, tags[i].as_str()) {
                assert(line_hit(self.pattern(), views[i as int]));
                return true;
            }
        }
        false
    }
}

impl FileMemory {
    /// The matcher of a search: the query as a case-insensitive regular
    /// expression when it builds, else the query as escaped literal text;
    /// none when neither builds.
    pub fn search_matcher(query: &str) -> (res: Option<SearchMatcher>)
        ensures
            line_matcher_builds(search_pattern(query@)) ==> (res matches Some(m) && m.pattern() == search_pattern(query@)),
            !line_matcher_builds(search_pattern(query@)) ==> (res is Some <==> line_matcher_builds(regex_escaped(query@))),
            !line_matcher_builds(search_pattern(query@)) ==> (res matches Some(m) ==> m.pattern() == regex_escaped(query@)),
    {
        let mut pattern = to_owned_string("(?i)");
        push_str(&mut pattern, query);
        proof {
            reveal_strlit("(?i)");
        }
        match new_line_matcher(pattern.as_str()) {
            Some(m) => Some(SearchMatcher { pattern, matcher: m }),
            None => {
                let escaped = regex_escape(query);
                match new_line_matcher(escaped.as_str()) {
                    Some(m) => Some(SearchMatcher { pattern: escaped, matcher: m }),
                    None => None,
                }
            },
        }
    }

    /// The hits of a search: the entries found, in index order, at most
    /// `limit` of them (`found[i]` is the entry of line `i` when its file
    /// exists, matches and reads).
    pub fn search_results(found: Vec<Option<MemoryEntry>>, limit: usize) -> (res: Vec<MemoryEntry>)
        ensures
            res@ == somes(found@).take(if somes(found@).len() <= limit { somes(found@).len() as int } else { limit as int }),
    {
        let ghost all = found@;
        let mut out: Vec<MemoryEntry> = Vec::new();
        let mut rest = found;
        let mut i: usize = 0;
        assert(all.len() == rest.len());
        while rest.len() > 0 && out.len() < limit
            invariant
                all.len() <= usize::MAX,
                i + rest.len() == all.len(),
                rest@ == all.skip(i as int),
                out@ == somes(all.take(i as int)),
                out@.len() <= limit,
            decreases rest.len(),
        {
            let ghost r0 = rest@;
            let e = rest.remove(0);
            assert(e == all[i as int]) by {
                assert(r0[0] == all.skip(i as int)[0]);
            }
            assert(rest@ =~= all.skip(i + 1));
            assert(all.take(i + 1).drop_last() =~= all.take(i as int));
            match e {
                Some(entry) => out.push(entry),
                None => {},
            }
            i += 1;
        }
        proof {
            lemma_somes_prefix(all, i as int);
            if out@.len() < limit {
                assert(all.take(i as int) =~= all);
            }
        }
        out
    }
}

/// The entries present, in order.
pub open spec fn somes(v: Seq<Option<MemoryEntry>>) -> Seq<MemoryEntry>
    decreases v.len(),
{
    if v.len() == 0 {
        Seq::empty()
    } else {
        let prev = somes(v.drop_last());
        match v.last() {
            Some(e) => prev.push(e),
            None => prev,
        }
    }
}

proof fn lemma_somes_prefix(v: Seq<Option<MemoryEntry>>, i: int)
    requires
        0 <= i <= v.len(),
    ensures
        somes(v).take(somes(v.take(i)).len() as int) == somes(v.take(i)),
        somes(v.take(i)).len() <= somes(v).len(),
    decreases v.len() - i,
{
    if i < v.len() {
        lemma_somes_prefix(v, i + 1);
        let a = somes(v.take(i));
        let b = somes(v.take(i + 1));
        assert(v.take(i + 1).drop_last() =~= v.take(i));
        assert(b.take(a.len() as int) =~= a);
        assert(somes(v).take(a.len() as int) =~= somes(v).take(b.len() as int).take(a.len() as int));
    } else {
        assert(v.take(i) =~= v);
    }
}

} // verus!
