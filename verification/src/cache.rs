//! The cache of resolved metadata: records of a path and its entries, and
//! their form as a value tree.

use vstd::prelude::*;
use vstd::string::*;
use crate::value::{Value, Member, Tree, Field, child, key_index, array_view, object_view, items_view, members_view};

verus! {

/// The resolved metadata of one entry.
#[derive(Debug, Clone, PartialEq, Eq)]
pub struct CacheEntry {
    pub url: String,
    pub id: String,
    pub title: String,
}

/// The mathematical model of a `CacheEntry`.
pub struct CacheEntryView {
    pub url: Seq<char>,
    pub id: Seq<char>,
    pub title: Seq<char>,
}

impl View for CacheEntry {
    type V = CacheEntryView;

    open spec fn view(&self) -> CacheEntryView {
        CacheEntryView { url: self.url@, id: self.id@, title: self.title@ }
    }
}

/// One record of the cache: a path and the entries resolved under it.
#[derive(Debug, PartialEq, Eq)]
pub struct CacheRecord {
    pub path: String,
    pub entries: Vec<CacheEntry>,
}

/// The mathematical model of a `CacheRecord`.
pub struct RecordView {
    pub path: Seq<char>,
    pub entries: Seq<CacheEntryView>,
}

/// The views of a list of cache entries.
pub open spec fn cache_entries_view(entries: Seq<CacheEntry>) -> Seq<CacheEntryView> {
    Seq::new(entries.len(), |i: int| entries[i]@)
}

impl View for CacheRecord {
    type V = RecordView;

    open spec fn view(&self) -> RecordView {
        RecordView { path: self.path@, entries: cache_entries_view(self.entries@) }
    }
}

/// The cache: its records, in the order in which they are stored.
#[derive(Debug, PartialEq, Eq)]
pub struct Cache(pub Vec<CacheRecord>);

impl View for Cache {
    type V = Seq<RecordView>;

    open spec fn view(&self) -> Seq<RecordView> {
        Seq::new(self.0.len() as nat, |i: int| self.0[i]@)
    }
}

/// Why a value tree is no cache.
#[derive(Clone, Copy, Debug, PartialEq, Eq)]
pub enum CacheError {
    /// The tree is no array of records of a path and its entries.
    MalformedDescriptor,
}

/// The string under `key` in the object `t`.
pub open spec fn text_at(t: Tree, key: Seq<char>) -> Option<Seq<char>> {
    match child(t, key) {
        Some(Tree::Str(s)) => Some(s),
        _ => None,
    }
}

/// The cache entry that an object with the strings `url`, `id` and `title`
/// stands for.
pub open spec fn entry_of(t: Tree) -> Option<CacheEntryView> {
    match (text_at(t, "url"@), text_at(t, "id"@), text_at(t, "title"@)) {
        (Some(url), Some(id), Some(title)) => Some(CacheEntryView { url, id, title }),
        _ => None,
    }
}

/// The cache entries that the first `n` of `items` stand for; `None` where
/// one of them is no entry.
pub open spec fn entries_of(items: Seq<Tree>, n: int) -> Option<Seq<CacheEntryView>>
    decreases n,
{
    if n <= 0 {
        Some(Seq::empty())
    } else {
        match (entries_of(items, n - 1), entry_of(items[n - 1])) {
            (Some(entries), Some(e)) => Some(entries.push(e)),
            _ => None,
        }
    }
}

/// The record that an object with the string `path` and the array `entries`
/// stands for.
pub open spec fn record_of(t: Tree) -> Option<RecordView> {
    match (text_at(t, "path"@), child(t, "entries"@)) {
        (Some(path), Some(Tree::Array(items))) => match entries_of(items, items.len() as int) {
            Some(entries) => Some(RecordView { path, entries }),
            None => None,
        },
        _ => None,
    }
}

/// The records that the first `n` of `items` stand for; `None` where one of
/// them is no record.
pub open spec fn records_of(items: Seq<Tree>, n: int) -> Option<Seq<RecordView>>
    decreases n,
{
    if n <= 0 {
        Some(Seq::empty())
    } else {
        match (records_of(items, n - 1), record_of(items[n - 1])) {
            (Some(records), Some(r)) => Some(records.push(r)),
            _ => None,
        }
    }
}

/// The cache that a tree stands for: an array of records.
pub open spec fn cache_of(t: Tree) -> Option<Seq<RecordView>> {
    match t {
        Tree::Array(items) => records_of(items, items.len() as int),
        _ => None,
    }
}

/// The tree of a cache entry.
pub open spec fn entry_tree(e: CacheEntryView) -> Tree {
    Tree::Object(
        seq![
            Field { key: "url"@, value: Tree::Str(e.url) },
            Field { key: "id"@, value: Tree::Str(e.id) },
            Field { key: "title"@, value: Tree::Str(e.title) },
        ],
    )
}

/// The tree of a record.
pub open spec fn record_tree(r: RecordView) -> Tree {
    Tree::Object(
        seq![
            Field { key: "path"@, value: Tree::Str(r.path) },
            Field {
                key: "entries"@,
                value: Tree::Array(Seq::new(r.entries.len(), |i: int| entry_tree(r.entries[i]))),
            },
        ],
    )
}

/// The tree of a cache: the array of its records' trees.
pub open spec fn cache_tree(c: Seq<RecordView>) -> Tree {
    Tree::Array(Seq::new(c.len(), |i: int| record_tree(c[i])))
}

/// An entry is read back from its tree.
pub proof fn entry_round_trip(e: CacheEntryView)
    ensures
        entry_of(entry_tree(e)) == Some(e),
{
    reveal_strlit("url");
    reveal_strlit("id");
    reveal_strlit("title");
    reveal_with_fuel(key_index, 4);
    let fields = entry_tree(e)->Object_0;
    assert(fields[0].key == "url"@);
    assert(fields[1].key == "id"@);
    assert(fields[2].key == "title"@);
    assert("url"@.len() == 3 && "id"@.len() == 2 && "title"@.len() == 5);
    assert(key_index(fields, "url"@, 0) == 0);
    assert(key_index(fields, "id"@, 0) == 1);
    assert(key_index(fields, "title"@, 0) == 2);
}

proof fn entries_round_trip(entries: Seq<CacheEntryView>, n: int)
    requires
        0 <= n <= entries.len(),
    ensures
        entries_of(Seq::new(entries.len(), |i: int| entry_tree(entries[i])), n) == Some(
            entries.take(n),
        ),
    decreases n,
{
    let items = Seq::new(entries.len(), |i: int| entry_tree(entries[i]));
    if n > 0 {
        entries_round_trip(entries, n - 1);
        entry_round_trip(entries[n - 1]);
        assert(items[n - 1] == entry_tree(entries[n - 1]));
        assert(entries.take(n - 1).push(entries[n - 1]) =~= entries.take(n));
    } else {
        assert(entries.take(0) =~= Seq::empty());
    }
}

/// A record is read back from its tree.
pub proof fn record_round_trip(r: RecordView)
    ensures
        record_of(record_tree(r)) == Some(r),
{
    reveal_strlit("path");
    reveal_strlit("entries");
    reveal_with_fuel(key_index, 3);
    let fields = record_tree(r)->Object_0;
    assert(fields[0].key == "path"@);
    assert(fields[1].key == "entries"@);
    assert("path"@.len() == 4 && "entries"@.len() == 7);
    assert(key_index(fields, "path"@, 0) == 0);
    assert(key_index(fields, "entries"@, 0) == 1);
    entries_round_trip(r.entries, r.entries.len() as int);
    assert(r.entries.take(r.entries.len() as int) =~= r.entries);
}

proof fn records_round_trip(c: Seq<RecordView>, n: int)
    requires
        0 <= n <= c.len(),
    ensures
        records_of(Seq::new(c.len(), |i: int| record_tree(c[i])), n) == Some(c.take(n)),
    decreases n,
{
    let items = Seq::new(c.len(), |i: int| record_tree(c[i]));
    if n > 0 {
        records_round_trip(c, n - 1);
        record_round_trip(c[n - 1]);
        assert(items[n - 1] == record_tree(c[n - 1]));
        assert(c.take(n - 1).push(c[n - 1]) =~= c.take(n));
    } else {
        assert(c.take(0) =~= Seq::empty());
    }
}

/// A cache is read back from its tree: what `write` gives, `load` accepts,
/// and it gives the same records.
pub proof fn cache_round_trip(c: Seq<RecordView>)
    ensures
        cache_of(cache_tree(c)) == Some(c),
{
    records_round_trip(c, c.len() as int);
    assert(c.take(c.len() as int) =~= c);
}

fn text_member(value: &Value, key: &str) -> (r: Option<String>)
    ensures
        match text_at(value@, key@) {
            Some(s) => r matches Some(got) && got@ == s,
            None => r is None,
        },
{
    match value.get(key) {
        Some(Value::String(s)) => Some(s.clone()),
        _ => None,
    }
}

fn load_entry(value: &Value) -> (r: Option<CacheEntry>)
    ensures
        match entry_of(value@) {
            Some(e) => r matches Some(got) && got@ == e,
            None => r is None,
        },
{
    let url = match text_member(value, "url") {
        Some(s) => s,
        None => {
            return None;
        },
    };
    let id = match text_member(value, "id") {
        Some(s) => s,
        None => {
            return None;
        },
    };
    let title = match text_member(value, "title") {
        Some(s) => s,
        None => {
            return None;
        },
    };
    Some(CacheEntry { url, id, title })
}

fn load_record(value: &Value) -> (r: Option<CacheRecord>)
    ensures
        match record_of(value@) {
            Some(rec) => r matches Some(got) && got@ == rec,
            None => r is None,
        },
{
    let path = match text_member(value, "path") {
        Some(s) => s,
        None => {
            return None;
        },
    };
    let items = match value.get("entries") {
        Some(Value::Array(items)) => items,
        _ => {
            return None;
        },
    };
    proof {
        array_view(*items);
    }
    let mut entries: Vec<CacheEntry> = Vec::new();
    let mut i: usize = 0;
    assert(cache_entries_view(entries@) =~= Seq::empty());
    while i < items.len()
        invariant
            i <= items.len(),
            text_at(value@, "path"@) == Some(path@),
            child(value@, "entries"@) == Some(Tree::Array(items_view(items@))),
            entries_of(items_view(items@), i as int) == Some(cache_entries_view(entries@)),
        decreases items.len() - i,
    {
        let ghost before = cache_entries_view(entries@);
        match load_entry(&items[i]) {
            Some(e) => {
                entries.push(e);
                assert(cache_entries_view(entries@) =~= before.push(e@));
            },
            None => {
                assert(entries_of(items_view(items@), i + 1) is None);
                proof {
                    entries_of_prefix(items_view(items@), i + 1, items.len() as int);
                }
                return None;
            },
        }
        i += 1;
    }
    Some(CacheRecord { path, entries })
}

/// Where the first `a` items are no entries, neither are the first `b`, for
/// `b` from `a` on.
proof fn entries_of_prefix(items: Seq<Tree>, a: int, b: int)
    requires
        a <= b,
        entries_of(items, a) is None,
    ensures
        entries_of(items, b) is None,
    decreases b - a,
{
    if a < b {
        entries_of_prefix(items, a, b - 1);
    }
}

/// Where the first `a` items are no records, neither are the first `b`, for
/// `b` from `a` on.
proof fn records_of_prefix(items: Seq<Tree>, a: int, b: int)
    requires
        a <= b,
        records_of(items, a) is None,
    ensures
        records_of(items, b) is None,
    decreases b - a,
{
    if a < b {
        records_of_prefix(items, a, b - 1);
    }
}

fn text_value(s: &String) -> (r: Value)
    ensures
        r@ == Tree::Str(s@),
{
    Value::String(s.clone())
}

fn entry_value(e: &CacheEntry) -> (r: Value)
    ensures
        r@ == entry_tree(e@),
{
    let mut members: Vec<Member> = Vec::new();
    members.push(Member { key: "url".to_owned(), value: text_value(&e.url) });
    members.push(Member { key: "id".to_owned(), value: text_value(&e.id) });
    members.push(Member { key: "title".to_owned(), value: text_value(&e.title) });
    proof {
        object_view(members);
        assert(members_view(members@) =~= entry_tree(e@)->Object_0);
    }
    Value::Object(members)
}

fn record_value(r: &CacheRecord) -> (v: Value)
    ensures
        v@ == record_tree(r@),
{
    let mut items: Vec<Value> = Vec::new();
    let mut i: usize = 0;
    while i < r.entries.len()
        invariant
            i <= r.entries.len(),
            items.len() == i,
            forall|j: int| 0 <= j < i ==> items[j]@ == entry_tree(r.entries[j]@),
        decreases r.entries.len() - i,
    {
        items.push(entry_value(&r.entries[i]));
        i += 1;
    }
    proof {
        array_view(items);
        assert(items_view(items@) =~= Seq::new(
            r@.entries.len(),
            |i: int| entry_tree(r@.entries[i]),
        ));
    }
    let mut members: Vec<Member> = Vec::new();
    members.push(Member { key: "path".to_owned(), value: text_value(&r.path) });
    members.push(Member { key: "entries".to_owned(), value: Value::Array(items) });
    proof {
        object_view(members);
        assert(members_view(members@) =~= record_tree(r@)->Object_0);
    }
    Value::Object(members)
}

impl Cache {
    /// Reads a cache from its value tree: an array of records, each an object
    /// with the string `path` and the array `entries` of objects with the
    /// strings `url`, `id` and `title`.
    pub fn load(value: &Value) -> (r: Result<Cache, CacheError>)
        ensures
            match cache_of(value@) {
                Some(c) => r matches Ok(got) && got@ == c,
                None => r is Err,
            },
    {
        let items = match value {
            Value::Array(items) => items,
            _ => {
                return Err(CacheError::MalformedDescriptor);
            },
        };
        proof {
            array_view(*items);
        }
        let mut cache = Cache(Vec::new());
        let mut i: usize = 0;
        assert(cache@ =~= Seq::empty());
        while i < items.len()
            invariant
                i <= items.len(),
                value@ == Tree::Array(items_view(items@)),
                records_of(items_view(items@), i as int) == Some(cache@),
            decreases items.len() - i,
        {
            let ghost before = cache@;
            match load_record(&items[i]) {
                Some(rec) => {
                    cache.0.push(rec);
                    assert(cache@ =~= before.push(rec@));
                },
                None => {
                    assert(records_of(items_view(items@), i + 1) is None);
                    proof {
                        records_of_prefix(items_view(items@), i + 1, items.len() as int);
                    }
                    return Err(CacheError::MalformedDescriptor);
                },
            }
            i += 1;
        }
        Ok(cache)
    }

    /// The value tree of the cache: the array of its records.
    pub fn write(&self) -> (r: Value)
        ensures
            r@ == cache_tree(self@),
    {
        let mut items: Vec<Value> = Vec::new();
        let mut i: usize = 0;
        while i < self.0.len()
            invariant
                i <= self.0.len(),
                items.len() == i,
                forall|j: int| 0 <= j < i ==> items[j]@ == record_tree(self.0[j]@),
            decreases self.0.len() - i,
        {
            items.push(record_value(&self.0[i]));
            i += 1;
        }
        proof {
            array_view(items);
            assert(items_view(items@) =~= Seq::new(self@.len(), |i: int| record_tree(self@[i])));
        }
        Value::Array(items)
    }
}

} // verus!
