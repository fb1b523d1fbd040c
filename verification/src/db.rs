//! The descriptor: sections of entries and rules, keyed by path, and the
//! builder that reads one from its lines.

use vstd::prelude::*;
use vstd::string::*;
use crate::script::{Script, ScriptView, ParseError, script_of, parse_script};
use crate::text::{find_char, skip_ws, token_end, scan_to, scan_token, skip_whitespace, slice_owned, same_text};

verus! {

/// A rule attached to an entry.
#[derive(Debug, PartialEq, Eq, Hash)]
pub enum DbRule {
    /// An option, kept as the line that held it, marker included.
    Opt(String),
    /// A parsed script.
    Script(Script),
}

/// The mathematical model of a `DbRule`.
pub enum RuleView {
    Opt(Seq<char>),
    Script(ScriptView),
}

impl View for DbRule {
    type V = RuleView;

    open spec fn view(&self) -> RuleView {
        match self {
            DbRule::Opt(line) => RuleView::Opt(line@),
            DbRule::Script(script) => RuleView::Script(script@),
        }
    }
}

/// One item of the library, or the carrier of a section's rules (its `url`
/// is then empty).
#[derive(Debug, PartialEq, Eq, Hash)]
pub struct DbEntry {
    pub url: String,
    pub rules: Vec<DbRule>,
}

/// The mathematical model of a `DbEntry`.
pub struct EntryView {
    pub url: Seq<char>,
    pub rules: Seq<RuleView>,
}

/// The views of a list of rules.
pub open spec fn rules_view(rules: Seq<DbRule>) -> Seq<RuleView> {
    Seq::new(rules.len(), |i: int| rules[i]@)
}

/// The views of a list of entries.
pub open spec fn entries_view(entries: Seq<DbEntry>) -> Seq<EntryView> {
    Seq::new(entries.len(), |i: int| entries[i]@)
}

impl View for DbEntry {
    type V = EntryView;

    open spec fn view(&self) -> EntryView {
        EntryView { url: self.url@, rules: rules_view(self.rules@) }
    }
}

impl DbEntry {
    pub fn new(url: String, rules: Vec<DbRule>) -> (r: Self)
        ensures
            r.url == url,
            r.rules == rules,
            r@ == (EntryView { url: url@, rules: rules_view(rules@) }),
    {
        DbEntry { url, rules }
    }
}

/// The entries stored under one path.
#[derive(Debug)]
pub struct Section {
    pub path: String,
    pub entries: Vec<DbEntry>,
}

/// The descriptor: for each path key the entries of its section.
#[derive(Debug)]
pub struct Db {
    sections: Vec<Section>,
}

/// Why a descriptor was refused.
#[derive(Clone, Copy, Debug, PartialEq, Eq)]
pub enum DbError {
    /// The script at the line with this index, counted from 0, does not match
    /// the grammar.
    MalformedScript { line: usize },
}

/// The first position at or after `i` whose section has the path `key` (the
/// number of sections if there is none).
pub open spec fn path_index(sections: Seq<Section>, key: Seq<char>, i: int) -> int
    decreases sections.len() - i,
{
    if 0 <= i < sections.len() && sections[i].path@ != key {
        path_index(sections, key, i + 1)
    } else {
        i
    }
}

proof fn path_index_found(sections: Seq<Section>, key: Seq<char>, i: int)
    requires
        0 <= i <= sections.len(),
    ensures
        i <= path_index(sections, key, i) <= sections.len(),
        path_index(sections, key, i) < sections.len() ==> sections[path_index(
            sections,
            key,
            i,
        )].path@ == key,
        forall|j: int| i <= j < path_index(sections, key, i) ==> sections[j].path@ != key,
    decreases sections.len() - i,
{
    if i < sections.len() && sections[i].path@ != key {
        path_index_found(sections, key, i + 1);
    }
}

proof fn path_index_same_paths(a: Seq<Section>, b: Seq<Section>, key: Seq<char>, i: int)
    requires
        0 <= i <= a.len(),
        a.len() == b.len(),
        forall|j: int| 0 <= j < a.len() ==> a[j].path@ == b[j].path@,
    ensures
        path_index(a, key, i) == path_index(b, key, i),
    decreases a.len() - i,
{
    if i < a.len() && a[i].path@ != key {
        path_index_same_paths(a, b, key, i + 1);
    }
}

proof fn path_index_push(a: Seq<Section>, s: Section, key: Seq<char>, i: int)
    requires
        0 <= i <= a.len(),
    ensures
        path_index(a.push(s), key, i) == if path_index(a, key, i) < a.len() || s.path@ == key {
            path_index(a, key, i)
        } else {
            a.len() as int + 1
        },
        i <= path_index(a, key, i) <= a.len(),
    decreases a.len() - i,
{
    let b = a.push(s);
    if i < a.len() {
        assert(b[i] == a[i]);
        if a[i].path@ != key {
            path_index_push(a, s, key, i + 1);
        }
    } else {
        assert(b[i] == s);
        if s.path@ != key {
            assert(path_index(b, key, i + 1) == i + 1);
        }
    }
}

impl View for Db {
    type V = Map<Seq<char>, Seq<EntryView>>;

    closed spec fn view(&self) -> Map<Seq<char>, Seq<EntryView>> {
        Map::new(
            |k: Seq<char>| path_index(self.sections@, k, 0) < self.sections.len(),
            |k: Seq<char>| entries_view(self.sections[path_index(self.sections@, k, 0)].entries@),
        )
    }
}

impl Db {
    /// A descriptor without sections.
    pub fn new() -> (r: Db)
        ensures
            r@ == Map::<Seq<char>, Seq<EntryView>>::empty(),
    {
        let r = Db { sections: Vec::new() };
        assert(r@ =~= Map::<Seq<char>, Seq<EntryView>>::empty());
        r
    }

    fn find(&self, path: &str) -> (i: usize)
        ensures
            i == path_index(self.sections@, path@, 0),
            i <= self.sections.len(),
    {
        let mut j: usize = 0;
        while j < self.sections.len() && !same_text(self.sections[j].path.as_str(), path)
            invariant
                j <= self.sections.len(),
                path_index(self.sections@, path@, 0) == path_index(self.sections@, path@, j as int),
            decreases self.sections.len() - j,
        {
            j += 1;
        }
        j
    }

    /// Stores `entries` under `path`. Entries stored under that path before
    /// are discarded.
    pub fn insert(&mut self, path: String, entries: Vec<DbEntry>)
        ensures
            final(self)@ == old(self)@.insert(path@, entries_view(entries@)),
    {
        let ghost before = self.sections@;
        let ghost key = path@;
        let ghost stored = entries_view(entries@);
        let i = self.find(path.as_str());
        let section = Section { path, entries };
        if i < self.sections.len() {
            self.sections.set(i, section);
        } else {
            self.sections.push(section);
        }
        proof {
            let after = self.sections@;
            path_index_found(before, key, 0);
            let goal = old(self)@.insert(key, stored);
            let got = self@;
            assert forall|k: Seq<char>|
                #![trigger got.dom().contains(k)]
                #![trigger goal.dom().contains(k)]
                #![trigger got[k]]
                #![trigger goal[k]]
                got.dom().contains(k) == goal.dom().contains(k) && (goal.dom().contains(k)
                    ==> got[k] == goal[k]) by {
                path_index_found(before, k, 0);
                path_index_found(after, k, 0);
                if i < before.len() {
                    path_index_same_paths(before, after, k, 0);
                } else {
                    path_index_push(before, section, k, 0);
                }
                let p = path_index(after, k, 0);
                if p < after.len() && k != key {
                    assert(after[p] == before[p]);
                }
            }
            assert(got =~= goal);
        }
    }

    /// The entries stored under `path`, if there are any.
    pub fn get(&self, path: &str) -> (r: Option<&Vec<DbEntry>>)
        ensures
            match r {
                Some(entries) => self@.contains_key(path@) && entries_view(entries@) == self@[path@],
                None => !self@.contains_key(path@),
            },
    {
        let i = self.find(path);
        if i < self.sections.len() {
            Some(&self.sections[i].entries)
        } else {
            None
        }
    }
}

/// The entry that carries the rules of a section.
pub open spec fn carrier(rules: Seq<RuleView>) -> EntryView {
    EntryView { url: Seq::empty(), rules }
}

/// What the builder holds between two lines.
pub struct BuildState {
    /// The sections that are closed.
    pub done: Map<Seq<char>, Seq<EntryView>>,
    /// The path of the section that is open.
    pub path: Seq<char>,
    /// The entries of the open section, in the order of their lines.
    pub entries: Seq<EntryView>,
    /// The rules read since the last header, in the order of their lines.
    pub rules: Seq<RuleView>,
}

/// The state before the first line: the open section has the empty path.
pub open spec fn start() -> BuildState {
    BuildState { done: Map::empty(), path: Seq::empty(), entries: Seq::empty(), rules: Seq::empty() }
}

/// A line without its comment: the text before the first `#`.
pub open spec fn strip_comment(line: Seq<char>) -> Seq<char> {
    line.subrange(0, find_char(line, '#', 0))
}

/// The state `st` with the open section closed: its rules go into one
/// carrier entry at its end, and it is stored under its path in the place of
/// what was stored there.
pub open spec fn flush(st: BuildState) -> Map<Seq<char>, Seq<EntryView>> {
    st.done.insert(st.path, st.entries.push(carrier(st.rules)))
}

/// The first token of `text`, whitespace around it left out.
pub open spec fn first_token(text: Seq<char>) -> Seq<char> {
    text.subrange(skip_ws(text, 0), token_end(text, skip_ws(text, 0)))
}

/// The state after one more line; `None` where the line holds a script that
/// does not match the grammar.
pub open spec fn step(st: BuildState, line: Seq<char>) -> Option<BuildState> {
    let text = strip_comment(line);
    if text.len() == 0 {
        Some(st)
    } else if text[0] == '/' {
        Some(BuildState { done: flush(st), path: text, entries: Seq::empty(), rules: Seq::empty() })
    } else if text[0] == '-' {
        Some(BuildState { rules: st.rules.push(RuleView::Opt(text)), ..st })
    } else if text[0] == '$' {
        match script_of(text) {
            Some(script) => Some(BuildState { rules: st.rules.push(RuleView::Script(script)), ..st }),
            None => None,
        }
    } else {
        Some(
            BuildState {
                entries: st.entries.push(EntryView { url: first_token(text), rules: Seq::empty() }),
                ..st
            },
        )
    }
}

/// The state after the first `n` lines; `None` where one of them was refused.
pub open spec fn run(lines: Seq<Seq<char>>, n: int) -> Option<BuildState>
    decreases n,
{
    if n <= 0 {
        Some(start())
    } else {
        match run(lines, n - 1) {
            Some(st) => step(st, lines[n - 1]),
            None => None,
        }
    }
}

/// The descriptor that the lines describe; `None` where a script is malformed.
pub open spec fn built(lines: Seq<Seq<char>>) -> Option<Map<Seq<char>, Seq<EntryView>>> {
    match run(lines, lines.len() as int) {
        Some(st) => Some(flush(st)),
        None => None,
    }
}

/// Where the builder accepts the first `b` lines, it accepts the first `a` of
/// them, for `a` up to `b`.
pub proof fn run_prefix(lines: Seq<Seq<char>>, a: int, b: int)
    requires
        a <= b,
        run(lines, b) is Some,
    ensures
        run(lines, a) is Some,
    decreases b - a,
{
    if a < b && b > 0 {
        run_prefix(lines, a, b - 1);
    }
}

/// The views of a list of lines.
pub open spec fn lines_view(lines: Seq<String>) -> Seq<Seq<char>> {
    Seq::new(lines.len(), |i: int| lines[i]@)
}

/// The builder between two lines: the sections that are closed, and the
/// path, entries and rules of the one that is open.
#[derive(Debug)]
pub struct Builder {
    pub done: Db,
    pub path: String,
    pub entries: Vec<DbEntry>,
    pub rules: Vec<DbRule>,
}

impl View for Builder {
    type V = BuildState;

    open spec fn view(&self) -> BuildState {
        BuildState {
            done: self.done@,
            path: self.path@,
            entries: entries_view(self.entries@),
            rules: rules_view(self.rules@),
        }
    }
}

impl Builder {
    /// The builder before the first line.
    pub fn new() -> (r: Builder)
        ensures
            r@ == start(),
    {
        let r = Builder { done: Db::new(), path: String::new(), entries: Vec::new(), rules: Vec::new() };
        assert(entries_view(r.entries@) =~= Seq::empty());
        assert(rules_view(r.rules@) =~= Seq::empty());
        r
    }

    /// Reads one more line. A line with a malformed script is refused, and
    /// the builder stays as it is.
    pub fn step(&mut self, line: &str) -> (r: Result<(), ParseError>)
        ensures
            match step(old(self)@, line@) {
                Some(st) => r is Ok && final(self)@ == st,
                None => r is Err && final(self)@ == old(self)@,
            },
    {
        let ghost before_entries = entries_view(self.entries@);
        let ghost before_rules = rules_view(self.rules@);
        let len = line.unicode_len();
        let cut = scan_to(line, len, '#', 0);
        let text = slice_owned(line, 0, cut);
        if cut == 0 {
            return Ok(());
        }
        let first = text.as_str().get_char(0);
        if first == '/' {
            let mut path = text;
            let mut entries: Vec<DbEntry> = Vec::new();
            let mut rules: Vec<DbRule> = Vec::new();
            core::mem::swap(&mut self.path, &mut path);
            core::mem::swap(&mut self.entries, &mut entries);
            core::mem::swap(&mut self.rules, &mut rules);
            entries.push(DbEntry::new(String::new(), rules));
            assert(entries_view(entries@) =~= before_entries.push(carrier(before_rules)));
            self.done.insert(path, entries);
            assert(entries_view(self.entries@) =~= Seq::empty());
            assert(rules_view(self.rules@) =~= Seq::empty());
        } else if first == '-' {
            self.rules.push(DbRule::Opt(text));
            assert(rules_view(self.rules@) =~= before_rules.push(RuleView::Opt(text@)));
        } else if first == '$' {
            match parse_script(text.as_str()) {
                Ok(script) => {
                    self.rules.push(DbRule::Script(script));
                    assert(rules_view(self.rules@) =~= before_rules.push(
                        RuleView::Script(script@),
                    ));
                },
                Err(e) => {
                    return Err(e);
                },
            }
        } else {
            let a = skip_whitespace(text.as_str(), cut, 0);
            let b = scan_token(text.as_str(), cut, a);
            let entry = DbEntry::new(slice_owned(text.as_str(), a, b), Vec::new());
            assert(entry@.rules =~= Seq::empty());
            self.entries.push(entry);
            assert(entries_view(self.entries@) =~= before_entries.push(
                EntryView { url: first_token(text@), rules: Seq::empty() },
            ));
        }
        Ok(())
    }

    /// Closes the open section and returns the descriptor.
    pub fn finish(self) -> (db: Db)
        ensures
            db@ == flush(self@),
    {
        let ghost before_entries = entries_view(self.entries@);
        let ghost before_rules = rules_view(self.rules@);
        let Builder { done, path, entries, rules } = self;
        let mut db = done;
        let mut entries = entries;
        entries.push(DbEntry::new(String::new(), rules));
        assert(entries_view(entries@) =~= before_entries.push(carrier(before_rules)));
        db.insert(path, entries);
        db
    }
}

/// Builds the descriptor that the lines of a file describe.
///
/// Each line is read without its comment. An empty line is passed over; a
/// line that starts with `/` closes the open section and opens the one of
/// that path; one that starts with `-` or `$` adds an option or a script to
/// the rules of the open section; any other line adds an entry whose url is
/// its first token. The first line with a malformed script ends the build.
pub fn load_db(lines: &Vec<String>) -> (r: Result<Db, DbError>)
    ensures
        r is Ok <==> built(lines_view(lines@)) is Some,
        match r {
            Ok(db) => built(lines_view(lines@)) == Some(db@),
            Err(DbError::MalformedScript { line }) => line < lines.len() && run(
                lines_view(lines@),
                line as int,
            ) is Some && run(lines_view(lines@), line + 1) is None,
        },
{
    let mut builder = Builder::new();
    let mut i: usize = 0;
    while i < lines.len()
        invariant
            i <= lines.len(),
            run(lines_view(lines@), i as int) == Some(builder@),
        decreases lines.len() - i,
    {
        assert(lines_view(lines@)[i as int] == lines[i as int]@);
        match builder.step(lines[i].as_str()) {
            Ok(()) => {},
            Err(_) => {
                proof {
                    if built(lines_view(lines@)) is Some {
                        run_prefix(lines_view(lines@), i + 1, lines.len() as int);
                    }
                }
                return Err(DbError::MalformedScript { line: i });
            },
        }
        i += 1;
    }
    Ok(builder.finish())
}

} // verus!
