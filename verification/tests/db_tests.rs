use mscdb::db::{load_db, Builder, Db, DbEntry, DbError, DbRule};
use mscdb::script::{ParseError, Script, Val};

fn s(text: &str) -> String {
    text.to_string()
}

fn lines(text: &[&str]) -> Vec<String> {
    text.iter().map(|l| l.to_string()).collect()
}

fn entry(url: &str) -> DbEntry {
    DbEntry::new(s(url), vec![])
}

#[test]
fn entry_constructor_keeps_fields() {
    let e = DbEntry::new(s("u"), vec![DbRule::Opt(s("-x"))]);
    assert_eq!(e.url, "u");
    assert_eq!(e.rules, vec![DbRule::Opt(s("-x"))]);
}

#[test]
fn empty_input_gives_one_empty_section() {
    let db = load_db(&vec![]).unwrap();
    assert_eq!(db.get(""), Some(&vec![DbEntry::new(s(""), vec![])]));
    assert_eq!(db.get("/a"), None);
}

#[test]
fn sections_entries_and_rules() {
    let db = load_db(&lines(&[
        "before-any-header ignored tail",
        "/path/to/library/section",
        "some-url-token rest-of-line-ignored",
        "- raw-option-line-kept-verbatim",
        "$ title.full = replace(title.raw, \"_\", \" \")",
        "second-url",
        "/other # a comment",
        "# only a comment",
        "",
        "   indented-url\ttail",
    ]))
    .unwrap();
    assert_eq!(db.get(""), Some(&vec![entry("before-any-header"), entry("")]));
    let script = Script {
        var: vec![s("title"), s("full")],
        val: Val::Call(
            s("replace"),
            vec![Val::Var(vec![s("title"), s("raw")]), Val::String(s("_")), Val::String(s(" "))],
        ),
    };
    assert_eq!(
        db.get("/path/to/library/section"),
        Some(&vec![
            entry("some-url-token"),
            entry("second-url"),
            DbEntry::new(
                s(""),
                vec![DbRule::Opt(s("- raw-option-line-kept-verbatim")), DbRule::Script(script)]
            ),
        ])
    );
    assert_eq!(db.get("/other "), Some(&vec![entry("indented-url"), entry("")]));
    assert_eq!(db.get("/other"), None);
}

#[test]
fn first_section_length_counts_entry_lines_and_carrier() {
    let db = load_db(&lines(&["/first", "one", "two", "three", "/second", "four"])).unwrap();
    // three entry lines and the carrier of the section's rules
    assert_eq!(db.get("/first").unwrap().len(), 4);
    assert_eq!(db.get("/second").unwrap().len(), 2);
    let db = load_db(&lines(&["/first", "one", "-opt", "/second"])).unwrap();
    // two lines between the headers: one entry, and one carrier with the option
    assert_eq!(db.get("/first").unwrap().len(), 2);
    assert_eq!(
        db.get("/first").unwrap(),
        &vec![entry("one"), DbEntry::new(s(""), vec![DbRule::Opt(s("-opt"))])]
    );
}

#[test]
fn duplicate_header_keeps_second_section() {
    let db = load_db(&lines(&["/a", "first", "-old", "/a", "second", "/b", "third"])).unwrap();
    assert_eq!(db.get("/a"), Some(&vec![entry("second"), entry("")]));
    assert_eq!(db.get("/b"), Some(&vec![entry("third"), entry("")]));
    let db = load_db(&lines(&["/a", "first", "/b", "/a", "second"])).unwrap();
    assert_eq!(db.get("/a"), Some(&vec![entry("second"), entry("")]));
}

#[test]
fn malformed_script_names_its_line() {
    let r = load_db(&lines(&["/a", "url", "$x = 'abc", "$y = 'ok'", "$z ="]));
    assert_eq!(r.err(), Some(DbError::MalformedScript { line: 2 }));
    let r = load_db(&lines(&["$x = frobnicate('a') # fine", "$"]));
    assert_eq!(r.err(), Some(DbError::MalformedScript { line: 1 }));
}

#[test]
fn comment_cuts_a_script_short() {
    let r = load_db(&lines(&["$x = 'a#b'"]));
    assert_eq!(r.err(), Some(DbError::MalformedScript { line: 0 }));
}

#[test]
fn whitespace_line_is_an_entry_without_url() {
    let db = load_db(&lines(&["  "])).unwrap();
    assert_eq!(db.get(""), Some(&vec![entry(""), entry("")]));
}

#[test]
fn insert_overwrites() {
    let mut db = Db::new();
    assert_eq!(db.get("/a"), None);
    db.insert(s("/a"), vec![entry("one")]);
    db.insert(s("/b"), vec![entry("two")]);
    db.insert(s("/a"), vec![entry("three")]);
    assert_eq!(db.get("/a"), Some(&vec![entry("three")]));
    assert_eq!(db.get("/b"), Some(&vec![entry("two")]));
    assert_eq!(db.get("/c"), None);
}

#[test]
fn section_depends_on_its_own_lines() {
    let all = lines(&["zero", "/a", "old", "/b", "x", "/a", "one", "-opt", "two", "/c", "y"]);
    let own = lines(&["/a", "one", "-opt", "two"]);
    let whole = load_db(&all).unwrap();
    let alone = load_db(&own).unwrap();
    assert_eq!(whole.get("/a"), alone.get("/a"));
    assert_eq!(
        whole.get("/a"),
        Some(&vec![entry("one"), entry("two"), DbEntry::new(s(""), vec![DbRule::Opt(s("-opt"))])])
    );
    let last = load_db(&lines(&["/c", "y"])).unwrap();
    assert_eq!(whole.get("/c"), last.get("/c"));
}

#[test]
fn first_section_with_one_rule_line_has_one_entry_per_line() {
    let db = load_db(&lines(&["/first", "one", "$t = 'v'", "two", "/second"])).unwrap();
    assert_eq!(db.get("/first").unwrap().len(), 3);
}

#[test]
fn builder_reads_line_by_line() {
    let mut b = Builder::new();
    assert_eq!(b.path, "");
    assert_eq!(b.step("url tail"), Ok(()));
    assert_eq!(b.step("$x = 'a"), Err(ParseError::MalformedScript));
    assert_eq!(b.entries, vec![entry("url")]);
    assert!(b.rules.is_empty());
    assert_eq!(b.step("-o # note"), Ok(()));
    assert_eq!(b.rules, vec![DbRule::Opt(s("-o "))]);
    assert_eq!(b.step("# nothing"), Ok(()));
    assert_eq!(b.done.get(""), None);
    assert_eq!(b.step("/a"), Ok(()));
    assert_eq!(b.path, "/a");
    assert!(b.entries.is_empty());
    assert!(b.rules.is_empty());
    assert_eq!(
        b.done.get(""),
        Some(&vec![entry("url"), DbEntry::new(s(""), vec![DbRule::Opt(s("-o "))])])
    );
    let db = b.finish();
    assert_eq!(db.get("/a"), Some(&vec![entry("")]));
}
