//! What holds of every descriptor that the builder accepts.

use vstd::prelude::*;
use crate::db::{built, run, run_prefix, start, strip_comment};

verus! {

/// Whether a line opens a section.
pub open spec fn is_header(line: Seq<char>) -> bool {
    let text = strip_comment(line);
    text.len() > 0 && text[0] == '/'
}

/// Whether a line holds an entry of its own: it is not empty and opens with
/// none of the markers.
pub open spec fn is_entry(line: Seq<char>) -> bool {
    let text = strip_comment(line);
    text.len() > 0 && text[0] != '/' && text[0] != '-' && text[0] != '$'
}

/// The number of entry lines among the lines from `a` up to `b`.
pub open spec fn entry_lines(lines: Seq<Seq<char>>, a: int, b: int) -> nat
    decreases b - a,
{
    if b <= a {
        0
    } else {
        entry_lines(lines, a, b - 1) + if is_entry(lines[b - 1]) {
            1nat
        } else {
            0nat
        }
    }
}

/// From a header at `h` up to the next one, the open section has the path of
/// that header and one entry for each entry line read since.
pub proof fn open_section(lines: Seq<Seq<char>>, h: int, m: int)
    requires
        0 <= h < m <= lines.len(),
        is_header(lines[h]),
        forall|j: int| h < j < m ==> !is_header(lines[j]),
        run(lines, m) is Some,
    ensures
        run(lines, m).unwrap().path == strip_comment(lines[h]),
        run(lines, m).unwrap().entries.len() == entry_lines(lines, h + 1, m),
    decreases m - h,
{
    run_prefix(lines, m - 1, m);
    if m > h + 1 {
        open_section(lines, h, m - 1);
    } else {
        assert(entry_lines(lines, h + 1, h) == 0);
    }
}

/// The open section of a build is that of a build of its own lines alone:
/// with a header at `h` and none behind it before `h + n`, the builder holds
/// the same path, entries and rules after `h + n` lines as after the `n`
/// lines from `h` on, read by themselves.
pub proof fn open_section_is_local(lines: Seq<Seq<char>>, h: int, n: int)
    requires
        0 <= h,
        1 <= n,
        h + n <= lines.len(),
        is_header(lines[h]),
        forall|j: int| h < j < h + n ==> !is_header(lines[j]),
        run(lines, h + n) is Some,
    ensures
        run(lines.subrange(h, h + n), n) matches Some(own) && own.path == run(
            lines,
            h + n,
        ).unwrap().path && own.entries == run(lines, h + n).unwrap().entries && own.rules == run(
            lines,
            h + n,
        ).unwrap().rules,
    decreases n,
{
    let sub = lines.subrange(h, h + n);
    run_prefix(lines, h + n - 1, h + n);
    assert(sub[n - 1] == lines[h + n - 1]);
    if n > 1 {
        open_section_is_local(lines, h, n - 1);
        run_same(sub, lines.subrange(h, h + n - 1), n - 1);
    } else {
        assert(run(sub, 0) == Some(start()));
    }
}

/// The state after `n` lines depends on those lines alone.
pub proof fn run_same(a: Seq<Seq<char>>, b: Seq<Seq<char>>, n: int)
    requires
        n <= a.len(),
        n <= b.len(),
        forall|j: int| 0 <= j < n ==> a[j] == b[j],
    ensures
        run(a, n) == run(b, n),
    decreases n,
{
    if n > 0 {
        run_same(a, b, n - 1);
    }
}

/// A section that was closed stays as it is while no header of its path
/// follows: with a header at `h`, and the path `key` on no header from `h` up
/// to `m`, the open section after `m` lines has another path, and what is
/// stored under `key` is what was stored when the header at `h` was read.
pub proof fn closed_section_stays(lines: Seq<Seq<char>>, h: int, m: int, key: Seq<char>)
    requires
        0 <= h < m <= lines.len(),
        is_header(lines[h]),
        forall|j: int| h <= j < m && is_header(lines[j]) ==> strip_comment(lines[j]) != key,
        run(lines, m) is Some,
    ensures
        run(lines, h + 1) is Some,
        run(lines, m).unwrap().path != key,
        run(lines, m).unwrap().done.contains_key(key) == run(
            lines,
            h + 1,
        ).unwrap().done.contains_key(key),
        run(lines, m).unwrap().done[key] == run(lines, h + 1).unwrap().done[key],
    decreases m - h,
{
    run_prefix(lines, m - 1, m);
    if m > h + 1 {
        closed_section_stays(lines, h, m - 1, key);
    }
}

/// The entries under a header: where the lines hold a header at `h1`, the
/// next header at `h2`, and the path of the first on no header from `h2` on,
/// the descriptor holds under that path one entry for each entry line between
/// the two headers, and one more, which carries the rules of the section.
pub proof fn section_length(lines: Seq<Seq<char>>, h1: int, h2: int)
    requires
        0 <= h1 < h2 < lines.len(),
        is_header(lines[h1]),
        is_header(lines[h2]),
        forall|j: int| h1 < j < h2 ==> !is_header(lines[j]),
        forall|j: int|
            h2 <= j < lines.len() && is_header(lines[j]) ==> strip_comment(lines[j])
                != strip_comment(lines[h1]),
        built(lines) is Some,
    ensures
        built(lines).unwrap().contains_key(strip_comment(lines[h1])),
        built(lines).unwrap()[strip_comment(lines[h1])].len() == entry_lines(lines, h1 + 1, h2) + 1,
{
    let key = strip_comment(lines[h1]);
    let len = lines.len() as int;
    run_prefix(lines, h2 + 1, len);
    run_prefix(lines, h2, len);
    open_section(lines, h1, h2);
    closed_section_stays(lines, h2, len, key);
}

/// Where the first line is a header and all the lines up to the next header
/// but one hold an entry, the first section has as many entries as there are
/// lines between the two headers: one for each entry line, and the carrier of
/// its rules in the place of the line that holds none.
pub proof fn first_section_counts_lines(lines: Seq<Seq<char>>, h2: int)
    requires
        0 < h2 < lines.len(),
        is_header(lines[0]),
        is_header(lines[h2]),
        forall|j: int| 0 < j < h2 ==> !is_header(lines[j]),
        forall|j: int|
            h2 <= j < lines.len() && is_header(lines[j]) ==> strip_comment(lines[j])
                != strip_comment(lines[0]),
        entry_lines(lines, 1, h2) == h2 - 2,
        built(lines) is Some,
    ensures
        built(lines).unwrap().contains_key(strip_comment(lines[0])),
        built(lines).unwrap()[strip_comment(lines[0])].len() == h2 - 1,
{
    section_length(lines, 0, h2);
}

/// The last header of a path wins: where the lines hold a header at `h1`, the
/// next header at `h2`, and the path of the first on no header from `h2` on,
/// the descriptor holds under that path what a build of the lines from `h1`
/// up to `h2` alone holds under it, whatever stood before `h1`, sections of
/// the same path too.
pub proof fn section_contents(lines: Seq<Seq<char>>, h1: int, h2: int)
    requires
        0 <= h1 < h2 < lines.len(),
        is_header(lines[h1]),
        is_header(lines[h2]),
        forall|j: int| h1 < j < h2 ==> !is_header(lines[j]),
        forall|j: int|
            h2 <= j < lines.len() && is_header(lines[j]) ==> strip_comment(lines[j])
                != strip_comment(lines[h1]),
        built(lines) is Some,
    ensures
        built(lines.subrange(h1, h2)) is Some,
        built(lines).unwrap().contains_key(strip_comment(lines[h1])),
        built(lines).unwrap()[strip_comment(lines[h1])] == built(
            lines.subrange(h1, h2),
        ).unwrap()[strip_comment(lines[h1])],
{
    let key = strip_comment(lines[h1]);
    let len = lines.len() as int;
    run_prefix(lines, h2 + 1, len);
    run_prefix(lines, h2, len);
    open_section(lines, h1, h2);
    open_section_is_local(lines, h1, h2 - h1);
    closed_section_stays(lines, h2, len, key);
}

/// The section that is open at the end: where the lines hold their last
/// header at `h`, the descriptor holds under its path what a build of the
/// lines from `h` on alone holds under it, one entry for each entry line
/// behind the header and one more for the rules.
pub proof fn last_section_contents(lines: Seq<Seq<char>>, h: int)
    requires
        0 <= h < lines.len(),
        is_header(lines[h]),
        forall|j: int| h < j < lines.len() ==> !is_header(lines[j]),
        built(lines) is Some,
    ensures
        built(lines.subrange(h, lines.len() as int)) is Some,
        built(lines).unwrap().contains_key(strip_comment(lines[h])),
        built(lines).unwrap()[strip_comment(lines[h])] == built(
            lines.subrange(h, lines.len() as int),
        ).unwrap()[strip_comment(lines[h])],
        built(lines).unwrap()[strip_comment(lines[h])].len() == entry_lines(
            lines,
            h + 1,
            lines.len() as int,
        ) + 1,
{
    let len = lines.len() as int;
    open_section(lines, h, len);
    open_section_is_local(lines, h, len - h);
}

} // verus!
