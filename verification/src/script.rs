//! The scripting language: its syntax tree and its parser.

use vstd::prelude::*;
use vstd::string::*;
use crate::text::{strs, skip_ws, word_end, find_char, skip_whitespace, scan_word, scan_to, slice_owned};

verus! {

/// A value expression.
#[derive(Debug, PartialEq, Eq, Hash)]
pub enum Val {
    /// A reference to a variable by its dotted path.
    Var(Vec<String>),
    /// A string literal.
    String(String),
    /// A call of a named function on argument expressions.
    Call(String, Vec<Val>),
}

/// The mathematical model of a `Val`.
pub enum ValView {
    Var(Seq<Seq<char>>),
    Str(Seq<char>),
    Call(Seq<char>, Seq<ValView>),
}

impl View for Val {
    type V = ValView;

    open spec fn view(&self) -> ValView
        decreases self,
    {
        match self {
            Val::Var(path) => ValView::Var(strs(path@)),
            Val::String(s) => ValView::Str(s@),
            Val::Call(name, args) => ValView::Call(
                name@,
                Seq::new(args.len() as nat, |i: int| if 0 <= i < args.len() { args[i]@ } else { ValView::Str(Seq::empty()) }),
            ),
        }
    }
}

/// An assignment of a computed value to a dotted target path.
#[derive(Debug, PartialEq, Eq, Hash)]
pub struct Script {
    pub var: Vec<String>,
    pub val: Val,
}

/// The mathematical model of a `Script`.
pub struct ScriptView {
    pub var: Seq<Seq<char>>,
    pub val: ValView,
}

impl View for Script {
    type V = ScriptView;

    open spec fn view(&self) -> ScriptView {
        ScriptView { var: strs(self.var@), val: self.val@ }
    }
}

/// Why a script line was refused.
#[derive(Clone, Copy, Debug, PartialEq, Eq)]
pub enum ParseError {
    /// The text does not match the grammar of a script.
    MalformedScript,
}

/// A dotted path of non-empty word segments that starts at `i`, with the
/// position behind it.
pub open spec fn path_at(s: Seq<char>, i: int) -> Option<(Seq<Seq<char>>, int)>
    decreases s.len() - i,
{
    let b = word_end(s, i);
    if !(0 <= i < b <= s.len()) {
        None
    } else if b < s.len() && s[b] == '.' {
        match path_at(s, b + 1) {
            Some((rest, e)) => Some((seq![s.subrange(i, b)] + rest, e)),
            None => None,
        }
    } else {
        Some((seq![s.subrange(i, b)], b))
    }
}

/// The value expression that starts at `i`, leading whitespace skipped, with
/// the position behind it; `None` where the text there is no value.
pub open spec fn val_at(s: Seq<char>, i: int) -> Option<(ValView, int)>
    decreases s.len() - i, 0int,
{
    let a = skip_ws(s, i);
    if !(0 <= i <= a < s.len()) {
        None
    } else if s[a] == '\'' || s[a] == '"' {
        let q = find_char(s, s[a], a + 1);
        if a < q < s.len() {
            Some((ValView::Str(s.subrange(a + 1, q)), q + 1))
        } else {
            None
        }
    } else {
        match path_at(s, a) {
            None => None,
            Some((path, e)) => if a < e < s.len() && s[e] == '(' && path.len() > 0 {
                match args_at(s, e + 1) {
                    Some((args, end)) => Some((ValView::Call(path[0], args), end)),
                    None => None,
                }
            } else {
                Some((ValView::Var(path), e))
            },
        }
    }
}

/// The arguments of a call from position `i`, just behind the opening
/// parenthesis, up to the closing one, with the position behind that.
/// Whitespace around an argument and one comma before it are passed over.
pub open spec fn args_at(s: Seq<char>, i: int) -> Option<(Seq<ValView>, int)>
    decreases s.len() - i, 1int,
{
    let a = skip_ws(s, i);
    if !(0 <= i <= a < s.len()) {
        None
    } else if s[a] == ')' {
        Some((Seq::empty(), a + 1))
    } else {
        let b = if s[a] == ',' { a + 1 } else { a };
        match val_at(s, b) {
            None => None,
            Some((v, e)) => if b < e <= s.len() {
                match args_at(s, e) {
                    Some((rest, end)) => Some((seq![v] + rest, end)),
                    None => None,
                }
            } else {
                None
            },
        }
    }
}

/// The target path of an assignment from position `i` up to its `=`, with the
/// position behind the `=`. Whitespace around a segment is passed over.
pub open spec fn target_at(s: Seq<char>, i: int) -> Option<(Seq<Seq<char>>, int)>
    decreases s.len() - i,
{
    let a = skip_ws(s, i);
    let b = word_end(s, a);
    let c = skip_ws(s, b);
    if !(0 <= i <= a < b <= c < s.len()) {
        None
    } else if s[c] == '=' {
        Some((seq![s.subrange(a, b)], c + 1))
    } else if s[c] == '.' {
        match target_at(s, c + 1) {
            Some((rest, e)) => Some((seq![s.subrange(a, b)] + rest, e)),
            None => None,
        }
    } else {
        None
    }
}

/// The script that a line holds: its marker, a target path, `=`, and a value.
/// What follows the value is not read.
pub open spec fn script_of(s: Seq<char>) -> Option<ScriptView> {
    if s.len() == 0 || s[0] != '$' {
        None
    } else {
        match target_at(s, 1) {
            None => None,
            Some((var, e)) => match val_at(s, e) {
                None => None,
                Some((val, _)) => Some(ScriptView { var, val }),
            },
        }
    }
}

proof fn find_char_absent(s: Seq<char>, c: char, i: int)
    requires
        0 <= i <= s.len(),
        forall|j: int| i <= j < s.len() ==> #[trigger] s[j] != c,
    ensures
        find_char(s, c, i) == s.len(),
    decreases s.len() - i,
{
    if i < s.len() {
        find_char_absent(s, c, i + 1);
    }
}

/// A string literal without its closing quote is no value: where the first
/// character behind the whitespace at `i` is a quote that does not occur
/// again, nothing is parsed.
pub proof fn unterminated_string_fails(s: Seq<char>, i: int)
    requires
        0 <= i <= skip_ws(s, i) < s.len(),
        s[skip_ws(s, i)] == '\'' || s[skip_ws(s, i)] == '"',
        forall|j: int| skip_ws(s, i) < j < s.len() ==> #[trigger] s[j] != s[skip_ws(s, i)],
    ensures
        val_at(s, i) is None,
{
    find_char_absent(s, s[skip_ws(s, i)], skip_ws(s, i) + 1);
}

/// A script whose value is a string literal without its closing quote is
/// refused.
pub proof fn unterminated_script_fails(s: Seq<char>)
    requires
        s.len() > 0,
        s[0] == '$',
        target_at(s, 1) matches Some((_, e)) && 0 <= e <= skip_ws(s, e) < s.len() && (s[skip_ws(
            s,
            e,
        )] == '\'' || s[skip_ws(s, e)] == '"') && (forall|j: int|
            skip_ws(s, e) < j < s.len() ==> #[trigger] s[j] != s[skip_ws(s, e)]),
    ensures
        script_of(s) is None,
{
    let e = target_at(s, 1).unwrap().1;
    unterminated_string_fails(s, e);
}

fn parse_path(s: &str, n: usize, i: usize) -> (r: Option<(Vec<String>, usize)>)
    requires
        n == s@.len(),
        i <= n,
    ensures
        match path_at(s@, i as int) {
            Some((p, e)) => r matches Some((path, end)) && strs(path@) == p && end == e && i < end
                <= n && path.len() > 0,
            None => r is None,
        },
    decreases n - i,
{
    let b = scan_word(s, n, i);
    if b == i {
        return None;
    }
    let seg = slice_owned(s, i, b);
    if b < n && s.get_char(b) == '.' {
        match parse_path(s, n, b + 1) {
            Some((mut rest, e)) => {
                let ghost before = rest@;
                rest.insert(0, seg);
                assert(strs(rest@) =~= seq![s@.subrange(i as int, b as int)] + strs(before));
                Some((rest, e))
            },
            None => None,
        }
    } else {
        let mut path: Vec<String> = Vec::new();
        path.push(seg);
        assert(strs(path@) =~= seq![s@.subrange(i as int, b as int)]);
        Some((path, b))
    }
}

fn parse_val_from(s: &str, n: usize, i: usize) -> (r: Option<(Val, usize)>)
    requires
        n == s@.len(),
        i <= n,
    ensures
        match val_at(s@, i as int) {
            Some((v, e)) => r matches Some((val, end)) && val@ == v && end == e && i < end <= n,
            None => r is None,
        },
    decreases n - i, 0int,
{
    let a = skip_whitespace(s, n, i);
    if a >= n {
        return None;
    }
    let c = s.get_char(a);
    if c == '\'' || c == '"' {
        let q = scan_to(s, n, c, a + 1);
        if q >= n {
            return None;
        }
        let lit = slice_owned(s, a + 1, q);
        Some((Val::String(lit), q + 1))
    } else {
        match parse_path(s, n, a) {
            None => None,
            Some((path, e)) => {
                if e < n && s.get_char(e) == '(' {
                    match parse_args_from(s, n, e + 1) {
                        Some((args, end)) => {
                            let name = path[0].clone();
                            let val = Val::Call(name, args);
                            proof {
                                call_view(name, args);
                            }
                            Some((val, end))
                        },
                        None => None,
                    }
                } else {
                    Some((Val::Var(path), e))
                }
            },
        }
    }
}

/// The views of a list of values.
pub open spec fn vals(v: Seq<Val>) -> Seq<ValView> {
    Seq::new(v.len(), |i: int| v[i]@)
}

/// The view of a call is the call of the views.
pub proof fn call_view(name: String, args: Vec<Val>)
    ensures
        Val::Call(name, args)@ == ValView::Call(name@, vals(args@)),
{
    let call = Val::Call(name, args)@;
    assert(call matches ValView::Call(n, a) && n == name@ && a =~= vals(args@));
}

fn parse_args_from(s: &str, n: usize, i: usize) -> (r: Option<(Vec<Val>, usize)>)
    requires
        n == s@.len(),
        i <= n,
    ensures
        match args_at(s@, i as int) {
            Some((a, e)) => r matches Some((args, end)) && vals(args@) == a && end == e && i < end
                <= n,
            None => r is None,
        },
    decreases n - i, 1int,
{
    let a = skip_whitespace(s, n, i);
    if a >= n {
        return None;
    }
    let c = s.get_char(a);
    if c == ')' {
        let args: Vec<Val> = Vec::new();
        assert(vals(args@) =~= Seq::empty());
        return Some((args, a + 1));
    }
    let b: usize = if c == ',' { a + 1 } else { a };
    match parse_val_from(s, n, b) {
        None => None,
        Some((v, e)) => match parse_args_from(s, n, e) {
            Some((mut rest, end)) => {
                let ghost before = rest@;
                let ghost first = v@;
                rest.insert(0, v);
                assert(vals(rest@) =~= seq![first] + vals(before));
                Some((rest, end))
            },
            None => None,
        },
    }
}

fn parse_target(s: &str, n: usize, i: usize) -> (r: Option<(Vec<String>, usize)>)
    requires
        n == s@.len(),
        i <= n,
    ensures
        match target_at(s@, i as int) {
            Some((p, e)) => r matches Some((path, end)) && strs(path@) == p && end == e && i < end
                <= n && path.len() > 0,
            None => r is None,
        },
    decreases n - i,
{
    let a = skip_whitespace(s, n, i);
    let b = scan_word(s, n, a);
    let c = skip_whitespace(s, n, b);
    if b == a || c >= n {
        return None;
    }
    let mark = s.get_char(c);
    if mark == '=' {
        let mut path: Vec<String> = Vec::new();
        path.push(slice_owned(s, a, b));
        assert(strs(path@) =~= seq![s@.subrange(a as int, b as int)]);
        Some((path, c + 1))
    } else if mark == '.' {
        let seg = slice_owned(s, a, b);
        match parse_target(s, n, c + 1) {
            Some((mut rest, e)) => {
                let ghost before = rest@;
                rest.insert(0, seg);
                assert(strs(rest@) =~= seq![s@.subrange(a as int, b as int)] + strs(before));
                Some((rest, e))
            },
            None => None,
        }
    } else {
        None
    }
}

/// Parses the value expression at the start of `val`, leading whitespace
/// skipped, and returns it with the text that follows it.
pub fn parse_val(val: &str) -> (r: Result<(Val, &str), ParseError>)
    ensures
        match val_at(val@, 0) {
            Some((v, e)) => r matches Ok((got, rest)) && got@ == v && rest@ == val@.subrange(
                e,
                val@.len() as int,
            ),
            None => r is Err,
        },
{
    let n = val.unicode_len();
    match parse_val_from(val, n, 0) {
        Some((v, e)) => Ok((v, val.substring_char(e, n))),
        None => Err(ParseError::MalformedScript),
    }
}

/// Parses a script line: the marker `$`, a dotted target path, `=`, and a
/// value expression.
pub fn parse_script(script: &str) -> (r: Result<Script, ParseError>)
    ensures
        match script_of(script@) {
            Some(v) => r matches Ok(got) && got@ == v,
            None => r is Err,
        },
{
    let n = script.unicode_len();
    if n == 0 || script.get_char(0) != '$' {
        return Err(ParseError::MalformedScript);
    }
    match parse_target(script, n, 1) {
        None => Err(ParseError::MalformedScript),
        Some((var, e)) => match parse_val_from(script, n, e) {
            None => Err(ParseError::MalformedScript),
            Some((val, _)) => Ok(Script { var, val }),
        },
    }
}

} // verus!
