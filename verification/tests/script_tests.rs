use mscdb::eval::{exec_fn, exec_script, exec_val};
use mscdb::script::{parse_script, parse_val, ParseError, Script, Val};
use mscdb::text::replace;
use mscdb::value::{EvalError, Member, Value};

fn s(text: &str) -> String {
    text.to_string()
}

fn object(members: Vec<(&str, Value)>) -> Value {
    Value::Object(members.into_iter().map(|(k, v)| Member { key: s(k), value: v }).collect())
}

fn text(t: &str) -> Value {
    Value::String(s(t))
}

#[test]
fn parses_string_literal_assignment() {
    let script = parse_script("$x.y = 'a'").unwrap();
    assert_eq!(script, Script { var: vec![s("x"), s("y")], val: Val::String(s("a")) });
}

#[test]
fn write_descends_from_last_segment() {
    let script = parse_script("$x.y = 'a'").unwrap();
    let mut ctx = object(vec![]);
    assert_eq!(exec_script(&script, &mut ctx, true), Ok(()));
    assert_eq!(ctx, object(vec![("y", object(vec![("x", text("a"))]))]));
}

#[test]
fn write_with_three_segments() {
    let script = parse_script("$a.b.c = \"v\"").unwrap();
    let mut ctx = object(vec![("other", text("kept"))]);
    assert_eq!(exec_script(&script, &mut ctx, false), Ok(()));
    assert_eq!(
        ctx,
        object(vec![
            ("other", text("kept")),
            ("c", object(vec![("b", object(vec![("a", text("v"))]))])),
        ])
    );
}

#[test]
fn write_overwrites_existing_value_in_place() {
    let script = parse_script("$x = 'new'").unwrap();
    let mut ctx = object(vec![("x", text("old")), ("z", text("z"))]);
    assert_eq!(exec_script(&script, &mut ctx, true), Ok(()));
    assert_eq!(ctx, object(vec![("x", text("new")), ("z", text("z"))]));
}

#[test]
fn write_descends_into_existing_object() {
    let script = parse_script("$x.y = 'a'").unwrap();
    let mut ctx = object(vec![("y", object(vec![("k", text("v"))]))]);
    assert_eq!(exec_script(&script, &mut ctx, true), Ok(()));
    assert_eq!(ctx, object(vec![("y", object(vec![("k", text("v")), ("x", text("a"))]))]));
}

#[test]
fn write_replaces_child_that_is_no_object() {
    let script = parse_script("$x.y = 'a'").unwrap();
    let mut ctx = object(vec![("y", text("plain"))]);
    assert_eq!(exec_script(&script, &mut ctx, true), Ok(()));
    assert_eq!(ctx, object(vec![("y", object(vec![("x", text("a"))]))]));
}

#[test]
fn write_into_context_that_is_no_object_fails() {
    let script = parse_script("$x = 'a'").unwrap();
    let mut ctx = text("root");
    assert_eq!(exec_script(&script, &mut ctx, true), Err(EvalError::ContextNotObject));
    assert_eq!(ctx, text("root"));
}

#[test]
fn write_with_empty_target_fails() {
    let script = Script { var: vec![], val: Val::String(s("a")) };
    let mut ctx = object(vec![]);
    assert_eq!(exec_script(&script, &mut ctx, true), Err(EvalError::EmptyTarget));
    assert_eq!(ctx, object(vec![]));
}

#[test]
fn failed_evaluation_leaves_context_unchanged() {
    let script = parse_script("$x = frobnicate('a')").unwrap();
    let mut ctx = object(vec![("k", text("v"))]);
    assert_eq!(exec_script(&script, &mut ctx, true), Err(EvalError::UnknownFunction));
    assert_eq!(ctx, object(vec![("k", text("v"))]));
}

#[test]
fn replace_call_on_literals() {
    let (val, rest) = parse_val("replace('hello_world','_',' ')").unwrap();
    assert_eq!(rest, "");
    assert_eq!(exec_val(&val, &object(vec![]), true), Ok(s("hello world")));
}

#[test]
fn replace_on_unresolved_variable_gives_empty_string() {
    let script = parse_script("$ title.full = replace(title.raw, \"_\", \" \")").unwrap();
    assert_eq!(
        script,
        Script {
            var: vec![s("title"), s("full")],
            val: Val::Call(
                s("replace"),
                vec![Val::Var(vec![s("title"), s("raw")]), Val::String(s("_")), Val::String(s(" "))]
            ),
        }
    );
    assert_eq!(exec_val(&script.val, &object(vec![]), true), Ok(s("")));
    assert_eq!(replace("", "_", " "), "");
}

#[test]
fn replace_on_resolved_variable() {
    // the path is walked from its last segment: `raw` first, then `title`
    let ctx = object(vec![("raw", object(vec![("title", text("a_b_c"))]))]);
    let (val, _) = parse_val("replace(title.raw, '_', ' ')").unwrap();
    assert_eq!(exec_val(&val, &ctx, true), Ok(s("a b c")));
}

#[test]
fn unterminated_string_is_malformed() {
    assert_eq!(parse_script("$x = 'abc"), Err(ParseError::MalformedScript));
    assert!(matches!(parse_val("'abc"), Err(ParseError::MalformedScript)));
    assert!(matches!(parse_val("\"abc'"), Err(ParseError::MalformedScript)));
}

#[test]
fn unknown_function_strict_and_lenient() {
    let script = parse_script("$x = frobnicate('a')").unwrap();
    assert_eq!(exec_val(&script.val, &object(vec![]), true), Err(EvalError::UnknownFunction));
    assert_eq!(exec_val(&script.val, &object(vec![]), false), Ok(s("")));
    let mut ctx = object(vec![]);
    assert_eq!(exec_script(&script, &mut ctx, false), Ok(()));
    assert_eq!(ctx, object(vec![("x", text(""))]));
}

#[test]
fn exec_fn_unknown_name() {
    let args = vec![Val::String(s("a"))];
    assert_eq!(exec_fn("frobnicate", &args, &object(vec![]), true), Err(EvalError::UnknownFunction));
    assert_eq!(exec_fn("frobnicate", &args, &object(vec![]), false), Ok(s("")));
}

#[test]
fn replace_with_wrong_arity() {
    let two = vec![Val::String(s("a")), Val::String(s("b"))];
    assert_eq!(exec_fn("replace", &two, &object(vec![]), false), Err(EvalError::WrongArity));
    assert_eq!(exec_fn("replace", &vec![], &object(vec![]), true), Err(EvalError::WrongArity));
    let four = vec![Val::String(s("a")), Val::String(s("b")), Val::String(s("c")), Val::String(s("d"))];
    assert_eq!(exec_fn("replace", &four, &object(vec![]), true), Err(EvalError::WrongArity));
}

#[test]
fn replace_with_pattern_that_is_no_literal() {
    let args = vec![Val::String(s("a_b")), Val::Var(vec![s("p")]), Val::String(s(" "))];
    assert_eq!(
        exec_fn("replace", &args, &object(vec![("p", text("_"))]), false),
        Err(EvalError::UnsupportedArgumentShape)
    );
}

#[test]
fn nested_calls() {
    let (val, rest) = parse_val("replace(replace('a_b-c', '_', ' '), '-', '+') tail").unwrap();
    assert_eq!(rest, " tail");
    assert_eq!(exec_val(&val, &object(vec![]), true), Ok(s("a b+c")));
}

#[test]
fn error_in_an_argument_comes_out() {
    let (val, _) = parse_val("replace(nope('x'), '_', ' ')").unwrap();
    assert_eq!(exec_val(&val, &object(vec![]), true), Err(EvalError::UnknownFunction));
    assert_eq!(exec_val(&val, &object(vec![]), false), Ok(s("")));
}

#[test]
fn variable_reads() {
    let ctx = object(vec![
        ("a", text("top")),
        ("b", object(vec![("a", text("nested"))])),
        ("list", Value::Array(vec![text("x")])),
        ("n", Value::Number(s("1"))),
    ]);
    assert_eq!(exec_val(&Val::Var(vec![s("a")]), &ctx, true), Ok(s("top")));
    assert_eq!(exec_val(&Val::Var(vec![s("a"), s("b")]), &ctx, true), Ok(s("nested")));
    assert_eq!(exec_val(&Val::Var(vec![s("b"), s("a")]), &ctx, true), Ok(s("")));
    assert_eq!(exec_val(&Val::Var(vec![s("missing")]), &ctx, true), Ok(s("")));
    assert_eq!(exec_val(&Val::Var(vec![s("b")]), &ctx, true), Err(EvalError::NotAString));
    assert_eq!(exec_val(&Val::Var(vec![s("n")]), &ctx, true), Err(EvalError::NotAString));
    assert_eq!(exec_val(&Val::Var(vec![s("x"), s("list")]), &ctx, true), Ok(s("")));
    assert_eq!(exec_val(&Val::Var(vec![]), &ctx, true), Err(EvalError::NotAString));
    assert_eq!(exec_val(&Val::Var(vec![]), &text("root"), true), Ok(s("root")));
}

#[test]
fn object_lookup_takes_first_member() {
    let ctx = object(vec![("k", text("first")), ("k", text("second"))]);
    assert_eq!(ctx.get("k"), Some(&text("first")));
    assert_eq!(ctx.get("other"), None);
    assert_eq!(text("k").get("k"), None);
    assert!(Value::empty_object().is_object());
    assert_eq!(Value::empty_object(), object(vec![]));
    assert!(!Value::Null.is_object());
}

#[test]
fn parse_val_forms() {
    assert_eq!(parse_val("  'it''s'").unwrap(), (Val::String(s("it")), "'s'"));
    assert_eq!(parse_val("\"a'b\" rest").unwrap(), (Val::String(s("a'b")), " rest"));
    assert_eq!(parse_val("''").unwrap(), (Val::String(s("")), ""));
    assert_eq!(parse_val("a.b_c").unwrap(), (Val::Var(vec![s("a"), s("b_c")]), ""));
    assert_eq!(parse_val("a.b)").unwrap(), (Val::Var(vec![s("a"), s("b")]), ")"));
    assert_eq!(parse_val("f()").unwrap(), (Val::Call(s("f"), vec![]), ""));
    assert_eq!(parse_val("f(  )x").unwrap(), (Val::Call(s("f"), vec![]), "x"));
    assert_eq!(
        parse_val("ns.f( a , 'b' )").unwrap(),
        (Val::Call(s("ns"), vec![Val::Var(vec![s("a")]), Val::String(s("b"))]), "")
    );
    assert_eq!(
        parse_val("f(,a 'b')").unwrap(),
        (Val::Call(s("f"), vec![Val::Var(vec![s("a")]), Val::String(s("b"))]), "")
    );
    assert_eq!(parse_val("été").unwrap(), (Val::Var(vec![s("été")]), ""));
}

#[test]
fn parse_val_refusals() {
    for bad in ["", "   ", "f(", "f('a'", "f('a',", "f(a,)", "a..b", ".a", "a.", "1", "=", "f(a,,b)", "(a)"] {
        assert!(matches!(parse_val(bad), Err(ParseError::MalformedScript)), "{:?}", bad);
    }
}

#[test]
fn parse_script_forms() {
    assert_eq!(
        parse_script("$  a . b_c=x").unwrap(),
        Script { var: vec![s("a"), s("b_c")], val: Val::Var(vec![s("x")]) }
    );
    assert_eq!(
        parse_script("$x\t=\t'a=b' ignored").unwrap(),
        Script { var: vec![s("x")], val: Val::String(s("a=b")) }
    );
}

#[test]
fn parse_script_refusals() {
    for bad in ["", "x = 'a'", "$", "$x", "$x 'a'", "$ = 'a'", "$x. = 'a'", "$.x = 'a'", "$x1 = 'a'", "$x y = 'a'", "$x =", "$x = f('a'", "$x = 'a"] {
        assert_eq!(parse_script(bad), Err(ParseError::MalformedScript), "{:?}", bad);
    }
}

#[test]
fn replace_matches_std() {
    let cases = [
        ("hello_world", "_", " "),
        ("", "_", " "),
        ("aaaa", "aa", "b"),
        ("aaa", "aa", "b"),
        ("abc", "", "-"),
        ("", "", "-"),
        ("abc", "abcd", "x"),
        ("abcabc", "bc", ""),
        ("a_b", "_", "__"),
        ("ééé", "é", "e"),
        ("xyz", "xyz", "xyz"),
    ];
    for (text, from, to) in cases {
        assert_eq!(replace(text, from, to), text.replace(from, to), "{:?}", (text, from, to));
    }
    assert_eq!(replace("aaaa", "aa", "b"), "bb");
    assert_eq!(replace("abc", "", "-"), "-a-b-c-");
}

#[test]
fn written_string_is_read_back() {
    let script = parse_script("$a.b.c = replace('x_y', '_', '-')").unwrap();
    let mut ctx = object(vec![("c", text("in the way"))]);
    assert_eq!(exec_script(&script, &mut ctx, true), Ok(()));
    assert_eq!(exec_val(&Val::Var(vec![s("a"), s("b"), s("c")]), &ctx, true), Ok(s("x-y")));
    assert_eq!(ctx.read(&vec![s("a"), s("b"), s("c")]), Ok(s("x-y")));
}

#[test]
fn resolves_tells_missing_from_empty() {
    let ctx = object(vec![("raw", object(vec![("title", text(""))]))]);
    let there = vec![s("title"), s("raw")];
    let missing = vec![s("name"), s("raw")];
    assert!(ctx.resolves(&there));
    assert!(!ctx.resolves(&missing));
    assert!(ctx.resolves(&vec![]));
    assert_eq!(ctx.read(&there), Ok(s("")));
    assert_eq!(ctx.read(&missing), Ok(s("")));
}
