//! The evaluator: runs a script against a value tree.

use vstd::prelude::*;
use vstd::string::*;
use crate::script::{Val, ValView, Script, ScriptView, vals, call_view};
use crate::text::{strs, replaced, replace, same_text};
use crate::value::{Value, Tree, EvalError, child, read_path, write_path, text_result};

verus! {

/// The string that the value expression `v` stands for in the context `ctx`.
pub open spec fn eval_val(v: ValView, ctx: Tree, strict: bool) -> Result<Seq<char>, EvalError>
    decreases v,
{
    match v {
        ValView::Str(s) => Ok(s),
        ValView::Var(path) => read_path(ctx, path),
        ValView::Call(name, args) => eval_call(name, args, ctx, strict),
    }
}

/// The string that a call of the builtin function `name` on `args` gives.
///
/// `replace` takes three arguments, the second a string literal, and gives
/// the first with every occurrence of the second replaced by the third. Any
/// other name is unknown: an error where `strict` is set, else the empty
/// string.
pub open spec fn eval_call(name: Seq<char>, args: Seq<ValView>, ctx: Tree, strict: bool) -> Result<
    Seq<char>,
    EvalError,
>
    decreases args,
{
    if name == "replace"@ {
        if args.len() != 3 {
            Err(EvalError::WrongArity)
        } else if !(args[1] is Str) {
            Err(EvalError::UnsupportedArgumentShape)
        } else {
            match eval_val(args[0], ctx, strict) {
                Err(e) => Err(e),
                Ok(s) => match eval_val(args[1], ctx, strict) {
                    Err(e) => Err(e),
                    Ok(from) => match eval_val(args[2], ctx, strict) {
                        Err(e) => Err(e),
                        Ok(to) => Ok(replaced(s, from, to)),
                    },
                },
            }
        }
    } else if strict {
        Err(EvalError::UnknownFunction)
    } else {
        Ok(Seq::empty())
    }
}

/// The context `ctx` after the script `s` ran against it: the value of the
/// script, written at its target path.
pub open spec fn eval_script(s: ScriptView, ctx: Tree, strict: bool) -> Result<Tree, EvalError> {
    match eval_val(s.val, ctx, strict) {
        Err(e) => Err(e),
        Ok(text) => if s.var.len() == 0 {
            Err(EvalError::EmptyTarget)
        } else if !(ctx is Object) {
            Err(EvalError::ContextNotObject)
        } else {
            Ok(write_path(ctx, s.var, text))
        },
    }
}

/// A variable whose last segment names no member of the context reads as the
/// empty string.
pub proof fn missing_variable_is_empty(path: Seq<Seq<char>>, ctx: Tree, strict: bool)
    requires
        path.len() >= 1,
        child(ctx, path.last()) is None,
    ensures
        eval_val(ValView::Var(path), ctx, strict) == Ok::<Seq<char>, EvalError>(Seq::empty()),
{
}

/// Replacing in the empty string gives the empty string, unless the pattern
/// is empty too.
pub proof fn replaced_in_empty(from: Seq<char>, to: Seq<char>)
    requires
        from.len() > 0,
    ensures
        replaced(Seq::empty(), from, to) == Seq::<char>::empty(),
{
}

/// A call of `replace` on a variable that is not there gives what it gives on
/// the empty string.
pub proof fn replace_of_missing_variable(
    path: Seq<Seq<char>>,
    from: Seq<char>,
    to: Seq<char>,
    ctx: Tree,
    strict: bool,
)
    requires
        path.len() >= 1,
        child(ctx, path.last()) is None,
    ensures
        eval_call(
            "replace"@,
            seq![ValView::Var(path), ValView::Str(from), ValView::Str(to)],
            ctx,
            strict,
        ) == Ok::<Seq<char>, EvalError>(replaced(Seq::empty(), from, to)),
{
    let args = seq![ValView::Var(path), ValView::Str(from), ValView::Str(to)];
    assert(args[0] == ValView::Var(path));
    assert(args[1] == ValView::Str(from));
    assert(args[2] == ValView::Str(to));
    missing_variable_is_empty(path, ctx, strict);
}

/// A name other than `replace` is unknown: an error in strict mode, the empty
/// string otherwise, whatever the arguments.
pub proof fn unknown_function(name: Seq<char>, args: Seq<ValView>, ctx: Tree)
    requires
        name != "replace"@,
    ensures
        eval_call(name, args, ctx, true) == Err::<Seq<char>, EvalError>(EvalError::UnknownFunction),
        eval_call(name, args, ctx, false) == Ok::<Seq<char>, EvalError>(Seq::empty()),
{
}

/// Evaluates a value expression in the context `ctx` to a string.
pub fn exec_val(val: &Val, ctx: &Value, strict: bool) -> (r: Result<String, EvalError>)
    ensures
        text_result(r) == eval_val(val@, ctx@, strict),
    decreases val,
{
    match val {
        Val::String(s) => Ok(s.clone()),
        Val::Var(path) => ctx.read(path),
        Val::Call(name, args) => {
            proof {
                call_view(*name, *args);
            }
            exec_fn(name.as_str(), args, ctx, strict)
        },
    }
}

/// Calls the builtin function `name` on the unevaluated arguments `args`.
pub fn exec_fn(name: &str, args: &Vec<Val>, ctx: &Value, strict: bool) -> (r: Result<
    String,
    EvalError,
>)
    ensures
        text_result(r) == eval_call(name@, vals(args@), ctx@, strict),
    decreases args,
{
    if same_text(name, "replace") {
        if args.len() != 3 {
            return Err(EvalError::WrongArity);
        }
        match &args[1] {
            Val::String(_) => {},
            _ => {
                return Err(EvalError::UnsupportedArgumentShape);
            },
        }
        let s = match exec_val(&args[0], ctx, strict) {
            Ok(s) => s,
            Err(e) => {
                return Err(e);
            },
        };
        let from = match exec_val(&args[1], ctx, strict) {
            Ok(s) => s,
            Err(e) => {
                return Err(e);
            },
        };
        let to = match exec_val(&args[2], ctx, strict) {
            Ok(s) => s,
            Err(e) => {
                return Err(e);
            },
        };
        Ok(replace(s.as_str(), from.as_str(), to.as_str()))
    } else if strict {
        Err(EvalError::UnknownFunction)
    } else {
        Ok(String::new())
    }
}

/// Runs a script against the context `ctx`: evaluates its value and writes
/// the string at its target path. Where it fails the context is unchanged.
pub fn exec_script(script: &Script, ctx: &mut Value, strict: bool) -> (r: Result<(), EvalError>)
    ensures
        match eval_script(script@, old(ctx)@, strict) {
            Ok(t) => r is Ok && final(ctx)@ == t,
            Err(e) => r == Err::<(), EvalError>(e) && final(ctx)@ == old(ctx)@,
        },
{
    let text = match exec_val(&script.val, ctx, strict) {
        Ok(s) => s,
        Err(e) => {
            return Err(e);
        },
    };
    if script.var.len() == 0 {
        return Err(EvalError::EmptyTarget);
    }
    if !ctx.is_object() {
        return Err(EvalError::ContextNotObject);
    }
    let mut node = Value::Null;
    core::mem::swap(ctx, &mut node);
    assert(strs(script.var@).take(script.var.len() as int) =~= strs(script.var@));
    *ctx = node.write(&script.var, script.var.len(), text);
    Ok(())
}

} // verus!
