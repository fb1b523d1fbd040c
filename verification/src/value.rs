//! The value tree that scripts read from and write into.

use vstd::prelude::*;
use vstd::string::*;
use crate::text::{strs, same_text};

verus! {

/// A dynamically shaped value. An object holds its members in the order in
/// which their keys were first written; a key is looked up from the front.
#[derive(Debug, PartialEq, Eq)]
pub enum Value {
    Null,
    Bool(bool),
    /// A number, held as its decimal text.
    Number(String),
    String(String),
    Array(Vec<Value>),
    Object(Vec<Member>),
}

/// One member of an object.
#[derive(Debug, PartialEq, Eq)]
pub struct Member {
    pub key: String,
    pub value: Value,
}

/// The mathematical model of a `Member`.
pub struct Field {
    pub key: Seq<char>,
    pub value: Tree,
}

/// The mathematical model of a `Value`.
pub enum Tree {
    Null,
    Bool(bool),
    Number(Seq<char>),
    Str(Seq<char>),
    Array(Seq<Tree>),
    Object(Seq<Field>),
}

/// Why an evaluation failed.
#[derive(Clone, Copy, Debug, PartialEq, Eq)]
pub enum EvalError {
    /// A builtin function was called with the wrong number of arguments.
    WrongArity,
    /// A builtin function was called with an argument of a form that it does
    /// not take.
    UnsupportedArgumentShape,
    /// No builtin function has the name that was called.
    UnknownFunction,
    /// A variable names a value that is no string.
    NotAString,
    /// The target path of the script has no segment.
    EmptyTarget,
    /// The context to write into is no object.
    ContextNotObject,
}

impl View for Value {
    type V = Tree;

    open spec fn view(&self) -> Tree
        decreases self,
    {
        match self {
            Value::Null => Tree::Null,
            Value::Bool(b) => Tree::Bool(*b),
            Value::Number(n) => Tree::Number(n@),
            Value::String(s) => Tree::Str(s@),
            Value::Array(items) => Tree::Array(
                Seq::new(
                    items.len() as nat,
                    |i: int| if 0 <= i < items.len() { items[i]@ } else { Tree::Null },
                ),
            ),
            Value::Object(members) => Tree::Object(
                Seq::new(
                    members.len() as nat,
                    |i: int| if 0 <= i < members.len() { Field { key: members[i].key@, value: members[i].value@ } } else { Field { key: Seq::empty(), value: Tree::Null } },
                ),
            ),
        }
    }
}

/// The views of the members of an object.
pub open spec fn members_view(ms: Seq<Member>) -> Seq<Field> {
    Seq::new(ms.len(), |i: int| Field { key: ms[i].key@, value: ms[i].value@ })
}

/// The views of the items of an array.
pub open spec fn items_view(items: Seq<Value>) -> Seq<Tree> {
    Seq::new(items.len(), |i: int| items[i]@)
}

/// The view of an object is the object of its members' views.
pub proof fn object_view(members: Vec<Member>)
    ensures
        Value::Object(members)@ == Tree::Object(members_view(members@)),
{
    let obj = Value::Object(members)@;
    assert(obj matches Tree::Object(f) && f =~= members_view(members@));
}

/// The view of an array is the array of its items' views.
pub proof fn array_view(items: Vec<Value>)
    ensures
        Value::Array(items)@ == Tree::Array(items_view(items@)),
{
    let arr = Value::Array(items)@;
    assert(arr matches Tree::Array(a) && a =~= items_view(items@));
}

/// The first position at or after `i` whose member has the key `key` (the
/// number of members if there is none).
pub open spec fn key_index(fields: Seq<Field>, key: Seq<char>, i: int) -> int
    decreases fields.len() - i,
{
    if 0 <= i < fields.len() && fields[i].key != key {
        key_index(fields, key, i + 1)
    } else {
        i
    }
}

/// The member of `t` under `key`, if `t` is an object that has one.
pub open spec fn child(t: Tree, key: Seq<char>) -> Option<Tree> {
    match t {
        Tree::Object(fields) => {
            let i = key_index(fields, key, 0);
            if 0 <= i < fields.len() {
                Some(fields[i].value)
            } else {
                None
            }
        },
        _ => None,
    }
}

/// The members `fields` with `v` under `key`: in the place of the member that
/// had that key, or at the end.
pub open spec fn put(fields: Seq<Field>, key: Seq<char>, v: Tree) -> Seq<Field> {
    let i = key_index(fields, key, 0);
    if 0 <= i < fields.len() {
        fields.update(i, Field { key, value: v })
    } else {
        fields.push(Field { key, value: v })
    }
}

/// The members of `t`, none where `t` is no object.
pub open spec fn fields_of(t: Tree) -> Seq<Field> {
    match t {
        Tree::Object(fields) => fields,
        _ => Seq::empty(),
    }
}

/// The object under `key` in `t`, an empty object where `t` has no object
/// there.
pub open spec fn object_at(t: Tree, key: Seq<char>) -> Tree {
    match child(t, key) {
        Some(Tree::Object(fields)) => Tree::Object(fields),
        _ => Tree::Object(Seq::empty()),
    }
}

/// What reading the variable `path` in `t` gives. The path is walked from its
/// last segment to its first: a missing segment gives the empty string, and
/// the value reached must be a string.
pub open spec fn read_path(t: Tree, path: Seq<Seq<char>>) -> Result<Seq<char>, EvalError>
    decreases path.len(),
{
    if path.len() == 0 {
        match t {
            Tree::Str(s) => Ok(s),
            _ => Err(EvalError::NotAString),
        }
    } else {
        match child(t, path.last()) {
            None => Ok(Seq::empty()),
            Some(c) => read_path(c, path.drop_last()),
        }
    }
}

/// The object `t` after the string `text` was written at `path`. The path is
/// walked from its last segment to its first: each segment but the first names
/// an object to descend into, made anew where `t` has no object there, and the
/// first segment is the key under which the string is stored.
pub open spec fn write_path(t: Tree, path: Seq<Seq<char>>, text: Seq<char>) -> Tree
    decreases path.len(),
{
    if path.len() <= 1 {
        Tree::Object(put(fields_of(t), path.last(), Tree::Str(text)))
    } else {
        Tree::Object(
            put(
                fields_of(t),
                path.last(),
                write_path(object_at(t, path.last()), path.drop_last(), text),
            ),
        )
    }
}

proof fn key_index_found(fields: Seq<Field>, key: Seq<char>, i: int)
    requires
        0 <= i <= fields.len(),
    ensures
        i <= key_index(fields, key, i) <= fields.len(),
        forall|j: int| i <= j < key_index(fields, key, i) ==> fields[j].key != key,
    decreases fields.len() - i,
{
    if i < fields.len() && fields[i].key != key {
        key_index_found(fields, key, i + 1);
    }
}

proof fn key_index_is(fields: Seq<Field>, key: Seq<char>, i: int, r: int)
    requires
        0 <= i <= r <= fields.len(),
        forall|j: int| i <= j < r ==> fields[j].key != key,
        r < fields.len() ==> fields[r].key == key,
    ensures
        key_index(fields, key, i) == r,
    decreases r - i,
{
    if i < r {
        key_index_is(fields, key, i + 1, r);
    }
}

/// What was put under a key is the member found under it.
pub proof fn child_after_put(fields: Seq<Field>, key: Seq<char>, v: Tree)
    ensures
        child(Tree::Object(put(fields, key, v)), key) == Some(v),
{
    key_index_found(fields, key, 0);
    key_index_is(put(fields, key, v), key, 0, key_index(fields, key, 0));
}

/// Whether every segment of `path`, walked from the last to the first, names
/// a member.
pub open spec fn path_exists(t: Tree, path: Seq<Seq<char>>) -> bool
    decreases path.len(),
{
    if path.len() == 0 {
        true
    } else {
        match child(t, path.last()) {
            None => false,
            Some(c) => path_exists(c, path.drop_last()),
        }
    }
}

/// A string written at a path is the string read at that path: the two walk
/// the path in the same order, from its last segment to its first.
pub proof fn read_after_write(t: Tree, path: Seq<Seq<char>>, text: Seq<char>)
    requires
        path.len() >= 1,
    ensures
        read_path(write_path(t, path, text), path) == Ok::<Seq<char>, EvalError>(text),
    decreases path.len(),
{
    if path.len() <= 1 {
        child_after_put(fields_of(t), path.last(), Tree::Str(text));
        assert(path.drop_last().len() == 0);
        assert(read_path(Tree::Str(text), path.drop_last()) == Ok::<Seq<char>, EvalError>(text));
        assert(child(write_path(t, path, text), path.last()) == Some(Tree::Str(text)));
    } else {
        let inner = write_path(object_at(t, path.last()), path.drop_last(), text);
        child_after_put(fields_of(t), path.last(), inner);
        read_after_write(object_at(t, path.last()), path.drop_last(), text);
        assert(child(write_path(t, path, text), path.last()) == Some(inner));
    }
}

/// A write walks its path from the last segment: on an empty object the
/// target `x.y` makes an object under `y`, and stores the string under `x`
/// in it.
pub proof fn write_descends_from_last(x: Seq<char>, y: Seq<char>, text: Seq<char>)
    ensures
        write_path(Tree::Object(Seq::empty()), seq![x, y], text) == Tree::Object(
            seq![
                Field {
                    key: y,
                    value: Tree::Object(seq![Field { key: x, value: Tree::Str(text) }]),
                },
            ],
        ),
{
    let empty = Tree::Object(Seq::empty());
    let path = seq![x, y];
    let inner = Tree::Object(seq![Field { key: x, value: Tree::Str(text) }]);
    assert(path.last() == y);
    assert(path.drop_last() =~= seq![x]);
    assert(seq![x].last() == x);
    assert(object_at(empty, y) == empty);
    assert(put(Seq::empty(), x, Tree::Str(text)) =~= seq![Field { key: x, value: Tree::Str(text) }]);
    assert(write_path(empty, seq![x], text) == inner);
    assert(put(Seq::empty(), y, inner) =~= seq![Field { key: y, value: inner }]);
}

/// A result with its string taken by its view.
pub open spec fn text_result(r: Result<String, EvalError>) -> Result<Seq<char>, EvalError> {
    match r {
        Ok(s) => Ok(s@),
        Err(e) => Err(e),
    }
}

fn find_member(members: &Vec<Member>, key: &str) -> (i: usize)
    ensures
        i == key_index(members_view(members@), key@, 0),
        i <= members.len(),
{
    let mut j: usize = 0;
    while j < members.len() && !same_text(members[j].key.as_str(), key)
        invariant
            j <= members.len(),
            key_index(members_view(members@), key@, 0) == key_index(
                members_view(members@),
                key@,
                j as int,
            ),
        decreases members.len() - j,
    {
        j += 1;
    }
    j
}

impl Value {
    /// An object without members.
    pub fn empty_object() -> (r: Value)
        ensures
            r@ == Tree::Object(Seq::empty()),
    {
        let members: Vec<Member> = Vec::new();
        proof {
            object_view(members);
            assert(members_view(members@) =~= Seq::empty());
        }
        Value::Object(members)
    }

    /// Whether the value is an object.
    pub fn is_object(&self) -> (r: bool)
        ensures
            r == (self@ is Object),
    {
        match self {
            Value::Object(_) => true,
            _ => false,
        }
    }

    /// The member under `key`, if the value is an object that has one.
    pub fn get(&self, key: &str) -> (r: Option<&Value>)
        ensures
            match child(self@, key@) {
                Some(c) => r matches Some(v) && v@ == c,
                None => r is None,
            },
    {
        match self {
            Value::Object(members) => {
                proof {
                    object_view(*members);
                }
                let i = find_member(members, key);
                if i < members.len() {
                    Some(&members[i].value)
                } else {
                    None
                }
            },
            _ => None,
        }
    }

    /// Reads the variable `path`: walks it from its last segment to its first
    /// and returns the string reached, or the empty string where a segment is
    /// missing.
    pub fn read(&self, path: &Vec<String>) -> (r: Result<String, EvalError>)
        ensures
            text_result(r) == read_path(self@, strs(path@)),
    {
        let mut node: &Value = self;
        let mut k: usize = path.len();
        assert(strs(path@).take(k as int) =~= strs(path@));
        while k > 0
            invariant
                k <= path.len(),
                read_path(self@, strs(path@)) == read_path(node@, strs(path@).take(k as int)),
            decreases k,
        {
            k -= 1;
            proof {
                let p = strs(path@).take(k + 1);
                assert(p.last() == path[k as int]@);
                assert(p.drop_last() =~= strs(path@).take(k as int));
            }
            match node.get(path[k].as_str()) {
                None => {
                    return Ok(String::new());
                },
                Some(c) => {
                    node = c;
                },
            }
        }
        assert(strs(path@).take(0).len() == 0);
        match node {
            Value::String(s) => Ok(s.clone()),
            _ => Err(EvalError::NotAString),
        }
    }

    /// Whether the variable `path` is there: a read of one that is not gives
    /// the empty string.
    pub fn resolves(&self, path: &Vec<String>) -> (r: bool)
        ensures
            r == path_exists(self@, strs(path@)),
            !r ==> read_path(self@, strs(path@)) == Ok::<Seq<char>, EvalError>(Seq::empty()),
    {
        let mut node: &Value = self;
        let mut k: usize = path.len();
        assert(strs(path@).take(k as int) =~= strs(path@));
        while k > 0
            invariant
                k <= path.len(),
                path_exists(self@, strs(path@)) == path_exists(node@, strs(path@).take(k as int)),
                read_path(self@, strs(path@)) == read_path(node@, strs(path@).take(k as int)),
            decreases k,
        {
            k -= 1;
            proof {
                let p = strs(path@).take(k + 1);
                assert(p.last() == path[k as int]@);
                assert(p.drop_last() =~= strs(path@).take(k as int));
            }
            match node.get(path[k].as_str()) {
                None => {
                    return false;
                },
                Some(c) => {
                    node = c;
                },
            }
        }
        assert(strs(path@).take(0).len() == 0);
        true
    }

    /// Writes the string `text` at the first `k` segments of `path` in the
    /// object `self`, and returns the object.
    pub(crate) fn write(self, path: &Vec<String>, k: usize, text: String) -> (r: Value)
        requires
            1 <= k <= path.len(),
            self@ is Object,
        ensures
            r@ == write_path(self@, strs(path@).take(k as int), text@),
        decreases k,
    {
        let ghost p = strs(path@).take(k as int);
        let ghost tree = self@;
        proof {
            assert(p.last() == path[k - 1]@);
            assert(p.drop_last() =~= strs(path@).take(k - 1));
        }
        let mut members: Vec<Member> = match self {
            Value::Object(m) => m,
            _ => Vec::new(),
        };
        proof {
            object_view(members);
        }
        let ghost before = members_view(members@);
        let key = path[k - 1].clone();
        let i = find_member(&members, key.as_str());
        let found = i < members.len();
        let new_value = if k == 1 {
            if found {
                let _ = members.remove(i);
            }
            Value::String(text)
        } else {
            let sub = if found {
                let m = members.remove(i);
                if m.value.is_object() {
                    m.value
                } else {
                    Value::empty_object()
                }
            } else {
                Value::empty_object()
            };
            assert(sub@ == object_at(tree, p.last()));
            sub.write(path, k - 1, text)
        };
        let ghost new_view = new_value@;
        if found {
            members.insert(i, Member { key, value: new_value });
        } else {
            members.push(Member { key, value: new_value });
        }
        proof {
            object_view(members);
            assert(members_view(members@) =~= put(before, p.last(), new_view));
        }
        Value::Object(members)
    }
}

} // verus!
