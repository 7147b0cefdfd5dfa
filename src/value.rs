//! The values that expressions evaluate to.
use vstd::prelude::*;

use crate::ids::{Block, Color, Group, Item};

verus! {

/// A place in the source: the span of characters that a value or a call came from.
#[derive(Debug, Copy, Clone, PartialEq, Eq, Structural)]
pub struct CodeArea {
    pub start: usize,
    pub end: usize,
}

impl CodeArea {
    /// The area of a value that no source text defined.
    pub fn new() -> (r: Self)
        ensures
            r.start == 0 && r.end == 0,
    {
        CodeArea { start: 0, end: 0 }
    }
}

/// Whether an emitted unit is static content or a trigger that can be activated.
#[derive(Debug, Copy, Clone, PartialEq, Eq, Structural)]
pub enum ObjectMode {
    Object,
    Trigger,
}

/// What an object parameter can hold.
#[derive(Debug, Clone)]
pub enum ObjParam {
    Group(Group),
    Color(Color),
    Block(Block),
    Item(Item),
    Number(i64),
    Bool(bool),
    Text(String),
    GroupList(Vec<Group>),
    Epsilon,
}

/// A pattern that values are matched against.
#[derive(Debug)]
pub enum Pattern {
    /// Any value whose type tag is the given one.
    Type(u16),
    /// An array all of whose elements match the inner pattern.
    Array(Box<Pattern>),
    /// A value that matches either of two patterns.
    Either(Box<Pattern>, Box<Pattern>),
}

/// A function that runs when its start group is activated.
#[derive(Debug, Copy, Clone, PartialEq, Eq, Structural)]
pub struct TriggerFunction {
    pub start_group: Group,
}

/// A value. Compound values refer to their parts by index into the value store.
#[derive(Debug)]
pub enum Value {
    Null,
    Bool(bool),
    Number(i64),
    Str(String),
    Array(Vec<usize>),
    /// Entries by name; each name occurs once, and their order carries no meaning.
    Dict(Vec<(String, usize)>),
    Group(Group),
    Color(Color),
    Block(Block),
    Item(Item),
    /// The (key, parameter) pairs of an object or trigger, in order.
    Obj(Vec<(u16, ObjParam)>, ObjectMode),
    TriggerFunc(TriggerFunction),
    /// A handle to a callable body that the surrounding compiler owns.
    Macro(usize),
    Pattern(Pattern),
    TypeIndicator(u16),
    BuiltinFunction(crate::builtins::Builtin),
    /// Start, end and step of an integer range.
    Range(i64, i64, usize),
    /// The namespace of built-in functions.
    Builtins,
}

pub const TYPE_GROUP: u16 = 0;
pub const TYPE_COLOR: u16 = 1;
pub const TYPE_BLOCK: u16 = 2;
pub const TYPE_ITEM: u16 = 3;
pub const TYPE_NUMBER: u16 = 4;
pub const TYPE_BOOL: u16 = 5;
pub const TYPE_TRIGGER_FUNC: u16 = 6;
pub const TYPE_DICT: u16 = 7;
pub const TYPE_MACRO: u16 = 8;
pub const TYPE_STRING: u16 = 9;
pub const TYPE_ARRAY: u16 = 10;
pub const TYPE_OBJECT: u16 = 11;
pub const TYPE_BUILTIN_FUNCTION: u16 = 12;
pub const TYPE_TYPE_INDICATOR: u16 = 13;
pub const TYPE_NULL: u16 = 14;
pub const TYPE_BUILTINS: u16 = 15;
pub const TYPE_TRIGGER: u16 = 16;
pub const TYPE_RANGE: u16 = 17;
pub const TYPE_PATTERN: u16 = 18;
pub const TYPE_OBJECT_KEY: u16 = 19;
pub const TYPE_EPSILON: u16 = 20;

/// The type tag of a value, before a dictionary's own type member is consulted.
pub open spec fn variant_tag(v: Value) -> u16 {
    match v {
        Value::Group(_) => TYPE_GROUP,
        Value::Color(_) => TYPE_COLOR,
        Value::Block(_) => TYPE_BLOCK,
        Value::Item(_) => TYPE_ITEM,
        Value::Number(_) => TYPE_NUMBER,
        Value::Bool(_) => TYPE_BOOL,
        Value::TriggerFunc(_) => TYPE_TRIGGER_FUNC,
        Value::Dict(_) => TYPE_DICT,
        Value::Macro(_) => TYPE_MACRO,
        Value::Str(_) => TYPE_STRING,
        Value::Array(_) => TYPE_ARRAY,
        Value::Obj(_, ObjectMode::Object) => TYPE_OBJECT,
        Value::Obj(_, ObjectMode::Trigger) => TYPE_TRIGGER,
        Value::BuiltinFunction(_) => TYPE_BUILTIN_FUNCTION,
        Value::TypeIndicator(_) => TYPE_TYPE_INDICATOR,
        Value::Null => TYPE_NULL,
        Value::Builtins => TYPE_BUILTINS,
        Value::Range(_, _, _) => TYPE_RANGE,
        Value::Pattern(_) => TYPE_PATTERN,
    }
}

impl Value {
    /// The type tag of the variant.
    pub fn variant_tag(&self) -> (r: u16)
        ensures
            r == variant_tag(*self),
    {
        match self {
            Value::Group(_) => TYPE_GROUP,
            Value::Color(_) => TYPE_COLOR,
            Value::Block(_) => TYPE_BLOCK,
            Value::Item(_) => TYPE_ITEM,
            Value::Number(_) => TYPE_NUMBER,
            Value::Bool(_) => TYPE_BOOL,
            Value::TriggerFunc(_) => TYPE_TRIGGER_FUNC,
            Value::Dict(_) => TYPE_DICT,
            Value::Macro(_) => TYPE_MACRO,
            Value::Str(_) => TYPE_STRING,
            Value::Array(_) => TYPE_ARRAY,
            Value::Obj(_, ObjectMode::Object) => TYPE_OBJECT,
            Value::Obj(_, ObjectMode::Trigger) => TYPE_TRIGGER,
            Value::BuiltinFunction(_) => TYPE_BUILTIN_FUNCTION,
            Value::TypeIndicator(_) => TYPE_TYPE_INDICATOR,
            Value::Null => TYPE_NULL,
            Value::Builtins => TYPE_BUILTINS,
            Value::Range(_, _, _) => TYPE_RANGE,
            Value::Pattern(_) => TYPE_PATTERN,
        }
    }
}

/// Two object parameters are the same: equal fields, texts and lists compared by content.
pub open spec fn same_param(a: ObjParam, b: ObjParam) -> bool {
    match (a, b) {
        (ObjParam::Group(x), ObjParam::Group(y)) => x == y,
        (ObjParam::Color(x), ObjParam::Color(y)) => x == y,
        (ObjParam::Block(x), ObjParam::Block(y)) => x == y,
        (ObjParam::Item(x), ObjParam::Item(y)) => x == y,
        (ObjParam::Number(x), ObjParam::Number(y)) => x == y,
        (ObjParam::Bool(x), ObjParam::Bool(y)) => x == y,
        (ObjParam::Text(x), ObjParam::Text(y)) => x@ == y@,
        (ObjParam::GroupList(x), ObjParam::GroupList(y)) => x@ == y@,
        (ObjParam::Epsilon, ObjParam::Epsilon) => true,
        _ => false,
    }
}

/// Two (key, parameter) lists are the same, pair by pair.
pub open spec fn same_params(a: Seq<(u16, ObjParam)>, b: Seq<(u16, ObjParam)>) -> bool {
    a.len() == b.len() && forall|k: int|
        #![trigger a[k]]
        0 <= k < a.len() ==> a[k].0 == b[k].0 && same_param(a[k].1, b[k].1)
}

pub open spec fn same_pattern(a: Pattern, b: Pattern) -> bool
    decreases a,
{
    match (a, b) {
        (Pattern::Type(x), Pattern::Type(y)) => x == y,
        (Pattern::Array(x), Pattern::Array(y)) => same_pattern(*x, *y),
        (Pattern::Either(x1, x2), Pattern::Either(y1, y2)) => same_pattern(*x1, *y1)
            && same_pattern(*x2, *y2),
        _ => false,
    }
}

/// Two values that hold no indices are the same. Arrays and dictionaries are
/// compared through the value store instead.
pub open spec fn same_leaf(a: Value, b: Value) -> bool {
    match (a, b) {
        (Value::Null, Value::Null) => true,
        (Value::Bool(x), Value::Bool(y)) => x == y,
        (Value::Number(x), Value::Number(y)) => x == y,
        (Value::Str(x), Value::Str(y)) => x@ == y@,
        (Value::Group(x), Value::Group(y)) => x == y,
        (Value::Color(x), Value::Color(y)) => x == y,
        (Value::Block(x), Value::Block(y)) => x == y,
        (Value::Item(x), Value::Item(y)) => x == y,
        (Value::Obj(x, m), Value::Obj(y, n)) => m == n && same_params(x@, y@),
        (Value::TriggerFunc(x), Value::TriggerFunc(y)) => x == y,
        (Value::Macro(x), Value::Macro(y)) => x == y,
        (Value::Pattern(x), Value::Pattern(y)) => same_pattern(x, y),
        (Value::TypeIndicator(x), Value::TypeIndicator(y)) => x == y,
        (Value::BuiltinFunction(x), Value::BuiltinFunction(y)) => x == y,
        (Value::Range(x1, x2, x3), Value::Range(y1, y2, y3)) => x1 == y1 && x2 == y2 && x3 == y3,
        (Value::Builtins, Value::Builtins) => true,
        _ => false,
    }
}

/// Two entry lists of dictionaries are the same, entry by entry.
pub open spec fn same_entries(a: Seq<(String, usize)>, b: Seq<(String, usize)>) -> bool {
    a.len() == b.len() && forall|k: int|
        #![trigger a[k]]
        0 <= k < a.len() ==> a[k].0@ == b[k].0@ && a[k].1 == b[k].1
}

/// Two values are the same at their top level: leaves as `same_leaf` says,
/// arrays and dictionaries when they refer to the same indices.
pub open spec fn same_shallow(a: Value, b: Value) -> bool {
    match (a, b) {
        (Value::Array(x), Value::Array(y)) => x@ == y@,
        (Value::Dict(x), Value::Dict(y)) => same_entries(x@, y@),
        _ => same_leaf(a, b),
    }
}

pub fn copy_param(p: &ObjParam) -> (r: ObjParam)
    ensures
        same_param(r, *p),
{
    match p {
        ObjParam::Group(x) => ObjParam::Group(*x),
        ObjParam::Color(x) => ObjParam::Color(*x),
        ObjParam::Block(x) => ObjParam::Block(*x),
        ObjParam::Item(x) => ObjParam::Item(*x),
        ObjParam::Number(x) => ObjParam::Number(*x),
        ObjParam::Bool(x) => ObjParam::Bool(*x),
        ObjParam::Text(x) => ObjParam::Text(x.clone()),
        ObjParam::GroupList(x) => {
            let mut out: Vec<Group> = Vec::new();
            let mut i: usize = 0;
            while i < x.len()
                invariant
                    i <= x.len(),
                    out@ =~= x@.subrange(0, i as int),
                decreases x.len() - i,
            {
                out.push(x[i]);
                i = i + 1;
            }
            assert(out@ =~= x@);
            ObjParam::GroupList(out)
        },
        ObjParam::Epsilon => ObjParam::Epsilon,
    }
}

pub fn copy_params(v: &Vec<(u16, ObjParam)>) -> (r: Vec<(u16, ObjParam)>)
    ensures
        same_params(r@, v@),
{
    let mut out: Vec<(u16, ObjParam)> = Vec::new();
    let mut i: usize = 0;
    while i < v.len()
        invariant
            i <= v.len(),
            out@.len() == i,
            forall|k: int| #![trigger out@[k]] 0 <= k < i ==> out@[k].0 == v@[k].0 && same_param(out@[k].1, v@[k].1),
        decreases v.len() - i,
    {
        out.push((v[i].0, copy_param(&v[i].1)));
        i = i + 1;
    }
    out
}

pub fn copy_pattern(p: &Pattern) -> (r: Pattern)
    ensures
        same_pattern(r, *p),
    decreases p,
{
    match p {
        Pattern::Type(t) => Pattern::Type(*t),
        Pattern::Array(x) => Pattern::Array(Box::new(copy_pattern(x))),
        Pattern::Either(x, y) => Pattern::Either(Box::new(copy_pattern(x)), Box::new(copy_pattern(y))),
    }
}

pub fn copy_indices(v: &Vec<usize>) -> (r: Vec<usize>)
    ensures
        r@ == v@,
{
    let mut out: Vec<usize> = Vec::new();
    let mut i: usize = 0;
    while i < v.len()
        invariant
            i <= v.len(),
            out@ =~= v@.subrange(0, i as int),
        decreases v.len() - i,
    {
        out.push(v[i]);
        i = i + 1;
    }
    assert(out@ =~= v@);
    out
}

pub fn copy_entries(v: &Vec<(String, usize)>) -> (r: Vec<(String, usize)>)
    ensures
        same_entries(r@, v@),
{
    let mut out: Vec<(String, usize)> = Vec::new();
    let mut i: usize = 0;
    while i < v.len()
        invariant
            i <= v.len(),
            out@.len() == i,
            forall|k: int| #![trigger out@[k]] 0 <= k < i ==> out@[k].0@ == v@[k].0@ && out@[k].1 == v@[k].1,
        decreases v.len() - i,
    {
        out.push((v[i].0.clone(), v[i].1));
        i = i + 1;
    }
    out
}

impl Value {
    /// A copy of the value; compound values keep referring to the same indices.
    pub fn copy(&self) -> (r: Value)
        ensures
            same_shallow(r, *self),
            variant_tag(r) == variant_tag(*self),
    {
        match self {
            Value::Null => Value::Null,
            Value::Bool(x) => Value::Bool(*x),
            Value::Number(x) => Value::Number(*x),
            Value::Str(x) => Value::Str(x.clone()),
            Value::Array(x) => Value::Array(copy_indices(x)),
            Value::Dict(x) => Value::Dict(copy_entries(x)),
            Value::Group(x) => Value::Group(*x),
            Value::Color(x) => Value::Color(*x),
            Value::Block(x) => Value::Block(*x),
            Value::Item(x) => Value::Item(*x),
            Value::Obj(x, m) => Value::Obj(copy_params(x), *m),
            Value::TriggerFunc(x) => Value::TriggerFunc(*x),
            Value::Macro(x) => Value::Macro(*x),
            Value::Pattern(x) => Value::Pattern(copy_pattern(x)),
            Value::TypeIndicator(x) => Value::TypeIndicator(*x),
            Value::BuiltinFunction(x) => Value::BuiltinFunction(*x),
            Value::Range(x, y, z) => Value::Range(*x, *y, *z),
            Value::Builtins => Value::Builtins,
        }
    }
}

/// Whether two strings hold the same characters.
pub fn strings_equal(a: &String, b: &String) -> (r: bool)
    ensures
        r == (a@ == b@),
{
    a.eq(b)
}

pub fn groups_equal(x: &Vec<Group>, y: &Vec<Group>) -> (r: bool)
    ensures
        r == (x@ == y@),
{
    if x.len() != y.len() {
        return false;
    }
    let mut i: usize = 0;
    while i < x.len()
        invariant
            x.len() == y.len(),
            i <= x.len(),
            forall|k: int| 0 <= k < i ==> x@[k] == y@[k],
        decreases x.len() - i,
    {
        if !(x[i] == y[i]) {
            assert(x@[i as int] != y@[i as int]);
            return false;
        }
        i = i + 1;
    }
    assert(x@ =~= y@);
    true
}

pub fn param_equal(a: &ObjParam, b: &ObjParam) -> (r: bool)
    ensures
        r == same_param(*a, *b),
{
    match (a, b) {
        (ObjParam::Group(x), ObjParam::Group(y)) => x == y,
        (ObjParam::Color(x), ObjParam::Color(y)) => x == y,
        (ObjParam::Block(x), ObjParam::Block(y)) => x == y,
        (ObjParam::Item(x), ObjParam::Item(y)) => x == y,
        (ObjParam::Number(x), ObjParam::Number(y)) => x == y,
        (ObjParam::Bool(x), ObjParam::Bool(y)) => x == y,
        (ObjParam::Text(x), ObjParam::Text(y)) => strings_equal(x, y),
        (ObjParam::GroupList(x), ObjParam::GroupList(y)) => groups_equal(x, y),
        (ObjParam::Epsilon, ObjParam::Epsilon) => true,
        _ => false,
    }
}

pub fn params_equal(a: &Vec<(u16, ObjParam)>, b: &Vec<(u16, ObjParam)>) -> (r: bool)
    ensures
        r == same_params(a@, b@),
{
    if a.len() != b.len() {
        return false;
    }
    let mut i: usize = 0;
    while i < a.len()
        invariant
            a.len() == b.len(),
            i <= a.len(),
            forall|k: int| #![trigger a@[k]] 0 <= k < i ==> a@[k].0 == b@[k].0 && same_param(a@[k].1, b@[k].1),
        decreases a.len() - i,
    {
        if a[i].0 != b[i].0 || !param_equal(&a[i].1, &b[i].1) {
            return false;
        }
        i = i + 1;
    }
    true
}

pub fn pattern_equal(a: &Pattern, b: &Pattern) -> (r: bool)
    ensures
        r == same_pattern(*a, *b),
    decreases a,
{
    match (a, b) {
        (Pattern::Type(x), Pattern::Type(y)) => x == y,
        (Pattern::Array(x), Pattern::Array(y)) => pattern_equal(x, y),
        (Pattern::Either(x1, x2), Pattern::Either(y1, y2)) => pattern_equal(x1, y1) && pattern_equal(x2, y2),
        _ => false,
    }
}

/// Whether two values that hold no indices are the same.
pub fn leaf_equal(a: &Value, b: &Value) -> (r: bool)
    ensures
        r == same_leaf(*a, *b),
{
    match (a, b) {
        (Value::Null, Value::Null) => true,
        (Value::Bool(x), Value::Bool(y)) => x == y,
        (Value::Number(x), Value::Number(y)) => x == y,
        (Value::Str(x), Value::Str(y)) => strings_equal(x, y),
        (Value::Group(x), Value::Group(y)) => x == y,
        (Value::Color(x), Value::Color(y)) => x == y,
        (Value::Block(x), Value::Block(y)) => x == y,
        (Value::Item(x), Value::Item(y)) => x == y,
        (Value::Obj(x, m), Value::Obj(y, n)) => *m == *n && params_equal(x, y),
        (Value::TriggerFunc(x), Value::TriggerFunc(y)) => x == y,
        (Value::Macro(x), Value::Macro(y)) => x == y,
        (Value::Pattern(x), Value::Pattern(y)) => pattern_equal(x, y),
        (Value::TypeIndicator(x), Value::TypeIndicator(y)) => x == y,
        (Value::BuiltinFunction(x), Value::BuiltinFunction(y)) => *x == *y,
        (Value::Range(x1, x2, x3), Value::Range(y1, y2, y3)) => x1 == y1 && x2 == y2 && x3 == y3,
        (Value::Builtins, Value::Builtins) => true,
        _ => false,
    }
}

} // verus!
