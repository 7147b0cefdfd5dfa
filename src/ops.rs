//! The bodies of the built-in operations. Each runs for one branch, on
//! arguments that the dispatcher has already checked against the catalog.
use vstd::prelude::*;

use crate::context::Context;
use crate::error::RuntimeError;
use crate::globals::{Globals, built_from_pairs, emission, insert_param, last_with_key, param_lookup};
use crate::ids::Group;
use crate::store::{ValueStore, StoredSlot, children, unique_keys};
use crate::text::{char_string, pop_char};
use crate::value::{CodeArea, Value, copy_indices, same_param, same_params, same_shallow, variant_tag};

verus! {

/// The indices of an array, and none of another value.
pub open spec fn array_items(v: Value) -> Seq<usize> {
    match v {
        Value::Array(a) => a@,
        _ => Seq::empty(),
    }
}

/// The arguments are slots of a well-formed store, `n` of them.
pub open spec fn args_ok(s: &ValueStore, args: Seq<usize>, n: nat) -> bool {
    &&& s.wf()
    &&& args.len() == n
    &&& forall|i: int| 0 <= i < n ==> #[trigger] args[i] < s.slots@.len()
}

pub open spec fn arg(s: &ValueStore, args: Seq<usize>, i: int) -> Value {
    s.slots@[args[i] as int].value
}

/// `s1` is `s0` with only the value at `a` replaced.
pub open spec fn only_value_changed(s0: &ValueStore, s1: &ValueStore, a: usize) -> bool {
    &&& s1.slots@.len() == s0.slots@.len()
    &&& forall|i: int| 0 <= i < s0.slots@.len() && i != a ==> #[trigger] s1.slots@[i] == s0.slots@[i]
    &&& s1.slots@[a as int].mutable == s0.slots@[a as int].mutable
    &&& s1.slots@[a as int].def_area == s0.slots@[a as int].def_area
    &&& s1.slots@[a as int].fn_context == s0.slots@[a as int].fn_context
    &&& s1.ranks == s0.ranks
    &&& s1.floor == s0.floor
    &&& s1.top == s0.top
}

/// Appending to the array at `a` a fresh copy `c` of the value at `v`,
/// copied as it was before the array changed, with the mutability of `v`.
pub open spec fn appended_copy(s0: &ValueStore, s1: &ValueStore, a: usize, v: usize, c: usize) -> bool {
    &&& s0.slots@.len() <= c < s1.slots@.len()
    &&& exists|mid: ValueStore| {
        &&& #[trigger] mid.extends(s0)
        &&& mid.wf()
        &&& mid.slots@.len() == s1.slots@.len()
        &&& mid.deep_eq(c, v)
        &&& only_value_changed(&mid, s1, a)
    }
    &&& s1.slots@[c as int].mutable == s0.slots@[v as int].mutable
    &&& s1.slots@[a as int].value is Array
    &&& array_items(s1.slots@[a as int].value) == array_items(s0.slots@[a as int].value).push(c)
}

/// What popping from the value at `a` does: an array loses its last element,
/// which is returned; a string loses its last character, returned as a
/// string; an empty one stays and gives `Null`; another value is refused.
pub open spec fn popped(s0: &ValueStore, s1: &ValueStore, a: usize, r: Result<Value, RuntimeError>) -> bool {
    match s0.slots@[a as int].value {
        Value::Array(items) => if items@.len() == 0 {
            &&& r matches Ok(Value::Null)
            &&& s1 == s0
        } else {
            &&& r matches Ok(v) && same_shallow(v, s0.slots@[items@.last() as int].value)
            &&& only_value_changed(s0, s1, a)
            &&& s1.slots@[a as int].value is Array
            &&& array_items(s1.slots@[a as int].value) == items@.drop_last()
        },
        Value::Str(text) => if text@.len() == 0 {
            &&& r matches Ok(Value::Null)
            &&& s1 == s0
        } else {
            &&& r matches Ok(Value::Str(c)) && c@ == seq![text@.last()]
            &&& only_value_changed(s0, s1, a)
            &&& s1.slots@[a as int].value matches Value::Str(t) && t@ == text@.drop_last()
        },
        _ => r matches Err(RuntimeError::BuiltinError { .. }) && s1 == s0,
    }
}

/// What `op_assert` gives.
pub open spec fn assert_outcome(s: &ValueStore, args: Seq<usize>, r: Result<Value, RuntimeError>) -> bool {
    &&& r is Ok <==> arg(s, args, 0) == Value::Bool(true)
    &&& (r matches Ok(v) ==> v is Null)
    &&& r is Err ==> (r matches Err(RuntimeError::BuiltinError { message, .. }) && message@ == "Assertion failed"@)
}

/// `assert(b)`: nothing for `true`, an assertion failure for `false`.
pub fn op_assert(args: &Vec<usize>, info: CodeArea, s: &ValueStore) -> (r: Result<Value, RuntimeError>)
    requires
        args_ok(s, args@, 1),
        arg(s, args@, 0) is Bool,
    ensures
        assert_outcome(s, args@, r),
{
    match s.get(args[0]) {
        Value::Bool(true) => Ok(Value::Null),
        _ => Err(RuntimeError::builtin("Assertion failed", info)),
    }
}

/// What `op_append` gives.
pub open spec fn append_outcome(s0: &ValueStore, s1: &ValueStore, args: Seq<usize>, r: Result<Value, RuntimeError>) -> bool {
    &&& s1.wf()
    &&& (r matches Ok(Value::Null))
    &&& exists|c: usize| appended_copy(s0, s1, args[0], args[1], c)
}

/// Appends a copy of the second argument to the array of the first.
pub fn op_append(args: &Vec<usize>, s: &mut ValueStore, group: Group) -> (r: Result<Value, RuntimeError>)
    requires
        args_ok(old(s), args@, 2),
        arg(old(s), args@, 0) is Array,
    ensures
        append_outcome(old(s), final(s), args@, r),
{
    let a = args[0];
    let v = args[1];
    let items = match s.get(a) {
        Value::Array(x) => copy_indices(x),
        _ => Vec::new(),
    };
    let vm = s.can_mutate(v);
    let varea = s.get_area(v);
    let c = s.clone_value(v, group, !vm, varea);
    let ghost mid = *s;
    let mut new_items = items;
    new_items.push(c);
    proof {
        assert forall|k: int| 0 <= k < children(Value::Array(new_items)).len() implies {
            let x = #[trigger] children(Value::Array(new_items))[k];
            &&& x < s.slots@.len()
            &&& s.ranks@[x as int] < s.ranks@[a as int]
        } by {
            if k < new_items@.len() - 1 {
                assert(children(old(s).slots@[a as int].value)[k] == new_items@[k]);
                assert(s.slots@[a as int] == old(s).slots@[a as int]);
            }
        }
    }
    s.set_value(a, Value::Array(new_items));
    proof {
        assert(only_value_changed(&mid, s, a));
        assert(appended_copy(old(s), s, a, v, c));
    }
    Ok(Value::Null)
}

/// What `op_pop` gives.
pub open spec fn pop_outcome(s0: &ValueStore, s1: &ValueStore, args: Seq<usize>, r: Result<Value, RuntimeError>) -> bool {
    &&& s1.wf()
    &&& popped(s0, s1, args[0], r)
}

/// Removes the last element of an array or the last character of a string.
pub fn op_pop(args: &Vec<usize>, info: CodeArea, s: &mut ValueStore) -> (r: Result<Value, RuntimeError>)
    requires
        args_ok(old(s), args@, 1),
    ensures
        pop_outcome(old(s), final(s), args@, r),
{
    let a = args[0];
    match s.get(a) {
        Value::Array(x) => {
            let mut items = copy_indices(x);
            match items.pop() {
                None => Ok(Value::Null),
                Some(last) => {
                    assert(children(old(s).slots@[a as int].value)[items@.len() as int] == last);
                    let out = s.get(last).copy();
                    proof {
                        assert forall|k: int| 0 <= k < children(Value::Array(items)).len() implies {
                            let y = #[trigger] children(Value::Array(items))[k];
                            &&& y < s.slots@.len()
                            &&& s.ranks@[y as int] < s.ranks@[a as int]
                        } by {
                            assert(children(old(s).slots@[a as int].value)[k] == items@[k]);
                        }
                    }
                    s.set_value(a, Value::Array(items));
                    Ok(out)
                },
            }
        },
        Value::Str(t) => {
            let mut text = t.clone();
            match pop_char(&mut text) {
                None => Ok(Value::Null),
                Some(c) => {
                    s.set_value(a, Value::Str(text));
                    Ok(Value::Str(char_string(c)))
                },
            }
        },
        _ => Err(RuntimeError::builtin("Expected array or string", info)),
    }
}

/// Pushing onto an empty array and popping again gives back the copy that
/// was pushed and leaves the array empty.
pub proof fn lemma_push_pop_round_trip(
    s0: &ValueStore,
    s1: &ValueStore,
    s2: &ValueStore,
    a: usize,
    v: usize,
    r: Result<Value, RuntimeError>,
)
    requires
        s0.wf(),
        s1.wf(),
        a < s0.slots@.len(),
        v < s0.slots@.len(),
        s0.slots@[a as int].value is Array,
        array_items(s0.slots@[a as int].value) == Seq::<usize>::empty(),
        exists|c: usize| appended_copy(s0, s1, a, v, c),
        popped(s1, s2, a, r),
    ensures
        s2.slots@[a as int].value is Array,
        array_items(s2.slots@[a as int].value) == Seq::<usize>::empty(),
        exists|c: usize|
            appended_copy(s0, s1, a, v, c) && (r matches Ok(x) && same_shallow(x, #[trigger] s1.slots@[c as int].value)),
{
    let c = choose|c: usize| appended_copy(s0, s1, a, v, c);
    assert(array_items(s1.slots@[a as int].value) =~= seq![c]);
    assert(array_items(s2.slots@[a as int].value) =~= Seq::<usize>::empty());
}

} // verus!

verus! {

/// An integer as a number value, or `None` outside the range of numbers.
pub open spec fn fits(x: int) -> bool {
    i64::MIN <= x <= i64::MAX
}

pub open spec fn number_of(v: Value) -> int {
    match v {
        Value::Number(n) => n as int,
        _ => 0,
    }
}

pub open spec fn bool_of(v: Value) -> bool {
    match v {
        Value::Bool(b) => b,
        _ => false,
    }
}

/// What `op_range` gives.
pub open spec fn range_outcome(a: Value, end: i64, r: Result<Value, RuntimeError>) -> bool {
    &&& a matches Value::Number(start) ==> (r matches Ok(Value::Range(x, y, z)) && x == start && y == end && z == 1)
    &&& a is Range && a->Range_2 != 1 ==> (r is Err && r->Err_0 is CustomError)
    &&& a is Range && a->Range_2 == 1 && (a->Range_1 <= 0 || a->Range_1 > usize::MAX) ==> (r is Err && r->Err_0 is CustomError)
    &&& a is Range && a->Range_2 == 1 && 0 < a->Range_1 <= usize::MAX ==> (r matches Ok(Value::Range(x, y, z)) && x == a->Range_0 && y == end && z as int == a->Range_1 as int)
    &&& !(a is Number || a is Range) ==> (r matches Err(RuntimeError::TypeError { found, .. }) && found == variant_tag(a))
}

/// `a..end`: a range from a number, or a step applied to a range whose step
/// is still the default, where the range's end becomes the step.
pub fn op_range(a: &Value, end: i64, found_area: CodeArea, info: CodeArea) -> (r: Result<Value, RuntimeError>)
    ensures
        range_outcome(*a, end, r),
{
    match a {
        Value::Number(start) => Ok(Value::Range(*start, end, 1)),
        Value::Range(start, step, old_step) => {
            if *old_step != 1 {
                return Err(RuntimeError::custom(
                    "Range operator cannot be used on a range that already has a non-default stepsize",
                    info,
                ));
            }
            if *step <= 0 {
                return Err(RuntimeError::custom("range cannot have a stepsize less than or 0", info));
            }
            if *step as u64 > usize::MAX as u64 {
                return Err(RuntimeError::custom("range stepsize too large", info));
            }
            Ok(Value::Range(*start, end, *step as usize))
        },
        _ => Err(RuntimeError::type_error("number", a.variant_tag(), found_area, info)),
    }
}

/// `..end`: the range from zero.
pub fn op_unary_range(end: i64) -> (r: Value)
    ensures
        (r matches Value::Range(x, y, z) && x == 0 && y == end && z == 1),
{
    Value::Range(0, end, 1)
}

/// What `op_step` gives.
pub open spec fn step_outcome(s0: &ValueStore, s1: &ValueStore, args: Seq<usize>, delta: i64, give_new: bool, r: Result<Value, RuntimeError>) -> bool {
    &&& s1.wf()
    &&& fits(number_of(arg(s0, args, 0)) + delta) ==> {
                &&& only_value_changed(s0, s1, args[0])
                &&& arg(s1, args, 0) == Value::Number((number_of(arg(s0, args, 0)) + delta) as i64)
                &&& r matches Ok(Value::Number(n)) && n == (if give_new {
                    number_of(arg(s0, args, 0)) + delta
                } else {
                    number_of(arg(s0, args, 0))
                })
            }
    &&& !fits(number_of(arg(s0, args, 0)) + delta) ==> (r matches Err(RuntimeError::CustomError { .. }) && *s1 == *s0)
}

/// Adds `delta` to the number at `args[0]`; gives the new number when
/// `give_new`, else the old one.
pub fn op_step(args: &Vec<usize>, delta: i64, give_new: bool, info: CodeArea, s: &mut ValueStore) -> (r: Result<Value, RuntimeError>)
    requires
        args_ok(old(s), args@, 1),
        arg(old(s), args@, 0) is Number,
        delta == 1 || delta == -1,
    ensures
        step_outcome(old(s), final(s), args@, delta, give_new, r),
{
    let a = args[0];
    let n = match s.get(a) {
        Value::Number(n) => *n,
        _ => 0,
    };
    if (delta > 0 && n == i64::MAX) || (delta < 0 && n == i64::MIN) {
        return Err(RuntimeError::custom("number out of range", info));
    }
    let m = n + delta;
    s.set_value(a, Value::Number(m));
    if give_new {
        Ok(Value::Number(m))
    } else {
        Ok(Value::Number(n))
    }
}

/// What `op_negate` gives.
pub open spec fn negate_outcome(a: i64, r: Result<Value, RuntimeError>) -> bool {
    &&& fits(-a) ==> (r matches Ok(Value::Number(n)) && n == -a)
    &&& !fits(-a) ==> (r matches Err(RuntimeError::CustomError { .. }))
}

/// `-a`.
pub fn op_negate(a: i64, info: CodeArea) -> (r: Result<Value, RuntimeError>)
    ensures
        negate_outcome(a, r),
{
    if a == i64::MIN {
        return Err(RuntimeError::custom("number out of range", info));
    }
    Ok(Value::Number(-a))
}

/// What `op_minus` gives.
pub open spec fn minus_outcome(a: i64, b: i64, r: Result<Value, RuntimeError>) -> bool {
    &&& fits(a - b) ==> (r matches Ok(Value::Number(n)) && n == a - b)
    &&& !fits(a - b) ==> (r matches Err(RuntimeError::CustomError { .. }))
}

/// `a - b`.
pub fn op_minus(a: i64, b: i64, info: CodeArea) -> (r: Result<Value, RuntimeError>)
    ensures
        minus_outcome(a, b, r),
{
    if (b < 0 && a > i64::MAX + b) || (b > 0 && a < i64::MIN + b) {
        return Err(RuntimeError::custom("number out of range", info));
    }
    Ok(Value::Number(a - b))
}

/// The smaller of two numbers.
pub fn op_min(a: i64, b: i64) -> (r: Value)
    ensures
        (r matches Value::Number(n) && n == (if a <= b { a } else { b })),
{
    Value::Number(if a <= b { a } else { b })
}

/// The larger of two numbers.
pub fn op_max(a: i64, b: i64) -> (r: Value)
    ensures
        (r matches Value::Number(n) && n == (if a >= b { a } else { b })),
{
    Value::Number(if a >= b { a } else { b })
}

/// What `op_abs` gives.
pub open spec fn abs_outcome(a: i64, r: Result<Value, RuntimeError>) -> bool {
    &&& a != i64::MIN ==> (r matches Ok(Value::Number(n)) && n == (if a < 0 { -a } else { a as int }))
    &&& a == i64::MIN ==> (r matches Err(RuntimeError::CustomError { .. }))
}

/// The absolute value of a number.
pub fn op_abs(a: i64, info: CodeArea) -> (r: Result<Value, RuntimeError>)
    ensures
        abs_outcome(a, r),
{
    if a == i64::MIN {
        return Err(RuntimeError::custom("number out of range", info));
    }
    Ok(Value::Number(if a < 0 { -a } else { a }))
}

/// Comparisons of two numbers.
#[derive(Debug, Copy, Clone, PartialEq, Eq, Structural)]
pub enum Comparison {
    MoreThan,
    LessThan,
    MoreOrEqual,
    LessOrEqual,
}

pub open spec fn compares(c: Comparison, a: i64, b: i64) -> bool {
    match c {
        Comparison::MoreThan => a > b,
        Comparison::LessThan => a < b,
        Comparison::MoreOrEqual => a >= b,
        Comparison::LessOrEqual => a <= b,
    }
}

pub fn op_compare(c: Comparison, a: i64, b: i64) -> (r: Value)
    ensures
        r == Value::Bool(compares(c, a, b)),
{
    Value::Bool(
        match c {
            Comparison::MoreThan => a > b,
            Comparison::LessThan => a < b,
            Comparison::MoreOrEqual => a >= b,
            Comparison::LessOrEqual => a <= b,
        },
    )
}

/// What `op_assign` gives.
pub open spec fn assign_outcome(s0: &ValueStore, s1: &ValueStore, args: Seq<usize>, info: CodeArea, r: Result<Value, RuntimeError>) -> bool {
    &&& s1.wf()
    &&& (r matches Ok(Value::Null))
    &&& s1.slots@.len() >= s0.slots@.len()
    &&& s1.slots@[args[0] as int].def_area == info
    &&& s1.slots@[args[0] as int].mutable == s0.slots@[args[0] as int].mutable
    &&& exists|mid: ValueStore, c: usize| mid.extends(s0) && mid.wf()
                && s0.slots@.len() <= c < mid.slots@.len() && #[trigger] mid.deep_eq(c, args[1])
                && s1.slots@.len() == mid.slots@.len()
                && same_shallow(s1.slots@[args[0] as int].value, mid.slots@[c as int].value)
    &&& forall|i: int| 0 <= i < s0.slots@.len() && i != args[0] ==> #[trigger] s1.slots@[i] == s0.slots@[i]
}

/// Replaces the value at `args[0]` by a copy of the value at `args[1]`,
/// defined at `info`.
pub fn op_assign(args: &Vec<usize>, info: CodeArea, s: &mut ValueStore, group: Group) -> (r: Result<Value, RuntimeError>)
    requires
        args_ok(old(s), args@, 2),
    ensures
        assign_outcome(old(s), final(s), args@, info, r),
{
    let a = args[0];
    let v = s.clone_and_get_value(args[1], group, false);
    let ghost mid = *s;
    let ghost c = choose|c: usize| old(s).slots@.len() <= c < mid.slots@.len()
        && same_shallow(v, #[trigger] mid.slots@[c as int].value) && mid.deep_eq(c, args@[1])
        && mid.ranks@[c as int] < old(s).floor@;
    proof {
        assert(s.slots@[a as int] == old(s).slots@[a as int]);
    }
    s.set_value(a, v);
    s.set_area(a, info);
    assert(s.slots@[c as int] == mid.slots@[c as int]);
    assert(mid.extends(old(s)) && mid.deep_eq(c, args@[1]) && same_shallow(s.slots@[a as int].value, mid.slots@[c as int].value));
    Ok(Value::Null)
}

/// What `op_swap` gives.
pub open spec fn swap_outcome(s0: &ValueStore, s1: &ValueStore, args: Seq<usize>, info: CodeArea, r: Result<Value, RuntimeError>) -> bool {
    &&& s1.wf()
    &&& (r matches Ok(Value::Null))
    &&& s1.slots@.len() >= s0.slots@.len()
    &&& s1.slots@[args[0] as int].def_area == info
    &&& s1.slots@[args[1] as int].def_area == info
    &&& variant_tag(s1.slots@[args[0] as int].value) == variant_tag(s0.slots@[args[1] as int].value)
    &&& variant_tag(s1.slots@[args[1] as int].value) == variant_tag(s0.slots@[args[0] as int].value)
    &&& args[0] != args[1] ==> exists|mid: ValueStore, ca: usize, cb: usize| mid.extends(s0) && mid.wf()
                && #[trigger] mid.deep_eq(ca, args[0]) && #[trigger] mid.deep_eq(cb, args[1])
                && same_shallow(s1.slots@[args[0] as int].value, mid.slots@[cb as int].value)
                && same_shallow(s1.slots@[args[1] as int].value, mid.slots@[ca as int].value)
    &&& forall|i: int| 0 <= i < s0.slots@.len() && i != args[0] && i != args[1] ==> #[trigger] s1.slots@[i] == s0.slots@[i]
}

/// Exchanges the values at `args[0]` and `args[1]`, each as a fresh copy,
/// both now defined at `info`.
pub fn op_swap(args: &Vec<usize>, info: CodeArea, s: &mut ValueStore, group: Group) -> (r: Result<Value, RuntimeError>)
    requires
        args_ok(old(s), args@, 2),
    ensures
        swap_outcome(old(s), final(s), args@, info, r),
{
    let a = args[0];
    let b = args[1];
    let va = s.clone_and_get_value(a, group, false);
    let ghost mid1 = *s;
    let ghost ca = choose|c: usize| old(s).slots@.len() <= c < mid1.slots@.len()
        && same_shallow(va, #[trigger] mid1.slots@[c as int].value) && mid1.deep_eq(c, args@[0])
        && mid1.ranks@[c as int] < old(s).floor@;
    let vb = s.clone_and_get_value(b, group, false);
    let ghost mid = *s;
    let ghost cb = choose|c: usize| mid1.slots@.len() <= c < mid.slots@.len()
        && same_shallow(vb, #[trigger] mid.slots@[c as int].value) && mid.deep_eq(c, args@[1])
        && mid.ranks@[c as int] < mid1.floor@;
    proof {
        crate::store::lemma_deep_eq_extends(&mid1, &mid, ca, args@[0]);
        assert forall|q: int| 0 <= q < old(s).slots@.len() implies #[trigger] mid.slots@[q] == old(s).slots@[q] by {
            assert(mid1.slots@[q] == old(s).slots@[q]);
        }
        assert forall|q: int| 0 <= q < old(s).slots@.len() implies #[trigger] mid.ranks@[q] == old(s).ranks@[q] by {
            assert(mid1.ranks@[q] == old(s).ranks@[q]);
        }
        assert(mid.slots@[ca as int] == mid1.slots@[ca as int]);
    }
    if a == b {
        s.set_value(a, va);
    } else {
        s.set_value(a, vb);
        s.set_value(b, va);
    }
    s.set_area(a, info);
    s.set_area(b, info);
    proof {
        if a != b {
            let cau = ca;
            let cbu = cb;
            assert(mid.extends(old(s)));
            assert(same_shallow(s.slots@[a as int].value, mid.slots@[cbu as int].value));
            assert(same_shallow(s.slots@[b as int].value, mid.slots@[cau as int].value));
            assert(mid.deep_eq(cau, args@[0]) && mid.deep_eq(cbu, args@[1]));
        }
    }
    Ok(Value::Null)
}

} // verus!

verus! {

/// The text of a string value, and none of another value.
pub open spec fn text_of(v: Value) -> Seq<char> {
    match v {
        Value::Str(t) => t@,
        _ => Seq::empty(),
    }
}

/// What `op_plus` gives.
pub open spec fn plus_outcome(s0: &ValueStore, s1: &ValueStore, args: Seq<usize>, r: Result<Value, RuntimeError>) -> bool {
    &&& s1.wf()
    &&& s1.extends(s0)
    &&& ({
                let a = arg(s0, args, 0);
                let b = arg(s0, args, 1);
                &&& a is Number && b is Number && fits(number_of(a) + number_of(b)) ==> (r matches Ok(Value::Number(n)) && n == number_of(a) + number_of(b))
                &&& a is Number && b is Number && !fits(number_of(a) + number_of(b)) ==> (r is Err && r->Err_0 is CustomError)
                &&& a is Str && b is Str ==> (r matches Ok(Value::Str(t)) && t@ == text_of(a) + text_of(b))
                &&& a is Array && b is Array ==> (r matches Ok(Value::Array(v)) && {
                    let both = array_items(a) + array_items(b);
                    &&& v@.len() == both.len()
                    &&& forall|k: int| #![trigger v@[k]] 0 <= k < v@.len() ==> s0.slots@.len() <= v@[k] && s1.deep_eq(v@[k], both[k])
                })
                &&& !(a is Number && b is Number) && !(a is Str && b is Str) && !(a is Array && b is Array) ==> (r is Err && r->Err_0 is CustomError)
            })
}

/// `a + b`: the sum of numbers, the concatenation of strings, or a new
/// array of fresh copies of both arrays' elements.
pub fn op_plus(args: &Vec<usize>, info: CodeArea, s: &mut ValueStore, group: Group) -> (r: Result<Value, RuntimeError>)
    requires
        args_ok(old(s), args@, 2),
    ensures
        plus_outcome(old(s), final(s), args@, r),
{
    let ghost s0 = *s;
    match (s.get(args[0]), s.get(args[1])) {
        (Value::Number(x), Value::Number(y)) => {
            let x = *x;
            let y = *y;
            if (y > 0 && x > i64::MAX - y) || (y < 0 && x < i64::MIN - y) {
                return Err(RuntimeError::custom("number out of range", info));
            }
            Ok(Value::Number(x + y))
        },
        (Value::Str(x), Value::Str(y)) => {
            let mut t = x.clone();
            crate::text::push_str(&mut t, y.as_str());
            Ok(Value::Str(t))
        },
        (Value::Array(x), Value::Array(y)) => {
            let mut both = copy_indices(x);
            let ys = copy_indices(y);
            let mut i: usize = 0;
            while i < ys.len()
                invariant
                    i <= ys@.len(),
                    both@ == array_items(arg(old(s), args@, 0)) + ys@.subrange(0, i as int),
                decreases ys.len() - i,
            {
                both.push(ys[i]);
                i = i + 1;
                assert(both@ =~= array_items(arg(old(s), args@, 0)) + ys@.subrange(0, i as int));
            }
            assert(ys@.subrange(0, ys@.len() as int) =~= ys@);
            proof {
                let a = arg(old(s), args@, 0);
                let b = arg(old(s), args@, 1);
                assert forall|k: int| 0 <= k < both@.len() implies #[trigger] both@[k] < old(s).slots@.len() by {
                    if k < array_items(a).len() {
                        assert(children(a)[k] == both@[k]);
                    } else {
                        assert(children(b)[k - array_items(a).len()] == both@[k]);
                    }
                }
            }
            let v = s.clone_all(&both, group, info);
            Ok(Value::Array(v))
        },
        _ => Err(RuntimeError::custom("Type mismatch", info)),
    }
}

/// What `op_add_assign` gives.
pub open spec fn add_assign_outcome(s0: &ValueStore, s1: &ValueStore, args: Seq<usize>, r: Result<Value, RuntimeError>) -> bool {
    &&& s1.wf()
    &&& s1.slots@.len() >= s0.slots@.len()
    &&& s1.slots@[args[0] as int].mutable == s0.slots@[args[0] as int].mutable
    &&& forall|i: int| 0 <= i < s0.slots@.len() && i != args[0] ==> #[trigger] s1.slots@[i] == s0.slots@[i]
    &&& ({
                let a = arg(s0, args, 0);
                let b = arg(s0, args, 1);
                let na = arg(s1, args, 0);
                &&& a is Number && b is Number && fits(number_of(a) + number_of(b)) ==> (r matches Ok(Value::Null) && na == Value::Number((number_of(a) + number_of(b)) as i64))
                &&& a is Number && b is Number && !fits(number_of(a) + number_of(b)) ==> (r is Err && r->Err_0 is CustomError)
                &&& a is Str && b is Str ==> (r matches Ok(Value::Null) && na is Str && text_of(na) == text_of(a) + text_of(b))
                &&& a is Array && b is Array ==> (r matches Ok(Value::Null) && na is Array && {
                    let added = array_items(na).subrange(array_items(a).len() as int, array_items(na).len() as int);
                    &&& array_items(na).len() == array_items(a).len() + array_items(b).len()
                    &&& array_items(na).subrange(0, array_items(a).len() as int) == array_items(a)
                    &&& forall|k: int| #![trigger added[k]] 0 <= k < added.len() ==> s0.slots@.len() <= added[k]
                    &&& exists|mid: ValueStore| #[trigger] mid.extends(s0) && mid.wf() && only_value_changed(&mid, s1, args[0])
                        && forall|k: int| 0 <= k < added.len() ==> mid.deep_eq(added[k], #[trigger] array_items(b)[k])
                })
                &&& !(a is Number && b is Number) && !(a is Str && b is Str) && !(a is Array && b is Array) ==> (r is Err && r->Err_0 is CustomError)
            })
}

/// `a += b`: adds to a number, appends to a string, or appends fresh copies
/// of an array's elements to an array.
pub fn op_add_assign(args: &Vec<usize>, info: CodeArea, s: &mut ValueStore, group: Group) -> (r: Result<Value, RuntimeError>)
    requires
        args_ok(old(s), args@, 2),
    ensures
        add_assign_outcome(old(s), final(s), args@, r),
{
    let a = args[0];
    let b = args[1];
    match (s.get(a), s.get(b)) {
        (Value::Number(x), Value::Number(y)) => {
            let x = *x;
            let y = *y;
            if (y > 0 && x > i64::MAX - y) || (y < 0 && x < i64::MIN - y) {
                return Err(RuntimeError::custom("number out of range", info));
            }
            s.set_value(a, Value::Number(x + y));
            Ok(Value::Null)
        },
        (Value::Str(x), Value::Str(y)) => {
            let mut t = x.clone();
            crate::text::push_str(&mut t, y.as_str());
            s.set_value(a, Value::Str(t));
            Ok(Value::Null)
        },
        (Value::Array(x), Value::Array(y)) => {
            let mut items = copy_indices(x);
            let ys = copy_indices(y);
            proof {
                assert forall|k: int| 0 <= k < ys@.len() implies #[trigger] ys@[k] < old(s).slots@.len() by {
                    assert(children(arg(old(s), args@, 1))[k] == ys@[k]);
                }
            }
            let fresh = s.clone_all(&ys, group, info);
            let ghost n0 = items@.len();
            let mut i: usize = 0;
            while i < fresh.len()
                invariant
                    i <= fresh@.len(),
                    n0 == array_items(arg(old(s), args@, 0)).len(),
                    items@ == array_items(arg(old(s), args@, 0)) + fresh@.subrange(0, i as int),
                decreases fresh.len() - i,
            {
                items.push(fresh[i]);
                i = i + 1;
                assert(items@ =~= array_items(arg(old(s), args@, 0)) + fresh@.subrange(0, i as int));
            }
            assert(fresh@.subrange(0, fresh@.len() as int) =~= fresh@);
            proof {
                assert(s.slots@[a as int] == old(s).slots@[a as int]);
                assert forall|k: int| 0 <= k < children(Value::Array(items)).len() implies {
                    let c = #[trigger] children(Value::Array(items))[k];
                    &&& c < s.slots@.len()
                    &&& s.ranks@[c as int] < s.ranks@[a as int]
                } by {
                    if k < n0 {
                        assert(children(old(s).slots@[a as int].value)[k] == items@[k]);
                    } else {
                        assert(fresh@[k - n0] == items@[k]);
                    }
                }
                assert(items@.subrange(0, n0 as int) =~= array_items(arg(old(s), args@, 0)));
                assert(items@.subrange(n0 as int, items@.len() as int) =~= fresh@);
            }
            let ghost mid = *s;
            s.set_value(a, Value::Array(items));
            proof {
                assert(only_value_changed(&mid, s, a));
                assert(array_items(arg(old(s), args@, 1)) == ys@);
                assert forall|k: int| 0 <= k < fresh@.len() implies mid.deep_eq(fresh@[k], #[trigger] ys@[k]) by {
                    assert(mid.deep_eq(fresh@[k], ys@[k]));
                }
            }
            Ok(Value::Null)
        },
        _ => Err(RuntimeError::custom("Type mismatch", info)),
    }
}

/// What `op_subtract_assign` gives.
pub open spec fn subtract_assign_outcome(s0: &ValueStore, s1: &ValueStore, args: Seq<usize>, r: Result<Value, RuntimeError>) -> bool {
    &&& s1.wf()
    &&& ({
                let d = number_of(arg(s0, args, 0)) - number_of(arg(s0, args, 1));
                &&& fits(d) ==> (r matches Ok(Value::Null) && only_value_changed(s0, s1, args[0]) && arg(s1, args, 0) == Value::Number(d as i64))
                &&& !fits(d) ==> (r is Err && r->Err_0 is CustomError && *s1 == *s0)
            })
}

/// `a -= b` on numbers.
pub fn op_subtract_assign(args: &Vec<usize>, info: CodeArea, s: &mut ValueStore) -> (r: Result<Value, RuntimeError>)
    requires
        args_ok(old(s), args@, 2),
        arg(old(s), args@, 0) is Number,
        arg(old(s), args@, 1) is Number,
    ensures
        subtract_assign_outcome(old(s), final(s), args@, r),
{
    let a = args[0];
    let x = match s.get(a) {
        Value::Number(n) => *n,
        _ => 0,
    };
    let y = match s.get(args[1]) {
        Value::Number(n) => *n,
        _ => 0,
    };
    if (y < 0 && x > i64::MAX + y) || (y > 0 && x < i64::MIN + y) {
        return Err(RuntimeError::custom("number out of range", info));
    }
    s.set_value(a, Value::Number(x - y));
    Ok(Value::Null)
}

} // verus!

verus! {

/// No parameters come from no pairs.
pub open spec fn orig_pairs_empty(pairs: Seq<(u16, crate::value::ObjParam)>) -> bool {
    built_from_pairs(Seq::empty(), pairs.subrange(0, 0))
}

/// What `op_add_object` gives.
pub open spec fn add_object_outcome(g0: &Globals, g1: &Globals, args: Seq<usize>, c: crate::context::ContextView, r: Result<Value, RuntimeError>) -> bool {
    &&& ({
                let s = &g0.stored_values;
                let n = args.len();
                &&& (n == 0 || n > 2) ==> (r is Err && r->Err_0 is BuiltinError && *g1 == *g0)
                &&& (n == 1 || n == 2) && !(arg(s, args, 0) is Obj) ==> (r is Err && r->Err_0 is TypeError && *g1 == *g0)
                &&& n == 2 && arg(s, args, 0) is Obj && !(arg(s, args, 1) is Bool) ==> (r is Err && r->Err_0 is TypeError && *g1 == *g0)
                &&& (n == 1 || (n == 2 && arg(s, args, 1) is Bool)) && arg(s, args, 0) is Obj ==> {
                    let mode = arg(s, args, 0)->Obj_1;
                    let ignore = n == 2 && bool_of(arg(s, args, 1));
                    &&& exists|ps: Seq<(u16, crate::value::ObjParam)>| emission(g0, g1, c, mode, ignore, ps, r is Ok)
                        && #[trigger] built_from_pairs(ps, arg(s, args, 0)->Obj_0@)
                    &&& r is Ok ==> (r matches Ok(Value::Null))
                    &&& r is Err ==> (r->Err_0 is BuiltinError || r->Err_0 is CustomError)
                }
            })
}

/// `add(obj)` or `add(obj, ignore_context)`: emits an object or trigger value
/// from the branch `context`.
pub fn op_add_object(args: &Vec<usize>, info: CodeArea, g: &mut Globals, context: &Context) -> (r: Result<Value, RuntimeError>)
    requires
        old(g).stored_values.wf(),
        forall|i: int| 0 <= i < args@.len() ==> #[trigger] args@[i] < old(g).stored_values.slots@.len(),
        context.func_id < old(g).func_ids@.len(),
    ensures
        add_object_outcome(old(g), final(g), args@, context@, r),
{
    if args.len() == 0 || args.len() > 2 {
        return Err(RuntimeError::builtin("Expected 1 argument", info));
    }
    let (pairs, mode) = match g.stored_values.get(args[0]) {
        Value::Obj(pairs, mode) => (crate::value::copy_params(pairs), *mode),
        other => {
            return Err(RuntimeError::type_error(
                "@object or @trigger",
                other.variant_tag(),
                g.stored_values.get_area(args[0]),
                info,
            ))
        },
    };
    let mut ignore_context = false;
    if args.len() == 2 {
        match g.stored_values.get(args[1]) {
            Value::Bool(b) => {
                ignore_context = *b;
            },
            other => {
                return Err(RuntimeError::type_error(
                    "boolean",
                    other.variant_tag(),
                    g.stored_values.get_area(args[1]),
                    info,
                ))
            },
        }
    }
    let mut params: Vec<(u16, crate::value::ObjParam)> = Vec::new();
    let mut i: usize = 0;
    assert(orig_pairs_empty(arg(&old(g).stored_values, args@, 0)->Obj_0@));
    let mut pairs = pairs;
    // later pairs overwrite earlier ones with the same key
    let ghost orig = arg(&old(g).stored_values, args@, 0)->Obj_0@;
    while i < pairs.len()
        invariant
            i <= pairs@.len(),
            same_params(pairs@, orig),
            built_from_pairs(params@, orig.subrange(0, i as int)),
            *g == *old(g),
            arg(&old(g).stored_values, args@, 0) is Obj,
            mode == arg(&old(g).stored_values, args@, 0)->Obj_1,
            ignore_context == (args@.len() == 2 && bool_of(arg(&old(g).stored_values, args@, 1))),
        decreases pairs.len() - i,
    {
        let key = pairs[i].0;
        let p = crate::value::copy_param(&pairs[i].1);
        let ghost pre = params@;
        insert_param(&mut params, key, p);
        proof {
            assert(pairs@[i as int].0 == orig[i as int].0 && same_param(pairs@[i as int].1, orig[i as int].1));
            let next = orig.subrange(0, i + 1);
            assert(next.drop_last() =~= orig.subrange(0, i as int));
            assert(next.last() == orig[i as int]);
            assert forall|k: u16| {
                &&& (#[trigger] param_lookup(params@, k)) is Some == last_with_key(next, k) is Some
                &&& param_lookup(params@, k) is Some ==> same_param(param_lookup(params@, k)->Some_0, last_with_key(next, k)->Some_0)
            } by {
                if k != key {
                    assert(param_lookup(pre, k) == param_lookup(params@, k));
                    assert(last_with_key(next, k) == last_with_key(orig.subrange(0, i as int), k));
                }
            }
        }
        i = i + 1;
    }
    assert(orig.subrange(0, pairs@.len() as int) =~= orig);
    let ghost emitted = params@;
    match g.emit(context, params, mode, ignore_context, info) {
        Ok(()) => {
            assert(emission(old(g), g, context@, mode, ignore_context, emitted, true));
            assert(built_from_pairs(emitted, orig));
            Ok(Value::Null)
        },
        Err(e) => {
            assert(emission(old(g), g, context@, mode, ignore_context, emitted, false));
            assert(built_from_pairs(emitted, orig));
            Err(e)
        },
    }
}

/// `b64encode(s)`.
pub fn op_b64encode(text: &String) -> (r: Value)
    ensures
        r matches Value::Str(t) && t@ == crate::text::base64_encoded(text@),
{
    Value::Str(crate::text::b64_encode(text.as_str()))
}

/// What `op_b64decode` gives.
pub open spec fn b64decode_outcome(text: String, r: Result<Value, RuntimeError>) -> bool {
    &&& crate::text::base64_decoded(text@) matches Some(bytes) ==> (r matches Ok(Value::Str(t)) && t@ == crate::text::utf8_lossy(bytes))
    &&& crate::text::base64_decoded(text@) is None ==> (r is Err && r->Err_0 is BuiltinError)
}

/// `b64decode(s)`: the decoded bytes read as UTF-8, invalid sequences
/// replaced; text that is not base64 is refused.
pub fn op_b64decode(text: &String, info: CodeArea) -> (r: Result<Value, RuntimeError>)
    ensures
        b64decode_outcome(*text, r),
{
    match crate::text::b64_decode(text.as_str()) {
        Some(bytes) => Ok(Value::Str(crate::text::from_utf8_lossy(bytes.as_slice()))),
        None => Err(RuntimeError::builtin("Base 64 error", info)),
    }
}

} // verus!

verus! {

/// `t` repeated `n` times.
pub open spec fn repeat_text(t: Seq<char>, n: nat) -> Seq<char>
    decreases n,
{
    if n == 0 {
        Seq::empty()
    } else {
        repeat_text(t, (n - 1) as nat) + t
    }
}

/// The indices `a` repeated `n` times.
pub open spec fn repeat_items(a: Seq<usize>, n: nat) -> Seq<usize>
    decreases n,
{
    if n == 0 {
        Seq::empty()
    } else {
        repeat_items(a, (n - 1) as nat) + a
    }
}

fn repeat_string(t: &String, n: i64) -> (r: String)
    requires
        n >= 0,
    ensures
        r@ == repeat_text(t@, n as nat),
{
    let mut out = String::new();
    let mut i: i64 = 0;
    while i < n
        invariant
            0 <= i <= n,
            out@ == repeat_text(t@, i as nat),
        decreases n - i,
    {
        crate::text::push_str(&mut out, t.as_str());
        i = i + 1;
    }
    out
}

fn repeat_indices(a: &Vec<usize>, n: i64) -> (r: Vec<usize>)
    requires
        n >= 0,
    ensures
        r@ == repeat_items(a@, n as nat),
{
    let mut out: Vec<usize> = Vec::new();
    let mut i: i64 = 0;
    while i < n
        invariant
            0 <= i <= n,
            out@ == repeat_items(a@, i as nat),
        decreases n - i,
    {
        let mut k: usize = 0;
        let ghost start = out@;
        while k < a.len()
            invariant
                k <= a@.len(),
                out@ == start + a@.subrange(0, k as int),
            decreases a.len() - k,
        {
            out.push(a[k]);
            k = k + 1;
            assert(out@ =~= start + a@.subrange(0, k as int));
        }
        assert(a@.subrange(0, a@.len() as int) =~= a@);
        i = i + 1;
    }
    out
}

proof fn lemma_repeat_items_in(a: Seq<usize>, n: nat, bound: nat)
    requires
        forall|k: int| 0 <= k < a.len() ==> #[trigger] a[k] < bound,
    ensures
        forall|k: int| 0 <= k < repeat_items(a, n).len() ==> #[trigger] repeat_items(a, n)[k] < bound,
    decreases n,
{
    if n > 0 {
        lemma_repeat_items_in(a, (n - 1) as nat, bound);
        let p = repeat_items(a, (n - 1) as nat);
        assert forall|k: int| 0 <= k < repeat_items(a, n).len() implies #[trigger] repeat_items(a, n)[k] < bound by {
            if k < p.len() {
                assert(repeat_items(a, n)[k] == p[k]);
            } else {
                assert(repeat_items(a, n)[k] == a[k - p.len()]);
            }
        }
    }
}

/// What `op_times` gives.
pub open spec fn times_outcome(s0: &ValueStore, s1: &ValueStore, args: Seq<usize>, r: Result<Value, RuntimeError>) -> bool {
    &&& s1.wf()
    &&& s1.extends(s0)
    &&& ({
                let a = arg(s0, args, 0);
                let n = number_of(arg(s0, args, 1));
                &&& a is Number && fits(number_of(a) * n) ==> (r matches Ok(Value::Number(m)) && m == number_of(a) * n)
                &&& a is Number && !fits(number_of(a) * n) ==> (r is Err && r->Err_0 is CustomError)
                &&& a is Str && n >= 0 ==> (r matches Ok(Value::Str(t)) && t@ == repeat_text(text_of(a), n as nat))
                &&& a is Str && n < 0 ==> (r is Err && r->Err_0 is CustomError)
                &&& a is Array ==> (r matches Ok(Value::Array(v)) && {
                    let rep = repeat_items(array_items(a), if n < 0 { 0 } else { n as nat });
                    &&& v@.len() == rep.len()
                    &&& forall|k: int| #![trigger v@[k]] 0 <= k < v@.len() ==> s1.deep_eq(v@[k], rep[k])
                })
                &&& !(a is Number || a is Str || a is Array) ==> (r is Err && r->Err_0 is CustomError)
            })
}

/// `a * n`: the product of numbers, a string repeated, or an array of
/// fresh copies of the elements repeated.
pub fn op_times(args: &Vec<usize>, info: CodeArea, s: &mut ValueStore, group: Group) -> (r: Result<Value, RuntimeError>)
    requires
        args_ok(old(s), args@, 2),
        arg(old(s), args@, 1) is Number,
    ensures
        times_outcome(old(s), final(s), args@, r),
{
    let n = match s.get(args[1]) {
        Value::Number(n) => *n,
        _ => 0,
    };
    match s.get(args[0]) {
        Value::Number(x) => match x.checked_mul(n) {
            Some(m) => Ok(Value::Number(m)),
            None => Err(RuntimeError::custom("number out of range", info)),
        },
        Value::Str(t) => {
            if n < 0 {
                return Err(RuntimeError::custom("cannot repeat a string a negative number of times", info));
            }
            Ok(Value::Str(repeat_string(t, n)))
        },
        Value::Array(a) => {
            let times = if n < 0 { 0 } else { n };
            let rep = repeat_indices(a, times);
            proof {
                assert forall|k: int| 0 <= k < a@.len() implies #[trigger] a@[k] < s.slots@.len() by {
                    assert(children(arg(old(s), args@, 0))[k] == a@[k]);
                }
                lemma_repeat_items_in(a@, times as nat, s.slots@.len());
            }
            let v = s.clone_all(&rep, group, info);
            Ok(Value::Array(v))
        },
        _ => Err(RuntimeError::custom("Type mismatch", info)),
    }
}

/// What `op_multiply_assign` gives.
pub open spec fn multiply_assign_outcome(s0: &ValueStore, s1: &ValueStore, args: Seq<usize>, r: Result<Value, RuntimeError>) -> bool {
    &&& s1.wf()
    &&& r is Err ==> *s1 == *s0
    &&& r is Ok ==> only_value_changed(s0, s1, args[0]) && r == Ok::<Value, RuntimeError>(Value::Null)
    &&& ({
                let a = arg(s0, args, 0);
                let n = number_of(arg(s0, args, 1));
                let na = arg(s1, args, 0);
                &&& a is Number && fits(number_of(a) * n) ==> (r is Ok && na == Value::Number((number_of(a) * n) as i64))
                &&& a is Number && !fits(number_of(a) * n) ==> (r is Err && r->Err_0 is CustomError)
                &&& a is Str && n >= 0 ==> (r is Ok && na is Str && text_of(na) == repeat_text(text_of(a), n as nat))
                &&& a is Str && n < 0 ==> (r is Err && r->Err_0 is CustomError)
                &&& !(a is Number || a is Str) ==> (r is Err && r->Err_0 is CustomError)
            })
}

/// `a *= n` on a number or a string.
pub fn op_multiply_assign(args: &Vec<usize>, info: CodeArea, s: &mut ValueStore) -> (r: Result<Value, RuntimeError>)
    requires
        args_ok(old(s), args@, 2),
        arg(old(s), args@, 1) is Number,
    ensures
        multiply_assign_outcome(old(s), final(s), args@, r),
{
    let a = args[0];
    let n = match s.get(args[1]) {
        Value::Number(n) => *n,
        _ => 0,
    };
    match s.get(a) {
        Value::Number(x) => match x.checked_mul(n) {
            Some(m) => {
                s.set_value(a, Value::Number(m));
                Ok(Value::Null)
            },
            None => Err(RuntimeError::custom("number out of range", info)),
        },
        Value::Str(t) => {
            if n < 0 {
                return Err(RuntimeError::custom("cannot repeat a string a negative number of times", info));
            }
            let out = repeat_string(t, n);
            s.set_value(a, Value::Str(out));
            Ok(Value::Null)
        },
        _ => Err(RuntimeError::custom("Type mismatch", info)),
    }
}

/// `s` without the character at `i`.
fn remove_char(t: &String, i: usize) -> (r: String)
    requires
        i < t@.len(),
    ensures
        r@ == t@.remove(i as int),
{
    let n = t.as_str().unicode_len();
    let mut out = String::new();
    let mut k: usize = 0;
    while k < n
        invariant
            n == t@.len(),
            i < n,
            k <= n,
            out@ == (if k <= i { t@.subrange(0, k as int) } else { t@.subrange(0, i as int) + t@.subrange(i + 1, k as int) }),
        decreases n - k,
    {
        if k != i {
            crate::ids::push_char(&mut out, t.as_str().get_char(k));
        }
        k = k + 1;
        assert(out@ =~= (if k <= i { t@.subrange(0, k as int) } else { t@.subrange(0, i as int) + t@.subrange(i + 1, k as int) }));
    }
    assert(out@ =~= t@.remove(i as int));
    out
}

/// What `op_remove_index` gives.
pub open spec fn remove_index_outcome(s0: &ValueStore, s1: &ValueStore, args: Seq<usize>, r: Result<Value, RuntimeError>) -> bool {
    &&& s1.wf()
    &&& r is Err ==> *s1 == *s0
    &&& r is Ok ==> only_value_changed(s0, s1, args[0])
    &&& ({
                let a = arg(s0, args, 0);
                let i = number_of(arg(s0, args, 1));
                let na = arg(s1, args, 0);
                &&& a is Array && 0 <= i < array_items(a).len() ==> (r matches Ok(v)
                    && same_shallow(v, s0.slots@[array_items(a)[i] as int].value)
                    && na is Array && array_items(na) == array_items(a).remove(i))
                &&& a is Str && 0 <= i < text_of(a).len() ==> (r matches Ok(Value::Str(c)) && c@ == seq![text_of(a)[i]]
                    && na is Str && text_of(na) == text_of(a).remove(i))
                &&& (a is Array && !(0 <= i < array_items(a).len())) || (a is Str && !(0 <= i < text_of(a).len())) ==> (r is Err && r->Err_0 is BuiltinError)
                &&& !(a is Array || a is Str) ==> (r is Err && r->Err_0 is BuiltinError)
            })
}

/// `remove_index(a, i)`: removes and returns the element of an array or the
/// character of a string at `i`.
pub fn op_remove_index(args: &Vec<usize>, info: CodeArea, s: &mut ValueStore) -> (r: Result<Value, RuntimeError>)
    requires
        args_ok(old(s), args@, 2),
        arg(old(s), args@, 1) is Number,
    ensures
        remove_index_outcome(old(s), final(s), args@, r),
{
    let a = args[0];
    let i = match s.get(args[1]) {
        Value::Number(n) => *n,
        _ => 0,
    };
    match s.get(a) {
        Value::Array(x) => {
            if i < 0 || i as u64 >= x.len() as u64 {
                return Err(RuntimeError::builtin("Index out of range", info));
            }
            let mut items = copy_indices(x);
            let removed = items.remove(i as usize);
            assert(children(old(s).slots@[a as int].value)[i as int] == removed);
            let out = s.get(removed).copy();
            proof {
                assert forall|k: int| 0 <= k < children(Value::Array(items)).len() implies {
                    let y = #[trigger] children(Value::Array(items))[k];
                    &&& y < s.slots@.len()
                    &&& s.ranks@[y as int] < s.ranks@[a as int]
                } by {
                    if k < i {
                        assert(children(old(s).slots@[a as int].value)[k] == items@[k]);
                    } else {
                        assert(children(old(s).slots@[a as int].value)[k + 1] == items@[k]);
                    }
                }
            }
            s.set_value(a, Value::Array(items));
            Ok(out)
        },
        Value::Str(t) => {
            let n = t.as_str().unicode_len();
            if i < 0 || i as u64 >= n as u64 {
                return Err(RuntimeError::builtin("Index out of range", info));
            }
            let c = t.as_str().get_char(i as usize);
            let rest = remove_char(t, i as usize);
            s.set_value(a, Value::Str(rest));
            Ok(Value::Str(crate::text::char_string(c)))
        },
        _ => Err(RuntimeError::builtin("Expected array or string", info)),
    }
}

/// What `op_substr` gives.
pub open spec fn substr_outcome(text: String, start: i64, end: i64, r: Result<Value, RuntimeError>) -> bool {
    &&& 0 <= start < end <= text@.len() ==> (r matches Ok(Value::Str(t)) && t@ == text@.subrange(start as int, end as int))
    &&& !(0 <= start < end <= text@.len()) ==> (r is Err && r->Err_0 is BuiltinError)
}

/// `substr(s, start, end)`: the characters of `s` from `start` up to `end`.
pub fn op_substr(text: &String, start: i64, end: i64, info: CodeArea) -> (r: Result<Value, RuntimeError>)
    ensures
        substr_outcome(*text, start, end, r),
{
    if start >= end {
        return Err(RuntimeError::builtin("Start index is larger than end index", info));
    }
    let n = text.as_str().unicode_len();
    if end as u64 > n as u64 {
        return Err(RuntimeError::builtin("End index is larger than string", info));
    }
    if start < 0 {
        return Err(RuntimeError::builtin("Start index is negative", info));
    }
    Ok(Value::Str(text.as_str().substring_char(start as usize, end as usize).to_owned()))
}

} // verus!

verus! {

/// The group that `extend_trigger_func` runs its macro in: a group, or a
/// trigger function's start group.
pub open spec fn target_group(v: Value) -> Option<Group> {
    match v {
        Value::Group(g) => Some(g),
        Value::TriggerFunc(f) => Some(f.start_group),
        _ => None,
    }
}

/// `extend_trigger_func(group, macro)` for the branch `leaf`: the branch
/// forks toward the group, and the new leaf is where the surrounding
/// compiler runs the macro. Gives the new leaf and the macro's handle.
pub fn extend_trigger_func(args: &Vec<usize>, info: CodeArea, s: &ValueStore, contexts: &mut crate::context::FullContext, leaf: usize) -> (r: Result<(usize, usize), RuntimeError>)
    requires
        args_ok(s, args@, 2),
        leaf < old(contexts)@.len(),
    ensures
        target_group(arg(s, args@, 0)) is None ==> (r is Err && r->Err_0 is BuiltinError),
        target_group(arg(s, args@, 0)) is Some && !(arg(s, args@, 1) is Macro) ==> (r is Err && r->Err_0 is TypeError),
        r is Err ==> final(contexts)@ == old(contexts)@,
        target_group(arg(s, args@, 0)) is Some && arg(s, args@, 1) is Macro ==> r == Ok::<(usize, usize), RuntimeError>(
            (old(contexts)@.len() as usize, arg(s, args@, 1)->Macro_0),
        ) && final(contexts)@ == old(contexts)@.push(
            crate::context::forked(old(contexts)@[leaf as int], target_group(arg(s, args@, 0))->Some_0, info),
        ),
{
    let group = match s.get(args[0]) {
        Value::Group(g) => *g,
        Value::TriggerFunc(f) => f.start_group,
        _ => {
            return Err(RuntimeError::builtin("Expected group or trigger function", info));
        },
    };
    let handle = match s.get(args[1]) {
        Value::Macro(m) => *m,
        other => {
            return Err(RuntimeError::type_error("macro", other.variant_tag(), s.get_area(args[1]), info));
        },
    };
    let n = contexts.enter_group(leaf, group, info);
    Ok((n, handle))
}

} // verus!

verus! {

/// The pieces of `s[start..]` between the non-overlapping occurrences of a
/// non-empty `sep`, searched from `i` on, left to right.
pub open spec fn split_from(s: Seq<char>, sep: Seq<char>, start: int, i: int) -> Seq<Seq<char>>
    decreases s.len() - i,
{
    if sep.len() == 0 || i < start || i + sep.len() > s.len() {
        seq![s.subrange(start, s.len() as int)]
    } else if s.subrange(i, i + sep.len()) == sep {
        seq![s.subrange(start, i)] + split_from(s, sep, i + sep.len(), i + sep.len())
    } else {
        split_from(s, sep, start, i + 1)
    }
}

/// The pieces of `s` split at `sep`: for an empty `sep`, an empty piece,
/// each character, and an empty piece.
pub open spec fn split_text(s: Seq<char>, sep: Seq<char>) -> Seq<Seq<char>> {
    if sep.len() == 0 {
        seq![Seq::<char>::empty()] + Seq::new(s.len(), |k: int| seq![s[k]]) + seq![Seq::<char>::empty()]
    } else {
        split_from(s, sep, 0, 0)
    }
}

fn occurs_at(s: &str, sep: &str, i: usize) -> (r: bool)
    requires
        i + sep@.len() <= s@.len(),
    ensures
        r == (s@.subrange(i as int, i + sep@.len()) == sep@),
{
    let n = s.unicode_len();
    let m = sep.unicode_len();
    let mut k: usize = 0;
    while k < m
        invariant
            m == sep@.len(),
            n == s@.len(),
            i + m <= s@.len(),
            k <= m,
            forall|q: int| 0 <= q < k ==> s@[i + q] == sep@[q],
        decreases m - k,
    {
        if s.get_char(i + k) != sep.get_char(k) {
            assert(s@.subrange(i as int, i + m)[k as int] != sep@[k as int]);
            return false;
        }
        k = k + 1;
    }
    assert(s@.subrange(i as int, i + m) =~= sep@);
    true
}

fn split_pieces(s: &str, sep: &str) -> (r: Vec<String>)
    ensures
        r@.len() == split_text(s@, sep@).len(),
        forall|k: int| 0 <= k < r@.len() ==> #[trigger] r@[k]@ == split_text(s@, sep@)[k],
{
    let n = s.unicode_len();
    let m = sep.unicode_len();
    let mut out: Vec<String> = Vec::new();
    if m == 0 {
        out.push(String::new());
        let mut k: usize = 0;
        while k < n
            invariant
                n == s@.len(),
                k <= n,
                out@.len() == k + 1,
                out@[0]@ == Seq::<char>::empty(),
                forall|j: int| 1 <= j <= k ==> #[trigger] out@[j]@ == seq![s@[j - 1]],
            decreases n - k,
        {
            out.push(crate::text::char_string(s.get_char(k)));
            k = k + 1;
        }
        out.push(String::new());
        proof {
            let t = split_text(s@, sep@);
            assert(t.len() == n + 2);
            assert forall|k: int| 0 <= k < out@.len() implies #[trigger] out@[k]@ == t[k] by {
                if 1 <= k <= n {
                    assert(t[k] == seq![s@[k - 1]]);
                }
            }
        }
        return out;
    }
    let mut start: usize = 0;
    let mut i: usize = 0;
    while m <= n && i <= n - m
        invariant
            n == s@.len(),
            m == sep@.len(),
            m > 0,
            start <= i <= n,
            forall|k: int| 0 <= k < out@.len() ==> #[trigger] out@[k]@ == split_text(s@, sep@)[k],
            split_text(s@, sep@) == out@.map_values(|x: String| x@) + split_from(s@, sep@, start as int, i as int),
        decreases n - i,
    {
        if occurs_at(s, sep, i) {
            let piece = s.substring_char(start, i).to_owned();
            let ghost pre = out@;
            out.push(piece);
            proof {
                assert(out@.map_values(|x: String| x@) =~= pre.map_values(|x: String| x@).push(piece@));
                assert(split_from(s@, sep@, start as int, i as int) == seq![s@.subrange(start as int, i as int)] + split_from(s@, sep@, i + m, i + m));
                assert(split_text(s@, sep@) =~= out@.map_values(|x: String| x@) + split_from(s@, sep@, i + m, i + m));
                assert forall|k: int| 0 <= k < out@.len() implies #[trigger] out@[k]@ == split_text(s@, sep@)[k] by {
                    assert(out@[k]@ == out@.map_values(|x: String| x@)[k]);
                }
            }
            i = i + m;
            start = i;
        } else {
            i = i + 1;
        }
    }
    let piece = s.substring_char(start, n).to_owned();
    let ghost pre = out@;
    out.push(piece);
    proof {
        assert(split_from(s@, sep@, start as int, i as int) == seq![s@.subrange(start as int, n as int)]);
        assert(out@.map_values(|x: String| x@) =~= pre.map_values(|x: String| x@).push(piece@));
        assert(split_text(s@, sep@) =~= out@.map_values(|x: String| x@));
        assert forall|k: int| 0 <= k < out@.len() implies #[trigger] out@[k]@ == split_text(s@, sep@)[k] by {
            assert(out@[k]@ == out@.map_values(|x: String| x@)[k]);
        }
    }
    out
}

/// The slot `idx` holds the string `t`.
pub open spec fn holds_text(s: &ValueStore, idx: usize, t: Seq<char>) -> bool {
    idx < s.slots@.len() && s.slots@[idx as int].value is Str && text_of(s.slots@[idx as int].value) == t
}

/// What `split_str(s, sep)` gives: an array of the pieces of `s` split at
/// `sep`, each in a fresh slot.
pub open spec fn split_str_outcome(s0: &ValueStore, s1: &ValueStore, args: Seq<usize>, r: Result<Value, RuntimeError>) -> bool {
    let pieces = split_text(text_of(arg(s0, args, 0)), text_of(arg(s0, args, 1)));
    &&& s1.wf()
    &&& s1.extends(s0)
    &&& r matches Ok(Value::Array(v)) && v@.len() == pieces.len() && forall|k: int|
        0 <= k < v@.len() ==> #[trigger] holds_text(s1, v@[k], pieces[k])
}

/// `split_str(s, sep)`: the pieces of `s` between the occurrences of `sep`.
pub fn op_split_str(args: &Vec<usize>, info: CodeArea, s: &mut ValueStore, group: Group) -> (r: Result<Value, RuntimeError>)
    requires
        args_ok(old(s), args@, 2),
        arg(old(s), args@, 0) is Str,
        arg(old(s), args@, 1) is Str,
    ensures
        split_str_outcome(old(s), final(s), args@, r),
{
    let pieces = match (s.get(args[0]), s.get(args[1])) {
        (Value::Str(t), Value::Str(sep)) => split_pieces(t.as_str(), sep.as_str()),
        _ => Vec::new(),
    };
    let ghost want = split_text(text_of(arg(old(s), args@, 0)), text_of(arg(old(s), args@, 1)));
    let mut out: Vec<usize> = Vec::new();
    let mut k: usize = 0;
    let mut pieces = pieces;
    let ghost all = pieces@;
    let total = pieces.len();
    while k < total
        invariant
            total == all.len(),
            s.wf(),
            s.extends(old(s)),
            all.len() == want.len(),
            forall|j: int| 0 <= j < all.len() ==> #[trigger] all[j]@ == want[j],
            out@.len() == k,
            k <= all.len(),
            pieces@.len() == all.len() - k,
            forall|j: int| 0 <= j < pieces@.len() ==> #[trigger] pieces@[j] == all[j + k],
            forall|j: int| 0 <= j < k ==> #[trigger] holds_text(s, out@[j], want[j]),
        decreases total - k,
    {
        let piece = pieces.remove(0);
        let ghost s0 = *s;
        let idx = s.store(Value::Str(piece), group, info, false);
        proof {
            assert forall|q: int| 0 <= q < old(s).slots@.len() implies #[trigger] s.slots@[q] == old(s).slots@[q] by {
                assert(s0.slots@[q] == old(s).slots@[q]);
            }
            assert forall|q: int| 0 <= q < old(s).slots@.len() implies #[trigger] s.ranks@[q] == old(s).ranks@[q] by {
                assert(s0.ranks@[q] == old(s).ranks@[q]);
            }
        }
        let ghost prev = out@;
        out.push(idx);
        proof {
            assert forall|j: int| 0 <= j < k + 1 implies #[trigger] holds_text(s, out@[j], want[j]) by {
                if j < k {
                    assert(out@[j] == prev[j]);
                    assert(holds_text(&s0, prev[j], want[j]));
                    assert(s.slots@[prev[j] as int] == s0.slots@[prev[j] as int]);
                } else {
                    assert(all[j]@ == want[j]);
                }
            }
        }
        k = k + 1;
    }
    Ok(Value::Array(out))
}

} // verus!
