//! The engine that runs a built-in on every live branch: permission once,
//! then for each leaf the argument checks of the catalog, the body, and the
//! branch's return value.
use vstd::prelude::*;

use crate::builtins::{Builtin, ParamSpec, is_host, param_specs};
use crate::context::{Context, ContextView, FullContext, copy_changes};
use crate::error::RuntimeError;
use crate::globals::{Globals, ordering_step};
use crate::ids::Group;
use crate::objects::{op_edit_obj, op_either, op_has, op_matches};
use crate::random::op_random;
use crate::regex_ops::op_regex;
use crate::objects::{edit_obj_outcome, either_outcome, has_outcome, matches_outcome};
use crate::random::random_outcome;
use crate::regex_ops::regex_outcome;
use crate::text::base64_encoded;
use crate::ops::{
    abs_outcome, add_assign_outcome, add_object_outcome, append_outcome, assert_outcome, assign_outcome,
    b64decode_outcome, bool_of, minus_outcome, multiply_assign_outcome, negate_outcome, plus_outcome, pop_outcome,
    range_outcome, remove_index_outcome, step_outcome, substr_outcome, subtract_assign_outcome, swap_outcome,
    text_of, times_outcome, op_split_str, split_str_outcome, split_text,
    Comparison, arg, op_abs, op_add_assign, op_add_object, op_append, op_assert, op_assign, op_b64decode,
    op_b64encode, op_compare, op_max, op_min, op_minus, op_negate, op_plus, op_pop, op_range, op_step,
    op_subtract_assign, op_swap, op_unary_range, op_times, op_multiply_assign, op_remove_index, op_substr,
};
use crate::store::{StoredSlot, ValueStore, children, unique_keys};
use crate::value::{CodeArea, ObjectMode, Value, same_shallow, variant_tag};

verus! {

/// Whether an argument meets what its parameter asks, for a branch of group `g`.
pub open spec fn arg_meets(p: ParamSpec, slot: StoredSlot, g: Group) -> bool {
    &&& p.mutable ==> slot.mutable && slot.fn_context == g
    &&& p.type_tag matches Some(t) ==> variant_tag(slot.value) == t
}

/// Whether the arguments meet the declared parameters.
pub open spec fn args_meet(ps: Seq<ParamSpec>, args: Seq<usize>, s: &ValueStore, g: Group) -> bool {
    &&& ps.len() == args.len()
    &&& forall|j: int| 0 <= j < ps.len() ==> #[trigger] arg_meets(ps[j], s.slots@[args[j] as int], g)
}

/// Argument `j` is the first that does not meet its parameter.
pub open spec fn first_unmet(ps: Seq<ParamSpec>, args: Seq<usize>, s: &ValueStore, g: Group, j: int) -> bool {
    &&& ps.len() == args.len()
    &&& 0 <= j < ps.len()
    &&& !arg_meets(ps[j], s.slots@[args[j] as int], g)
    &&& forall|k: int| 0 <= k < j ==> #[trigger] arg_meets(ps[k], s.slots@[args[k] as int], g)
}

/// Checks the arguments against the declared parameters, in order: the
/// count, then for each argument its mutability, the group it lives under,
/// and its type.
pub fn check_arguments(ps: &Vec<ParamSpec>, args: &Vec<usize>, info: CodeArea, s: &ValueStore, context: &Context) -> (r: Result<(), RuntimeError>)
    requires
        forall|i: int| 0 <= i < args@.len() ==> #[trigger] args@[i] < s.slots@.len(),
    ensures
        r is Ok <==> args_meet(ps@, args@, s, context.start_group),
        ps@.len() != args@.len() ==> (r is Err && r->Err_0 is ArityError),
        forall|j: int| #[trigger] first_unmet(ps@, args@, s, context.start_group, j) ==> {
            let p = ps@[j];
            let slot = s.slots@[args@[j] as int];
            &&& p.mutable && !slot.mutable ==> (r matches Err(RuntimeError::MutabilityError { val_def, .. }) && val_def == slot.def_area)
            &&& p.mutable && slot.mutable && slot.fn_context != context.start_group ==> (r matches Err(
                RuntimeError::ContextChangeMutateError { val_def, context_changes, .. },
            ) && val_def == slot.def_area && context_changes@ == context@.changes)
            &&& !(p.mutable && !(slot.mutable && slot.fn_context == context.start_group)) ==> (r is Err && r->Err_0 is TypeError)
        },
{
    if ps.len() != args.len() {
        return Err(RuntimeError::ArityError { expected: ps.len(), found: args.len(), info });
    }
    let mut j: usize = 0;
    while j < ps.len()
        invariant
            ps@.len() == args@.len(),
            j <= ps@.len(),
            forall|i: int| 0 <= i < args@.len() ==> #[trigger] args@[i] < s.slots@.len(),
            forall|k: int| 0 <= k < j ==> #[trigger] arg_meets(ps@[k], s.slots@[args@[k] as int], context.start_group),
        decreases ps.len() - j,
    {
        let p = ps[j];
        let a = args[j];
        if p.mutable {
            if !s.can_mutate(a) {
                assert(first_unmet(ps@, args@, s, context.start_group, j as int));
                return Err(RuntimeError::MutabilityError { val_def: s.get_area(a), info });
            }
            if !(s.get_fn_context(a) == context.start_group) {
                assert(first_unmet(ps@, args@, s, context.start_group, j as int));
                return Err(RuntimeError::ContextChangeMutateError {
                    val_def: s.get_area(a),
                    context_changes: copy_changes(&context.fn_context_change_stack),
                    info,
                });
            }
        }
        match p.type_tag {
            Some(t) => {
                let found = s.get(a).variant_tag();
                if found != t {
                    assert(first_unmet(ps@, args@, s, context.start_group, j as int));
                    return Err(RuntimeError::type_error("another type", found, s.get_area(a), info));
                }
            },
            None => {},
        }
        j = j + 1;
    }
    Ok(())
}

/// Only the value store changed.
pub open spec fn store_only(g0: &Globals, g1: &Globals) -> bool {
    &&& g1.implementations == g0.implementations
    &&& g1.objects == g0.objects
    &&& g1.func_ids == g0.func_ids
    &&& g1.uid_counter == g0.uid_counter
    &&& g1.trigger_order == g0.trigger_order
    &&& g1.permissions == g0.permissions
}

pub open spec fn num(s: &ValueStore, args: Seq<usize>, i: int) -> i64 {
    arg(s, args, i)->Number_0
}

/// What the body of `func` does for the branch `c`, taking the compilation
/// from `g0` to `g1` and giving `r`: the contract of the operation's body.
pub open spec fn builtin_outcome(
    func: Builtin,
    args: Seq<usize>,
    g0: &Globals,
    g1: &Globals,
    c: ContextView,
    info: CodeArea,
    r: Result<Value, RuntimeError>,
) -> bool {
    let s0 = &g0.stored_values;
    let s1 = &g1.stored_values;
    match func {
        Builtin::Assert => *g1 == *g0 && assert_outcome(s0, args, r),
        Builtin::Append => store_only(g0, g1) && append_outcome(s0, s1, args, r),
        Builtin::Pop => store_only(g0, g1) && pop_outcome(s0, s1, args, r),
        Builtin::Mutability => *g1 == *g0 && r == Ok::<Value, RuntimeError>(Value::Bool(s0.slots@[args[0] as int].mutable)),
        Builtin::TriggerFnContext => *g1 == *g0 && r == Ok::<Value, RuntimeError>(Value::Group(c.start_group)),
        Builtin::Add => add_object_outcome(g0, g1, args, c, r),
        Builtin::B64Encode => *g1 == *g0 && (r matches Ok(Value::Str(t)) && t@ == base64_encoded(text_of(arg(s0, args, 0)))),
        Builtin::B64Decode => *g1 == *g0 && b64decode_outcome(arg(s0, args, 0)->Str_0, r),
        Builtin::RangeOp => *g1 == *g0 && range_outcome(arg(s0, args, 0), num(s0, args, 1), r),
        Builtin::UnaryRangeOp => *g1 == *g0 && r == Ok::<Value, RuntimeError>(Value::Range(0, num(s0, args, 0), 1)),
        Builtin::IncrOp => store_only(g0, g1) && step_outcome(s0, s1, args, 1, false, r),
        Builtin::DecrOp => store_only(g0, g1) && step_outcome(s0, s1, args, -1i64, false, r),
        Builtin::PreIncrOp => store_only(g0, g1) && step_outcome(s0, s1, args, 1, true, r),
        Builtin::PreDecrOp => store_only(g0, g1) && step_outcome(s0, s1, args, -1i64, true, r),
        Builtin::NegOp => *g1 == *g0 && negate_outcome(num(s0, args, 0), r),
        Builtin::NotOp => *g1 == *g0 && r == Ok::<Value, RuntimeError>(Value::Bool(!bool_of(arg(s0, args, 0)))),
        Builtin::OrOp => *g1 == *g0 && r == Ok::<Value, RuntimeError>(Value::Bool(bool_of(arg(s0, args, 0)) || bool_of(arg(s0, args, 1)))),
        Builtin::AndOp => *g1 == *g0 && r == Ok::<Value, RuntimeError>(Value::Bool(bool_of(arg(s0, args, 0)) && bool_of(arg(s0, args, 1)))),
        Builtin::MoreThanOp => *g1 == *g0 && r == Ok::<Value, RuntimeError>(Value::Bool(num(s0, args, 0) > num(s0, args, 1))),
        Builtin::LessThanOp => *g1 == *g0 && r == Ok::<Value, RuntimeError>(Value::Bool(num(s0, args, 0) < num(s0, args, 1))),
        Builtin::MoreOrEqOp => *g1 == *g0 && r == Ok::<Value, RuntimeError>(Value::Bool(num(s0, args, 0) >= num(s0, args, 1))),
        Builtin::LessOrEqOp => *g1 == *g0 && r == Ok::<Value, RuntimeError>(Value::Bool(num(s0, args, 0) <= num(s0, args, 1))),
        Builtin::EqOp => *g1 == *g0 && r == Ok::<Value, RuntimeError>(Value::Bool(s0.deep_eq(args[0], args[1]))),
        Builtin::NotEqOp => *g1 == *g0 && r == Ok::<Value, RuntimeError>(Value::Bool(!s0.deep_eq(args[0], args[1]))),
        Builtin::PlusOp => store_only(g0, g1) && plus_outcome(s0, s1, args, r),
        Builtin::MinusOp => *g1 == *g0 && minus_outcome(num(s0, args, 0), num(s0, args, 1), r),
        Builtin::AssignOp => store_only(g0, g1) && assign_outcome(s0, s1, args, info, r),
        Builtin::SwapOp => store_only(g0, g1) && swap_outcome(s0, s1, args, info, r),
        Builtin::SubtractOp => store_only(g0, g1) && subtract_assign_outcome(s0, s1, args, r),
        Builtin::AddOp => store_only(g0, g1) && add_assign_outcome(s0, s1, args, r),
        Builtin::Min => *g1 == *g0 && (r matches Ok(Value::Number(m)) && m == (if num(s0, args, 0) <= num(s0, args, 1) {
            num(s0, args, 0)
        } else {
            num(s0, args, 1)
        })),
        Builtin::Max => *g1 == *g0 && (r matches Ok(Value::Number(m)) && m == (if num(s0, args, 0) >= num(s0, args, 1) {
            num(s0, args, 0)
        } else {
            num(s0, args, 1)
        })),
        Builtin::Abs => *g1 == *g0 && abs_outcome(num(s0, args, 0), r),
        Builtin::Matches => *g1 == *g0 && matches_outcome(s0, args, r),
        Builtin::EitherOp => *g1 == *g0 && either_outcome(s0, args, r),
        Builtin::HasOp => *g1 == *g0 && has_outcome(s0, args, r),
        Builtin::EditObj => store_only(g0, g1) && edit_obj_outcome(s0, s1, args, r),
        Builtin::Substr => *g1 == *g0 && substr_outcome(arg(s0, args, 0)->Str_0, num(s0, args, 1), num(s0, args, 2), r),
        Builtin::Regex => store_only(g0, g1) && regex_outcome(s0, s1, args, r),
        Builtin::TimesOp => store_only(g0, g1) && times_outcome(s0, s1, args, r),
        Builtin::MultiplyOp => store_only(g0, g1) && multiply_assign_outcome(s0, s1, args, r),
        Builtin::RemoveIndex => store_only(g0, g1) && remove_index_outcome(s0, s1, args, r),
        Builtin::Random => store_only(g0, g1) && random_outcome(s0, s1, args, r),
        Builtin::SplitStr => store_only(g0, g1) && split_str_outcome(s0, s1, args, r),
        Builtin::Print | Builtin::Time | Builtin::GetInput | Builtin::ReadFile | Builtin::WriteFile
        | Builtin::HttpRequest | Builtin::ExtendTriggerFunc => *g1 == *g0 && (r is Err && r->Err_0 is BuiltinError),
    }
}

/// A trigger value.
pub open spec fn is_trigger_value(v: Value) -> bool {
    v is Obj && v->Obj_1 == ObjectMode::Trigger
}

/// A value that may go into a slot of `s`: it refers to slots of `s` only,
/// and a dictionary's names are distinct.
pub open spec fn storable(v: Value, s: &ValueStore) -> bool {
    &&& unique_keys(v)
    &&& forall|k: int| 0 <= k < children(v).len() ==> #[trigger] children(v)[k] < s.slots@.len()
}

proof fn lemma_copy_storable(v: Value, w: Value, s: &ValueStore)
    requires
        same_shallow(v, w),
        storable(w, s),
    ensures
        storable(v, s),
{
    match (v, w) {
        (Value::Array(x), Value::Array(y)) => {
            assert(children(v) =~= children(w));
        },
        (Value::Dict(x), Value::Dict(y)) => {
            assert(children(v) =~= children(w));
            assert forall|p: int, q: int| 0 <= p < q < x@.len() implies #[trigger] x@[p].0@ != #[trigger] x@[q].0@ by {
                assert(y@[p].0@ != y@[q].0@);
            }
        },
        _ => {},
    }
}

/// The type tags that the catalog asks for tell the variant.
proof fn lemma_tag_variant(v: Value)
    ensures
        variant_tag(v) == crate::value::TYPE_BOOL ==> v is Bool,
        variant_tag(v) == crate::value::TYPE_NUMBER ==> v is Number,
        variant_tag(v) == crate::value::TYPE_ARRAY ==> v is Array,
        variant_tag(v) == crate::value::TYPE_STRING ==> v is Str,
{
}

pub open spec fn get_number_spec(s: &ValueStore, a: usize) -> int {
    match s.slots@[a as int].value {
        Value::Number(n) => n as int,
        _ => 0,
    }
}

fn get_number(s: &ValueStore, a: usize) -> (r: i64)
    requires
        a < s.slots@.len(),
    ensures
        s.slots@[a as int].value is Number ==> s.slots@[a as int].value == Value::Number(r),
{
    match s.get(a) {
        Value::Number(n) => *n,
        _ => 0,
    }
}

fn get_bool(s: &ValueStore, a: usize) -> (r: bool)
    requires
        a < s.slots@.len(),
    ensures
        s.slots@[a as int].value is Bool ==> s.slots@[a as int].value == Value::Bool(r),
{
    match s.get(a) {
        Value::Bool(b) => *b,
        _ => false,
    }
}

/// Runs the body of `func` for the branch `context`.
pub fn run_builtin(func: Builtin, args: &Vec<usize>, info: CodeArea, g: &mut Globals, context: &Context) -> (r: Result<Value, RuntimeError>)
    requires
        old(g).stored_values.wf(),
        forall|i: int| 0 <= i < args@.len() ==> #[trigger] args@[i] < old(g).stored_values.slots@.len(),
        context.func_id < old(g).func_ids@.len(),
        param_specs(func) matches Some(ps) ==> args_meet(ps, args@, &old(g).stored_values, context.start_group),
    ensures
        final(g).stored_values.wf(),
        final(g).stored_values.slots@.len() >= old(g).stored_values.slots@.len(),
        final(g).func_ids@.len() == old(g).func_ids@.len(),
        final(g).trigger_order >= old(g).trigger_order,
        final(g).permissions == old(g).permissions,
        r matches Ok(v) ==> storable(v, &final(g).stored_values),
        is_host(func) ==> (r is Err && r->Err_0 is BuiltinError),
        builtin_outcome(func, args@, old(g), final(g), context@, info, r),
        func is Assert ==> *final(g) == *old(g) && (r is Ok <==> arg(&old(g).stored_values, args@, 0) == Value::Bool(true)),
        func is Add ==> final(g).stored_values == old(g).stored_values,
        func is Add && r is Ok && args@.len() >= 1 && is_trigger_value(arg(&old(g).stored_values, args@, 0))
            ==> ordering_step(old(g).trigger_order, final(g).trigger_order, final(g).trigger_order),
{
    proof {
        if param_specs(func) is Some {
            let ps = param_specs(func)->Some_0;
            if ps.len() > 0 {
                lemma_tag_variant(arg(&g.stored_values, args@, 0));
                assert(arg_meets(ps[0], g.stored_values.slots@[args@[0] as int], context.start_group));
            }
            if ps.len() > 1 {
                lemma_tag_variant(arg(&g.stored_values, args@, 1));
                assert(arg_meets(ps[1], g.stored_values.slots@[args@[1] as int], context.start_group));
            }
            if ps.len() > 2 {
                lemma_tag_variant(arg(&g.stored_values, args@, 2));
                assert(arg_meets(ps[2], g.stored_values.slots@[args@[2] as int], context.start_group));
            }
        }
    }
    let s = &g.stored_values;
    match func {
        Builtin::Assert => op_assert(args, info, s),
        Builtin::Append => op_append(args, &mut g.stored_values, context.start_group),
        Builtin::Pop => {
            let ghost s0 = g.stored_values;
            let r = op_pop(args, info, &mut g.stored_values);
            proof {
                if r is Ok {
                    match s0.slots@[args@[0] as int].value {
                        Value::Array(items) => {
                            if items@.len() > 0 {
                                let last = items@.last();
                                assert(children(s0.slots@[args@[0] as int].value)[items@.len() - 1] == last);
                                let w = s0.slots@[last as int].value;
                                assert(storable(w, &s0));
                                lemma_copy_storable(r->Ok_0, w, &s0);
                            }
                        },
                        _ => {},
                    }
                }
            }
            r
        },
        Builtin::Mutability => Ok(Value::Bool(s.can_mutate(args[0]))),
        Builtin::TriggerFnContext => Ok(Value::Group(context.start_group)),
        Builtin::Add => op_add_object(args, info, g, context),
        Builtin::B64Encode => match s.get(args[0]) {
            Value::Str(t) => Ok(op_b64encode(t)),
            _ => Ok(Value::Null),
        },
        Builtin::B64Decode => match s.get(args[0]) {
            Value::Str(t) => op_b64decode(t, info),
            _ => Ok(Value::Null),
        },
        Builtin::RangeOp => {
            let end = get_number(s, args[1]);
            op_range(s.get(args[0]), end, s.get_area(args[0]), info)
        },
        Builtin::UnaryRangeOp => Ok(op_unary_range(get_number(s, args[0]))),
        Builtin::IncrOp => op_step(args, 1, false, info, &mut g.stored_values),
        Builtin::DecrOp => op_step(args, -1, false, info, &mut g.stored_values),
        Builtin::PreIncrOp => op_step(args, 1, true, info, &mut g.stored_values),
        Builtin::PreDecrOp => op_step(args, -1, true, info, &mut g.stored_values),
        Builtin::NegOp => op_negate(get_number(s, args[0]), info),
        Builtin::NotOp => Ok(Value::Bool(!get_bool(s, args[0]))),
        Builtin::OrOp => Ok(Value::Bool(get_bool(s, args[0]) || get_bool(s, args[1]))),
        Builtin::AndOp => Ok(Value::Bool(get_bool(s, args[0]) && get_bool(s, args[1]))),
        Builtin::MoreThanOp => Ok(op_compare(Comparison::MoreThan, get_number(s, args[0]), get_number(s, args[1]))),
        Builtin::LessThanOp => Ok(op_compare(Comparison::LessThan, get_number(s, args[0]), get_number(s, args[1]))),
        Builtin::MoreOrEqOp => Ok(op_compare(Comparison::MoreOrEqual, get_number(s, args[0]), get_number(s, args[1]))),
        Builtin::LessOrEqOp => Ok(op_compare(Comparison::LessOrEqual, get_number(s, args[0]), get_number(s, args[1]))),
        Builtin::EqOp => Ok(Value::Bool(s.value_equality(args[0], args[1]))),
        Builtin::NotEqOp => Ok(Value::Bool(!s.value_equality(args[0], args[1]))),
        Builtin::PlusOp => op_plus(args, info, &mut g.stored_values, context.start_group),
        Builtin::MinusOp => op_minus(get_number(s, args[0]), get_number(s, args[1]), info),
        Builtin::AssignOp => op_assign(args, info, &mut g.stored_values, context.start_group),
        Builtin::SwapOp => op_swap(args, info, &mut g.stored_values, context.start_group),
        Builtin::SubtractOp => op_subtract_assign(args, info, &mut g.stored_values),
        Builtin::AddOp => op_add_assign(args, info, &mut g.stored_values, context.start_group),
        Builtin::Min => Ok(op_min(get_number(s, args[0]), get_number(s, args[1]))),
        Builtin::Max => Ok(op_max(get_number(s, args[0]), get_number(s, args[1]))),
        Builtin::Abs => op_abs(get_number(s, args[0]), info),
        Builtin::Print | Builtin::Time | Builtin::GetInput | Builtin::ReadFile | Builtin::WriteFile
        | Builtin::HttpRequest => Err(RuntimeError::builtin("performed by the host", info)),
        Builtin::ExtendTriggerFunc => Err(RuntimeError::builtin("runs through extend_trigger_func", info)),
        Builtin::Matches => op_matches(args, s, info),
        Builtin::EitherOp => op_either(args, s, info),
        Builtin::HasOp => op_has(args, info, s),
        Builtin::EditObj => op_edit_obj(args, info, &mut g.stored_values),
        Builtin::Substr => match s.get(args[0]) {
            Value::Str(t) => op_substr(t, get_number(s, args[1]), get_number(s, args[2]), info),
            _ => Ok(Value::Null),
        },
        Builtin::SplitStr => {
            let r = op_split_str(args, info, &mut g.stored_values, context.start_group);
            proof {
                let pieces = split_text(text_of(arg(&old(g).stored_values, args@, 0)), text_of(arg(&old(g).stored_values, args@, 1)));
                let v = r->Ok_0->Array_0;
                assert(v@.len() == pieces.len());
                assert forall|k: int| 0 <= k < v@.len() implies #[trigger] v@[k] < g.stored_values.slots@.len() by {
                    assert(crate::ops::holds_text(&g.stored_values, v@[k], pieces[k]));
                }
                assert(children(r->Ok_0) == v@);
                assert(storable(r->Ok_0, &g.stored_values));
            }
            r
        },
        Builtin::Regex => {
            let r = op_regex(args, info, &mut g.stored_values, context.start_group);
            proof {
                if r is Ok && r->Ok_0 is Array {
                    let v = r->Ok_0->Array_0;
                    assert forall|k: int| 0 <= k < children(r->Ok_0).len() implies #[trigger] children(r->Ok_0)[k] < g.stored_values.slots@.len() by {
                        assert(children(r->Ok_0)[k] == v@[k]);
                    }
                }
            }
            r
        },
        Builtin::TimesOp => {
            let r = op_times(args, info, &mut g.stored_values, context.start_group);
            proof {
                if r is Ok && r->Ok_0 is Array {
                    let v = r->Ok_0->Array_0;
                    assert forall|k: int| 0 <= k < children(r->Ok_0).len() implies #[trigger] children(r->Ok_0)[k] < g.stored_values.slots@.len() by {
                        assert(children(r->Ok_0)[k] == v@[k]);
                    }
                }
            }
            r
        },
        Builtin::MultiplyOp => op_multiply_assign(args, info, &mut g.stored_values),
        Builtin::RemoveIndex => {
            let ghost s0 = g.stored_values;
            let r = op_remove_index(args, info, &mut g.stored_values);
            proof {
                if r is Ok && arg(&s0, args@, 0) is Array {
                    let items = arg(&s0, args@, 0)->Array_0@;
                    let i = get_number_spec(&s0, args@[1]);
                    if 0 <= i < items.len() {
                        assert(children(arg(&s0, args@, 0))[i as int] == items[i as int]);
                        let w = s0.slots@[items[i as int] as int].value;
                        assert(storable(w, &s0));
                        lemma_copy_storable(r->Ok_0, w, &s0);
                    }
                }
            }
            r
        },
        Builtin::Random => {
            let ghost s0 = g.stored_values;
            let r = op_random(args, info, &mut g.stored_values, context.start_group);
            proof {
                if r is Ok && args@.len() == 1 {
                    let items = crate::ops::array_items(arg(&s0, args@, 0));
                    if items.len() > 0 {
                        let (k, c) = choose|k: int, c: usize|
                            0 <= k < items.len() && s0.slots@.len() <= c < g.stored_values.slots@.len()
                            && #[trigger] g.stored_values.deep_eq(c, items[k]) && same_shallow(r->Ok_0, g.stored_values.slots@[c as int].value);
                        lemma_copy_storable(r->Ok_0, g.stored_values.slots@[c as int].value, &g.stored_values);
                    }
                }
                if r is Ok && r->Ok_0 is Array {
                    let v = r->Ok_0->Array_0;
                    if args@.len() == 2 {
                        assert forall|k: int| 0 <= k < children(r->Ok_0).len() implies #[trigger] children(r->Ok_0)[k] < g.stored_values.slots@.len() by {
                            assert(children(r->Ok_0)[k] == v@[k]);
                            let items = crate::ops::array_items(arg(&s0, args@, 0));
                            assert(crate::random::copy_of_one(&g.stored_values, v@[k], items));
                            let q = choose|q: int| 0 <= q < items.len() && #[trigger] g.stored_values.deep_eq(v@[k], items[q]);
                            assert(g.stored_values.deep_eq(v@[k], items[q]));
                        }
                    }
                }
            }
            r
        },
    }
}

} // verus!

verus! {

/// One leaf's run of a built-in's body: the compilation before it, after
/// it, and the body's result.
pub struct LeafRun {
    pub before: Globals,
    pub after: Globals,
    pub result: Result<Value, RuntimeError>,
}

/// `g1` is `g0` with the result `v` of the branch `c` stored in a fresh
/// immutable slot of the branch's group.
pub open spec fn result_stored(g0: &Globals, g1: &Globals, v: Value, c: ContextView, info: CodeArea) -> bool {
    &&& store_only(g0, g1)
    &&& g1.stored_values.slots@ == g0.stored_values.slots@.push(
        StoredSlot { value: v, mutable: false, fn_context: c.start_group, def_area: info },
    )
}

/// Leaf `k` of the runs started where the leaf before it left off, met the
/// catalog, and did what its body's contract says.
pub open spec fn leaf_ran(func: Builtin, args: Seq<usize>, info: CodeArea, g0: &Globals, c0: Seq<ContextView>, runs: Seq<LeafRun>, k: int) -> bool {
    &&& k == 0 ==> runs[k].before == *g0
    &&& k > 0 ==> runs[k - 1].result is Ok && result_stored(&runs[k - 1].after, &runs[k].before, runs[k - 1].result->Ok_0, c0[k - 1], info)
    &&& param_specs(func) is Some ==> args_meet(param_specs(func)->Some_0, args, &runs[k].before.stored_values, c0[k].start_group)
    &&& builtin_outcome(func, args, &runs[k].before, &runs[k].after, c0[k], info, runs[k].result)
}

/// `g` is where the leaf after `runs` starts: `g0` for the first leaf, else
/// the last run's state with its result stored.
pub open spec fn reached(g0: &Globals, g: &Globals, c0: Seq<ContextView>, runs: Seq<LeafRun>, info: CodeArea) -> bool {
    if runs.len() == 0 {
        *g == *g0
    } else {
        runs.last().result is Ok && result_stored(&runs.last().after, g, runs.last().result->Ok_0, c0[runs.len() - 1], info)
    }
}

/// A dispatch of `func` over the leaves `c0`, from `g0` to `g1`, leaving the
/// leaves as `c1` and giving `r`: the leaves of `runs` ran in order, each
/// storing its result as its return value; it succeeds exactly when every
/// leaf's body succeeded, and fails on a refused permission, on the first
/// leaf whose arguments do not meet the catalog, or on the first body that
/// failed, with that body's error.
pub open spec fn dispatch_run(
    func: Builtin,
    args: Seq<usize>,
    info: CodeArea,
    g0: &Globals,
    g1: &Globals,
    c0: Seq<ContextView>,
    c1: Seq<ContextView>,
    runs: Seq<LeafRun>,
    r: Result<(), RuntimeError>,
) -> bool {
    let m = runs.len() as int;
    &&& m <= c0.len()
    &&& c1.len() == c0.len()
    &&& forall|k: int| 0 <= k < m ==> #[trigger] leaf_ran(func, args, info, g0, c0, runs, k)
    &&& forall|k: int| 0 <= k < m && runs[k].result is Ok ==> #[trigger] c1[k] == (ContextView {
        return_value: runs[k].after.stored_values.slots@.len() as usize,
        ..c0[k]
    })
    &&& forall|k: int| m <= k < c0.len() ==> #[trigger] c1[k] == c0[k]
    &&& m > 0 && runs.last().result is Err ==> c1[m - 1] == c0[m - 1]
    &&& r is Ok ==> m == c0.len() && g0.permissions.allows(func) && reached(g0, g1, c0, runs, info)
    &&& r is Err ==> {
        ||| !g0.permissions.allows(func) && m == 0 && *g1 == *g0 && r->Err_0 is PermissionError
        ||| g0.permissions.allows(func) && m > 0 && runs.last().result is Err && *g1 == runs.last().after
            && r->Err_0 == runs.last().result->Err_0
        ||| g0.permissions.allows(func) && m < c0.len() && reached(g0, g1, c0, runs, info) && param_specs(func) is Some
            && !args_meet(param_specs(func)->Some_0, args, &g1.stored_values, c0[m].start_group)
    }
}

/// The declared parameter `j` of a built-in asks for a mutable argument that is not.
pub open spec fn immutable_for_mut_param(ps: Seq<ParamSpec>, args: Seq<usize>, s: &ValueStore, g: Group, j: int) -> bool {
    &&& first_unmet(ps, args, s, g, j)
    &&& ps[j].mutable
    &&& !s.slots@[args[j] as int].mutable
}

/// Runs `func` with the given arguments on every live leaf, in order. On
/// success each leaf's return slot holds its result. The first failure ends
/// the run; what earlier leaves did stays. Built-ins that the host performs
/// are refused here: they go through `host_request`.
pub fn built_in_function(func: Builtin, arguments: &Vec<usize>, info: CodeArea, globals: &mut Globals, contexts: &mut FullContext) -> (r: Result<(), RuntimeError>)
    requires
        old(globals).stored_values.wf(),
        forall|i: int| 0 <= i < arguments@.len() ==> #[trigger] arguments@[i] < old(globals).stored_values.slots@.len(),
        forall|k: int| 0 <= k < old(contexts)@.len() ==> #[trigger] old(contexts)@[k].func_id < old(globals).func_ids@.len(),
    ensures
        final(globals).stored_values.wf(),
        final(globals).stored_values.slots@.len() >= old(globals).stored_values.slots@.len(),
        final(globals).func_ids@.len() == old(globals).func_ids@.len(),
        final(globals).trigger_order >= old(globals).trigger_order,
        final(contexts)@.len() == old(contexts)@.len(),
        forall|k: int| 0 <= k < old(contexts)@.len() ==> {
            &&& (#[trigger] final(contexts)@[k]).start_group == old(contexts)@[k].start_group
            &&& final(contexts)@[k].func_id == old(contexts)@[k].func_id
            &&& final(contexts)@[k].changes == old(contexts)@[k].changes
        },
        !old(globals).permissions.allows(func) ==> (r is Err && r->Err_0 is PermissionError && *final(globals) == *old(globals) && final(contexts)@ == old(contexts)@),
        is_host(func) && old(contexts)@.len() > 0 ==> r is Err,
        func is Add && r is Ok && arguments@.len() >= 1 && is_trigger_value(arg(&old(globals).stored_values, arguments@, 0))
            ==> final(globals).trigger_order == old(globals).trigger_order + old(contexts)@.len(),
        func is Assert && old(globals).permissions.allows(func) && old(contexts)@.len() > 0 && arguments@.len() == 1
            && arg(&old(globals).stored_values, arguments@, 0) is Bool
            ==> (r is Ok <==> arg(&old(globals).stored_values, arguments@, 0) == Value::Bool(true)),
        r is Ok ==> forall|k: int| 0 <= k < final(contexts)@.len() ==> old(globals).stored_values.slots@.len()
            <= (#[trigger] final(contexts)@[k]).return_value < final(globals).stored_values.slots@.len(),
        old(contexts)@.len() > 0 && old(globals).permissions.allows(func) && param_specs(func) is Some ==> forall|j: int|
            #[trigger] immutable_for_mut_param(param_specs(func)->Some_0, arguments@, &old(globals).stored_values, old(contexts)@[0].start_group, j)
                ==> (r matches Err(RuntimeError::MutabilityError { val_def, .. })
                && val_def == old(globals).stored_values.slots@[arguments@[j] as int].def_area && *final(globals) == *old(globals)),
        exists|runs: Seq<LeafRun>| #[trigger] dispatch_run(func, arguments@, info, old(globals), final(globals), old(contexts)@, final(contexts)@, runs, r),
{
    if !globals.permissions.is_allowed(func) {
        let r = Err(RuntimeError::PermissionError { builtin: func, needs_flag: !func.is_safe(), info });
        assert(dispatch_run(func, arguments@, info, old(globals), globals, old(contexts)@, contexts@, Seq::empty(), r));
        return r;
    }
    let n = contexts.leaves.len();
    let mut i: usize = 0;
    let ghost mut runs: Seq<LeafRun> = Seq::empty();
    while i < n
        invariant
            n == old(contexts)@.len(),
            i <= n,
            contexts@.len() == n,
            globals.stored_values.wf(),
            globals.stored_values.slots@.len() >= old(globals).stored_values.slots@.len(),
            globals.func_ids@.len() == old(globals).func_ids@.len(),
            globals.trigger_order >= old(globals).trigger_order,
            globals.permissions == old(globals).permissions,
            old(globals).permissions.allows(func),
            i == 0 ==> *globals == *old(globals),
            forall|a: int| 0 <= a < arguments@.len() ==> #[trigger] arguments@[a] < old(globals).stored_values.slots@.len(),
            forall|k: int| 0 <= k < n ==> #[trigger] old(contexts)@[k].func_id < old(globals).func_ids@.len(),
            forall|k: int| 0 <= k < n ==> {
                &&& (#[trigger] contexts@[k]).start_group == old(contexts)@[k].start_group
                &&& contexts@[k].func_id == old(contexts)@[k].func_id
                &&& contexts@[k].changes == old(contexts)@[k].changes
            },
            forall|k: int| 0 <= k < i ==> old(globals).stored_values.slots@.len() <= (#[trigger] contexts@[k]).return_value < globals.stored_values.slots@.len(),
            i > 0 ==> !is_host(func),
            func is Assert && arguments@.len() == 1 ==> globals.stored_values.slots@[arguments@[0] as int] == old(globals).stored_values.slots@[arguments@[0] as int],
            func is Assert && i > 0 ==> arg(&old(globals).stored_values, arguments@, 0) == Value::Bool(true),
            func is Add && arguments@.len() >= 1 ==> globals.stored_values.slots@[arguments@[0] as int] == old(globals).stored_values.slots@[arguments@[0] as int],
            func is Add && arguments@.len() >= 1 && is_trigger_value(arg(&old(globals).stored_values, arguments@, 0))
                ==> globals.trigger_order == old(globals).trigger_order + i,
            i > 0 && param_specs(func) is Some ==> forall|j: int|
                !#[trigger] immutable_for_mut_param(param_specs(func)->Some_0, arguments@, &old(globals).stored_values, old(contexts)@[0].start_group, j),
            runs.len() == i,
            forall|k: int| 0 <= k < i ==> #[trigger] leaf_ran(func, arguments@, info, old(globals), old(contexts)@, runs, k),
            forall|k: int| 0 <= k < i ==> (#[trigger] runs[k]).result is Ok,
            reached(old(globals), globals, old(contexts)@, runs, info),
            forall|k: int| 0 <= k < i ==> #[trigger] contexts@[k] == (ContextView {
                return_value: runs[k].after.stored_values.slots@.len() as usize,
                ..old(contexts)@[k]
            }),
            forall|k: int| i <= k < n ==> #[trigger] contexts@[k] == old(contexts)@[k],
        decreases n - i,
    {
        assert(contexts@[i as int] == contexts.leaves@[i as int]@);
        let ghost before = *globals;
        match func.params() {
            Some(ps) => {
                match check_arguments(&ps, arguments, info, &globals.stored_values, &contexts.leaves[i]) {
                    Ok(()) => {
                        proof {
                            if i == 0 {
                                assert forall|j: int| !#[trigger] immutable_for_mut_param(param_specs(func)->Some_0, arguments@, &old(globals).stored_values, old(contexts)@[0].start_group, j) by {
                                    if 0 <= j < ps@.len() {
                                        assert(arg_meets(ps@[j], globals.stored_values.slots@[arguments@[j] as int], contexts@[0].start_group));
                                    }
                                }
                            }
                        }
                    },
                    Err(e) => {
                        assert(dispatch_run(func, arguments@, info, old(globals), globals, old(contexts)@, contexts@, runs, Err::<(), RuntimeError>(e)));
                        return Err(e);
                    },
                }
            },
            None => {},
        }
        let res = run_builtin(func, arguments, info, globals, &contexts.leaves[i]);
        let ghost after = *globals;
        let ghost prev = runs;
        proof {
            runs = runs.push(LeafRun { before, after, result: res });
            assert forall|k: int| 0 <= k < i + 1 implies #[trigger] leaf_ran(func, arguments@, info, old(globals), old(contexts)@, runs, k) by {
                if k < i {
                    assert(runs[k] == prev[k]);
                    if k > 0 {
                        assert(runs[k - 1] == prev[k - 1]);
                    }
                    assert(leaf_ran(func, arguments@, info, old(globals), old(contexts)@, prev, k));
                } else if k > 0 {
                    assert(runs[k - 1] == prev[k - 1]);
                }
            }
        }
        let out = match res {
            Ok(v) => v,
            Err(e) => {
                assert(dispatch_run(func, arguments@, info, old(globals), globals, old(contexts)@, contexts@, runs, Err::<(), RuntimeError>(e)));
                return Err(e);
            },
        };
        let group = contexts.leaves[i].start_group;
        let ghost before_store = globals.stored_values;
        let ghost outv = out;
        let ret = globals.stored_values.store(out, group, info, false);
        proof {
            assert(globals.stored_values.slots@ =~= before_store.slots@.push(
                StoredSlot { value: outv, mutable: false, fn_context: group, def_area: info },
            ));
            assert(runs.last().result == res);
            assert(group == old(contexts)@[i as int].start_group);
            assert(result_stored(&after, globals, outv, old(contexts)@[i as int], info));
        }
        proof {
            if (func is Assert || func is Add) && arguments@.len() >= 1 {
                assert(globals.stored_values.slots@[arguments@[0] as int] == before_store.slots@[arguments@[0] as int]);
            }
        }
        let ghost pre = contexts@;
        contexts.leaves[i].return_value = ret;
        proof {
            assert forall|k: int| 0 <= k < n implies #[trigger] contexts@[k] == (if k == i {
                ContextView { return_value: ret, ..pre[k] }
            } else {
                pre[k]
            }) by {
                assert(contexts@[k] == contexts.leaves@[k]@);
            }
        }
        proof {
            assert forall|k: int| 0 <= k < i + 1 implies (#[trigger] runs[k]).result is Ok by {
                if k < i {
                    assert(runs[k] == prev[k]);
                }
            }
        }
        i = i + 1;
    }
    assert(dispatch_run(func, arguments@, info, old(globals), globals, old(contexts)@, contexts@, runs, Ok::<(), RuntimeError>(())));
    Ok(())
}

} // verus!

verus! {

/// Through dispatch on one branch: appending to an empty array and then
/// popping leaves the array empty again, and the popped value, stored as the
/// branch's return value, is the copy that the append made.
pub proof fn lemma_dispatch_push_pop(
    a: usize,
    v: usize,
    info1: CodeArea,
    info2: CodeArea,
    g0: &Globals,
    g1: &Globals,
    g2: &Globals,
    c0: Seq<ContextView>,
    c1: Seq<ContextView>,
    c2: Seq<ContextView>,
    runs1: Seq<LeafRun>,
    runs2: Seq<LeafRun>,
)
    requires
        c0.len() == 1,
        a != v,
        a < g0.stored_values.slots@.len(),
        v < g0.stored_values.slots@.len(),
        g0.stored_values.slots@[a as int].value is Array,
        crate::ops::array_items(g0.stored_values.slots@[a as int].value) == Seq::<usize>::empty(),
        dispatch_run(Builtin::Append, seq![a, v], info1, g0, g1, c0, c1, runs1, Ok::<(), RuntimeError>(())),
        dispatch_run(Builtin::Pop, seq![a], info2, g1, g2, c1, c2, runs2, Ok::<(), RuntimeError>(())),
    ensures
        g2.stored_values.slots@[a as int].value is Array,
        crate::ops::array_items(g2.stored_values.slots@[a as int].value) == Seq::<usize>::empty(),
        exists|c: usize|
            crate::ops::appended_copy(&g0.stored_values, &runs1[0].after.stored_values, a, v, c) && same_shallow(
                g2.stored_values.slots@[c2[0].return_value as int].value,
                #[trigger] g1.stored_values.slots@[c as int].value,
            ),
{
    assert(leaf_ran(Builtin::Append, seq![a, v], info1, g0, c0, runs1, 0));
    let after1 = runs1[0].after;
    assert(runs1.last() == runs1[0]);
    let c = choose|c: usize| crate::ops::appended_copy(&g0.stored_values, &after1.stored_values, a, v, c);
    assert(crate::ops::array_items(after1.stored_values.slots@[a as int].value) =~= seq![c]);
    assert(g1.stored_values.slots@[a as int] == after1.stored_values.slots@[a as int]);
    assert(g1.stored_values.slots@[c as int] == after1.stored_values.slots@[c as int]);
    assert(leaf_ran(Builtin::Pop, seq![a], info2, g1, c1, runs2, 0));
    assert(runs2.last() == runs2[0]);
    let after2 = runs2[0].after;
    assert(seq![a][0] == a);
    assert(g2.stored_values.slots@[a as int] == after2.stored_values.slots@[a as int]);
    assert(crate::ops::array_items(after2.stored_values.slots@[a as int].value) =~= Seq::<usize>::empty());
    vstd::std_specs::vec::axiom_spec_len(&after2.stored_values.slots);
    assert(runs2[0].result is Ok);
    assert(c2[0] == (ContextView { return_value: after2.stored_values.slots@.len() as usize, ..c1[0] }));
    assert(c2[0].return_value == after2.stored_values.slots@.len());
    assert(g2.stored_values.slots@[after2.stored_values.slots@.len() as int].value == runs2[0].result->Ok_0);
}

} // verus!

verus! {

proof fn lemma_add_leaf_start(args: Seq<usize>, info: CodeArea, g0: &Globals, g1: &Globals, c0: Seq<ContextView>, c1: Seq<ContextView>, runs: Seq<LeafRun>, r: Result<(), RuntimeError>, k: int)
    requires
        dispatch_run(Builtin::Add, args, info, g0, g1, c0, c1, runs, r),
        0 <= k < runs.len(),
        args.len() >= 1,
        args[0] < g0.stored_values.slots@.len(),
        is_trigger_value(arg(&g0.stored_values, args, 0)),
    ensures
        runs[k].before.trigger_order == g0.trigger_order + k,
        args[0] < runs[k].before.stored_values.slots@.len(),
        runs[k].before.stored_values.slots@[args[0] as int] == g0.stored_values.slots@[args[0] as int],
    decreases k,
{
    assert(leaf_ran(Builtin::Add, args, info, g0, c0, runs, k));
    if k > 0 {
        lemma_add_leaf_start(args, info, g0, g1, c0, c1, runs, r, k - 1);
        let j = k - 1;
        assert(leaf_ran(Builtin::Add, args, info, g0, c0, runs, j));
        let before = runs[j].before;
        let after = runs[j].after;
        assert(runs[j].result is Ok);
        assert(arg(&before.stored_values, args, 0) == arg(&g0.stored_values, args, 0));
        let ps = choose|ps: Seq<(u16, crate::value::ObjParam)>| crate::globals::emission(
            &before,
            &after,
            c0[j],
            arg(&before.stored_values, args, 0)->Obj_1,
            args.len() == 2 && bool_of(arg(&before.stored_values, args, 1)),
            ps,
            true,
        ) && #[trigger] crate::globals::built_from_pairs(ps, arg(&before.stored_values, args, 0)->Obj_0@);
        assert(after.stored_values == before.stored_values);
        assert(after.trigger_order == before.trigger_order + 1);
    }
}

/// Through dispatch of `add` with a trigger, the branches take successive
/// ordering keys in their order: branch `k`'s trigger ends its function's
/// list under the key the counter had before the dispatch plus `k + 1`, so a
/// later branch's key is larger.
pub proof fn lemma_dispatch_trigger_keys(
    args: Seq<usize>,
    info: CodeArea,
    g0: &Globals,
    g1: &Globals,
    c0: Seq<ContextView>,
    c1: Seq<ContextView>,
    runs: Seq<LeafRun>,
    r: Result<(), RuntimeError>,
)
    requires
        dispatch_run(Builtin::Add, args, info, g0, g1, c0, c1, runs, r),
        args.len() >= 1,
        args[0] < g0.stored_values.slots@.len(),
        is_trigger_value(arg(&g0.stored_values, args, 0)),
    ensures
        forall|k: int| 0 <= k < runs.len() && (#[trigger] runs[k]).result is Ok ==>
            runs[k].after.func_ids@[c0[k].func_id as int].obj_list@.last().1 == g0.trigger_order + k + 1,
        forall|j: int, k: int| 0 <= j < k < runs.len() && (#[trigger] runs[j]).result is Ok && (#[trigger] runs[k]).result is Ok ==>
            runs[j].after.func_ids@[c0[j].func_id as int].obj_list@.last().1 < runs[k].after.func_ids@[c0[k].func_id as int].obj_list@.last().1,
{
    assert forall|k: int| 0 <= k < runs.len() && (#[trigger] runs[k]).result is Ok implies
        runs[k].after.func_ids@[c0[k].func_id as int].obj_list@.last().1 == g0.trigger_order + k + 1 by {
        lemma_add_leaf_start(args, info, g0, g1, c0, c1, runs, r, k);
        assert(leaf_ran(Builtin::Add, args, info, g0, c0, runs, k));
        let before = runs[k].before;
        let after = runs[k].after;
        assert(arg(&before.stored_values, args, 0) == arg(&g0.stored_values, args, 0));
        let ps = choose|ps: Seq<(u16, crate::value::ObjParam)>| crate::globals::emission(
            &before,
            &after,
            c0[k],
            arg(&before.stored_values, args, 0)->Obj_1,
            args.len() == 2 && bool_of(arg(&before.stored_values, args, 1)),
            ps,
            true,
        ) && #[trigger] crate::globals::built_from_pairs(ps, arg(&before.stored_values, args, 0)->Obj_0@);
    }
}

} // verus!

verus! {

/// Through dispatch of `add` on a branch that does not target the root
/// group: a plain object is refused without an override, and its branch's
/// body goes through with one (while unique ids are left).
pub proof fn lemma_dispatch_plain_object(
    args: Seq<usize>,
    info: CodeArea,
    g0: &Globals,
    g1: &Globals,
    c0: Seq<ContextView>,
    c1: Seq<ContextView>,
    runs: Seq<LeafRun>,
    r: Result<(), RuntimeError>,
)
    requires
        dispatch_run(Builtin::Add, args, info, g0, g1, c0, c1, runs, r),
        c0.len() >= 1,
        c0[0].start_group != crate::globals::root_group(),
        g0.permissions.allows(Builtin::Add),
        g0.uid_counter < usize::MAX,
        1 <= args.len() <= 2,
        arg(&g0.stored_values, args, 0) is Obj,
        arg(&g0.stored_values, args, 0)->Obj_1 == ObjectMode::Object,
        args.len() == 2 ==> arg(&g0.stored_values, args, 1) is Bool,
    ensures
        args.len() == 1 ==> r is Err && runs.len() == 1 && runs[0].result is Err && *g1 == *g0,
        args.len() == 2 && bool_of(arg(&g0.stored_values, args, 1)) ==> runs.len() >= 1 && runs[0].result is Ok,
{
    if runs.len() == 0 {
        assert(r is Err);
    }
    assert(runs.len() >= 1);
    assert(leaf_ran(Builtin::Add, args, info, g0, c0, runs, 0));
    if args.len() == 1 {
        assert(!crate::globals::may_emit(g0, c0[0], ObjectMode::Object, false));
        assert(runs[0].result is Err);
        if runs.len() > 1 {
            assert(leaf_ran(Builtin::Add, args, info, g0, c0, runs, 1));
        }
        assert(runs.len() == 1);
        assert(runs.last() == runs[0]);
    } else if bool_of(arg(&g0.stored_values, args, 1)) {
        assert(crate::globals::may_emit(g0, c0[0], ObjectMode::Object, true));
    }
}

} // verus!
