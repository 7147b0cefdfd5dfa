use spwn_builtins::builtins::Builtin;
use spwn_builtins::context::{Context, FullContext};
use spwn_builtins::dispatch::built_in_function;
use spwn_builtins::error::RuntimeError;
use spwn_builtins::globals::{context_trigger, Globals, GROUPS_KEY};
use spwn_builtins::ids::{Block, Color, Group, Id, Item};
use spwn_builtins::ops::{op_range, op_unary_range};
use spwn_builtins::store::ValueStore;
use spwn_builtins::value::{CodeArea, ObjParam, ObjectMode, Value};

fn area() -> CodeArea {
    CodeArea { start: 1, end: 2 }
}

fn root() -> Group {
    Group::new(0)
}

fn setup(leaves: &[Group]) -> (Globals, FullContext) {
    let mut g = Globals::new(1);
    let ret = g.stored_values.store(Value::Null, root(), area(), false);
    let mut ctx = FullContext::new(Context::new(root(), 0, ret));
    if leaves.len() > 0 {
        let groups: Vec<Group> = leaves.to_vec();
        ctx.split(0, &groups, area());
    }
    (g, ctx)
}

fn ret_value<'a>(g: &'a Globals, ctx: &FullContext, leaf: usize) -> &'a Value {
    g.stored_values.get(ctx.leaves[leaf].return_value)
}

#[test]
fn group_new_is_specific() {
    assert_eq!(Group::new(12).id, Id::Specific(12));
    assert_eq!(Color::new(3).id, Id::Specific(3));
    assert_eq!(Block::new(4).id, Id::Specific(4));
    assert_eq!(Item::new(5).id, Id::Specific(5));
}

#[test]
fn next_free_mints_successive_ids() {
    let mut counter: u16 = 7;
    let a = Group::next_free(&mut counter);
    let b = Group::next_free(&mut counter);
    assert_eq!(a.id, Id::Arbitrary(8));
    assert_eq!(b.id, Id::Arbitrary(9));
    assert_ne!(a, b);
    assert_eq!(counter, 9);
    let mut colors: u16 = 7;
    let c = Color::next_free(&mut colors);
    assert_eq!(c.id, Id::Arbitrary(8));
    let mut blocks: u16 = 0;
    assert_eq!(Block::next_free(&mut blocks).id, Id::Arbitrary(1));
    let mut items: u16 = 0;
    assert_eq!(Item::next_free(&mut items).id, Id::Arbitrary(1));
}

#[test]
fn group_text_forms() {
    assert_eq!(Group::new(12).to_text(), "12g");
    assert_eq!(Group::new(0).to_text(), "0g");
    assert_eq!(Group { id: Id::Arbitrary(305) }.to_text(), "305?g");
}

#[test]
fn clone_value_is_fresh_equal_and_immutable_on_request() {
    let mut s = ValueStore::new();
    let one = s.store(Value::Number(1), root(), area(), true);
    let text = s.store(Value::Str("x".to_string()), root(), area(), true);
    let arr = s.store(Value::Array(vec![one, text]), root(), area(), true);
    let copy = s.clone_value(arr, root(), true, area());
    assert_ne!(copy, arr);
    assert!(s.value_equality(copy, arr));
    assert!(!s.can_mutate(copy));
    let copy2 = s.clone_value(arr, root(), false, area());
    assert!(s.can_mutate(copy2));
    match s.get(copy) {
        Value::Array(items) => {
            assert_eq!(items.len(), 2);
            assert_ne!(items[0], one);
            assert_ne!(items[1], text);
        }
        _ => panic!("expected an array"),
    }
}

#[test]
fn dictionary_equality_ignores_order() {
    let mut s = ValueStore::new();
    let a = s.store(Value::Number(1), root(), area(), false);
    let b = s.store(Value::Number(2), root(), area(), false);
    let d1 = s.store(Value::Dict(vec![("a".to_string(), a), ("b".to_string(), b)]), root(), area(), false);
    let d2 = s.store(Value::Dict(vec![("b".to_string(), b), ("a".to_string(), a)]), root(), area(), false);
    let d3 = s.store(Value::Dict(vec![("a".to_string(), b), ("b".to_string(), a)]), root(), area(), false);
    assert!(s.value_equality(d1, d2));
    assert!(!s.value_equality(d1, d3));
    let c = s.clone_value(d1, root(), false, area());
    assert!(s.value_equality(c, d2));
}

#[test]
fn mut_parameter_with_immutable_value_fails() {
    let (mut g, mut ctx) = setup(&[]);
    let arr = g.stored_values.store(Value::Array(vec![]), root(), area(), false);
    let val = g.stored_values.store(Value::Number(4), root(), area(), false);
    let r = built_in_function(Builtin::Append, &vec![arr, val], CodeArea { start: 9, end: 9 }, &mut g, &mut ctx);
    assert!(matches!(r, Err(RuntimeError::MutabilityError { val_def, .. }) if val_def == area()));
    match g.stored_values.get(arr) {
        Value::Array(items) => assert!(items.is_empty()),
        _ => panic!("expected an array"),
    }
}

#[test]
fn mutation_from_another_group_fails() {
    let (mut g, mut ctx) = setup(&[Group::new(5)]);
    let arr = g.stored_values.store(Value::Array(vec![]), root(), area(), true);
    let val = g.stored_values.store(Value::Number(4), root(), area(), false);
    let r = built_in_function(Builtin::Append, &vec![arr, val], area(), &mut g, &mut ctx);
    match r {
        Err(RuntimeError::ContextChangeMutateError { context_changes, .. }) => {
            assert_eq!(context_changes.len(), 1);
            assert_eq!(context_changes[0].to, Group::new(5));
        }
        _ => panic!("expected a context change error"),
    }
}

#[test]
fn wrong_argument_count_and_type() {
    let (mut g, mut ctx) = setup(&[]);
    let n = g.stored_values.store(Value::Number(4), root(), area(), false);
    let r = built_in_function(Builtin::Assert, &vec![n, n], area(), &mut g, &mut ctx);
    assert!(matches!(r, Err(RuntimeError::ArityError { expected: 1, found: 2, .. })));
    let r = built_in_function(Builtin::Assert, &vec![n], area(), &mut g, &mut ctx);
    assert!(matches!(r, Err(RuntimeError::TypeError { found: 4, .. })));
}

#[test]
fn permission_can_be_withdrawn() {
    let (mut g, mut ctx) = setup(&[]);
    let t = g.stored_values.store(Value::Bool(true), root(), area(), false);
    g.permissions.set(Builtin::Assert, false);
    let r = built_in_function(Builtin::Assert, &vec![t], area(), &mut g, &mut ctx);
    assert!(matches!(r, Err(RuntimeError::PermissionError { builtin: Builtin::Assert, .. })));
    g.permissions.set(Builtin::Assert, true);
    assert!(built_in_function(Builtin::Assert, &vec![t], area(), &mut g, &mut ctx).is_ok());
}

#[test]
fn assert_true_and_false() {
    let (mut g, mut ctx) = setup(&[]);
    let t = g.stored_values.store(Value::Bool(true), root(), area(), false);
    let f = g.stored_values.store(Value::Bool(false), root(), area(), false);
    assert!(built_in_function(Builtin::Assert, &vec![t], area(), &mut g, &mut ctx).is_ok());
    assert!(matches!(ret_value(&g, &ctx, 0), Value::Null));
    let r = built_in_function(Builtin::Assert, &vec![f], area(), &mut g, &mut ctx);
    match r {
        Err(RuntimeError::BuiltinError { message, .. }) => assert_eq!(message, "Assertion failed"),
        _ => panic!("expected an assertion failure"),
    }
}

#[test]
fn push_then_pop_round_trip() {
    let (mut g, mut ctx) = setup(&[]);
    let arr = g.stored_values.store(Value::Array(vec![]), root(), area(), true);
    let val = g.stored_values.store(Value::Number(42), root(), area(), false);
    built_in_function(Builtin::Append, &vec![arr, val], area(), &mut g, &mut ctx).unwrap();
    match g.stored_values.get(arr) {
        Value::Array(items) => assert_eq!(items.len(), 1),
        _ => panic!("expected an array"),
    }
    built_in_function(Builtin::Pop, &vec![arr], area(), &mut g, &mut ctx).unwrap();
    assert!(matches!(ret_value(&g, &ctx, 0), Value::Number(42)));
    match g.stored_values.get(arr) {
        Value::Array(items) => assert!(items.is_empty()),
        _ => panic!("expected an array"),
    }
    built_in_function(Builtin::Pop, &vec![arr], area(), &mut g, &mut ctx).unwrap();
    assert!(matches!(ret_value(&g, &ctx, 0), Value::Null));
}

#[test]
fn pop_on_string_and_on_number() {
    let (mut g, mut ctx) = setup(&[]);
    let s = g.stored_values.store(Value::Str("abc".to_string()), root(), area(), true);
    built_in_function(Builtin::Pop, &vec![s], area(), &mut g, &mut ctx).unwrap();
    match ret_value(&g, &ctx, 0) {
        Value::Str(c) => assert_eq!(c, "c"),
        _ => panic!("expected a string"),
    }
    match g.stored_values.get(s) {
        Value::Str(t) => assert_eq!(t, "ab"),
        _ => panic!("expected a string"),
    }
    let n = g.stored_values.store(Value::Number(1), root(), area(), true);
    let r = built_in_function(Builtin::Pop, &vec![n], area(), &mut g, &mut ctx);
    assert!(matches!(r, Err(RuntimeError::BuiltinError { .. })));
}

#[test]
fn range_construction() {
    let r = op_range(&Value::Number(1), 5, area(), area()).unwrap();
    assert!(matches!(r, Value::Range(1, 5, 1)));
    let stepped = op_range(&Value::Range(1, 2, 1), 9, area(), area()).unwrap();
    assert!(matches!(stepped, Value::Range(1, 9, 2)));
    let again = op_range(&Value::Range(1, 9, 2), 20, area(), area());
    assert!(matches!(again, Err(RuntimeError::CustomError { .. })));
    let bad_step = op_range(&Value::Range(1, 0, 1), 20, area(), area());
    assert!(matches!(bad_step, Err(RuntimeError::CustomError { .. })));
    let not_number = op_range(&Value::Bool(true), 20, area(), area());
    assert!(matches!(not_number, Err(RuntimeError::TypeError { found: 5, .. })));
    assert!(matches!(op_unary_range(4), Value::Range(0, 4, 1)));
}

#[test]
fn range_through_dispatch() {
    let (mut g, mut ctx) = setup(&[]);
    let a = g.stored_values.store(Value::Number(1), root(), area(), false);
    let b = g.stored_values.store(Value::Number(5), root(), area(), false);
    built_in_function(Builtin::RangeOp, &vec![a, b], area(), &mut g, &mut ctx).unwrap();
    assert!(matches!(ret_value(&g, &ctx, 0), Value::Range(1, 5, 1)));
}

fn object(g: &mut Globals, mode: ObjectMode) -> usize {
    let pairs = vec![(1u16, ObjParam::Number(1)), (2u16, ObjParam::Number(45)), (1u16, ObjParam::Number(3))];
    g.stored_values.store(Value::Obj(pairs, mode), root(), area(), false)
}

#[test]
fn objects_need_the_root_group_or_an_override() {
    let (mut g, mut ctx) = setup(&[Group::new(3)]);
    let obj = object(&mut g, ObjectMode::Object);
    let r = built_in_function(Builtin::Add, &vec![obj], area(), &mut g, &mut ctx);
    assert!(matches!(r, Err(RuntimeError::BuiltinError { .. })));
    assert!(g.objects.is_empty());
    let yes = g.stored_values.store(Value::Bool(true), root(), area(), false);
    built_in_function(Builtin::Add, &vec![obj, yes], area(), &mut g, &mut ctx).unwrap();
    assert_eq!(g.objects.len(), 1);
    assert_eq!(g.objects[0].mode, ObjectMode::Object);
    assert_eq!(g.objects[0].params.len(), 2);
}

#[test]
fn objects_from_the_root_group() {
    let (mut g, mut ctx) = setup(&[]);
    let obj = object(&mut g, ObjectMode::Object);
    built_in_function(Builtin::Add, &vec![obj], area(), &mut g, &mut ctx).unwrap();
    assert_eq!(g.objects.len(), 1);
    assert_eq!(g.objects[0].unique_id, 1);
}

#[test]
fn triggers_take_increasing_keys_across_leaves() {
    let (mut g, mut ctx) = setup(&[Group::new(4), Group::new(9)]);
    let trig = object(&mut g, ObjectMode::Trigger);
    built_in_function(Builtin::Add, &vec![trig], area(), &mut g, &mut ctx).unwrap();
    let list = &g.func_ids[0].obj_list;
    assert_eq!(list.len(), 2);
    assert!(list[0].1 < list[1].1);
    assert_eq!(list[0].1, 1);
    assert_eq!(list[1].1, 2);
    let group_of = |o: &spwn_builtins::globals::GdObj| {
        o.params.iter().find(|p| p.0 == GROUPS_KEY).map(|p| match p.1 {
            ObjParam::Group(g) => g,
            _ => panic!("expected a group"),
        })
    };
    assert_eq!(group_of(&list[0].0), Some(Group::new(4)));
    assert_eq!(group_of(&list[1].0), Some(Group::new(9)));
    assert_eq!(g.trigger_order, 2);
}

#[test]
fn later_object_pairs_overwrite_earlier() {
    let (mut g, mut ctx) = setup(&[]);
    let obj = object(&mut g, ObjectMode::Object);
    built_in_function(Builtin::Add, &vec![obj], area(), &mut g, &mut ctx).unwrap();
    let p = g.objects[0].params.iter().find(|p| p.0 == 1).unwrap();
    assert!(matches!(p.1, ObjParam::Number(3)));
}

#[test]
fn context_trigger_sets_group_and_id() {
    let c = Context::new(Group::new(7), 0, 0);
    let mut uid: usize = 10;
    let t = context_trigger(&c, &mut uid);
    assert_eq!(uid, 11);
    assert_eq!(t.unique_id, 11);
    assert_eq!(t.mode, ObjectMode::Trigger);
    assert!(t.params.iter().any(|p| p.0 == GROUPS_KEY && matches!(p.1, ObjParam::Group(g) if g == Group::new(7))));
}

#[test]
fn split_forks_leaves_in_order() {
    let (_g, ctx) = setup(&[Group::new(1), Group::new(2), Group::new(3)]);
    assert_eq!(ctx.leaf_count(), 3);
    assert_eq!(ctx.leaves[1].start_group, Group::new(2));
    assert_eq!(ctx.leaves[2].fn_context_change_stack[0].from, root());
    let (_g, mut ctx) = setup(&[Group::new(1)]);
    ctx.split(0, &vec![], area());
    assert_eq!(ctx.leaf_count(), 0);
}

#[test]
fn arithmetic_operators() {
    let (mut g, mut ctx) = setup(&[]);
    let a = g.stored_values.store(Value::Number(7), root(), area(), true);
    let b = g.stored_values.store(Value::Number(3), root(), area(), false);
    built_in_function(Builtin::PlusOp, &vec![a, b], area(), &mut g, &mut ctx).unwrap();
    assert!(matches!(ret_value(&g, &ctx, 0), Value::Number(10)));
    built_in_function(Builtin::MinusOp, &vec![a, b], area(), &mut g, &mut ctx).unwrap();
    assert!(matches!(ret_value(&g, &ctx, 0), Value::Number(4)));
    built_in_function(Builtin::LessThanOp, &vec![a, b], area(), &mut g, &mut ctx).unwrap();
    assert!(matches!(ret_value(&g, &ctx, 0), Value::Bool(false)));
    built_in_function(Builtin::MoreOrEqOp, &vec![a, b], area(), &mut g, &mut ctx).unwrap();
    assert!(matches!(ret_value(&g, &ctx, 0), Value::Bool(true)));
    built_in_function(Builtin::IncrOp, &vec![a], area(), &mut g, &mut ctx).unwrap();
    assert!(matches!(ret_value(&g, &ctx, 0), Value::Number(7)));
    assert!(matches!(g.stored_values.get(a), Value::Number(8)));
    built_in_function(Builtin::PreDecrOp, &vec![a], area(), &mut g, &mut ctx).unwrap();
    assert!(matches!(ret_value(&g, &ctx, 0), Value::Number(7)));
    built_in_function(Builtin::SubtractOp, &vec![a, b], area(), &mut g, &mut ctx).unwrap();
    assert!(matches!(g.stored_values.get(a), Value::Number(4)));
    built_in_function(Builtin::AddOp, &vec![a, b], area(), &mut g, &mut ctx).unwrap();
    assert!(matches!(g.stored_values.get(a), Value::Number(7)));
    built_in_function(Builtin::NegOp, &vec![b], area(), &mut g, &mut ctx).unwrap();
    assert!(matches!(ret_value(&g, &ctx, 0), Value::Number(-3)));
    built_in_function(Builtin::Min, &vec![a, b], area(), &mut g, &mut ctx).unwrap();
    assert!(matches!(ret_value(&g, &ctx, 0), Value::Number(3)));
    built_in_function(Builtin::Max, &vec![a, b], area(), &mut g, &mut ctx).unwrap();
    assert!(matches!(ret_value(&g, &ctx, 0), Value::Number(7)));
}

#[test]
fn overflow_is_an_error() {
    let (mut g, mut ctx) = setup(&[]);
    let big = g.stored_values.store(Value::Number(i64::MAX), root(), area(), true);
    let one = g.stored_values.store(Value::Number(1), root(), area(), false);
    let r = built_in_function(Builtin::PlusOp, &vec![big, one], area(), &mut g, &mut ctx);
    assert!(matches!(r, Err(RuntimeError::CustomError { .. })));
    let r = built_in_function(Builtin::IncrOp, &vec![big], area(), &mut g, &mut ctx);
    assert!(matches!(r, Err(RuntimeError::CustomError { .. })));
    assert!(matches!(g.stored_values.get(big), Value::Number(i64::MAX)));
}

#[test]
fn strings_and_arrays_concatenate() {
    let (mut g, mut ctx) = setup(&[]);
    let a = g.stored_values.store(Value::Str("ab".to_string()), root(), area(), true);
    let b = g.stored_values.store(Value::Str("cd".to_string()), root(), area(), false);
    built_in_function(Builtin::PlusOp, &vec![a, b], area(), &mut g, &mut ctx).unwrap();
    match ret_value(&g, &ctx, 0) {
        Value::Str(t) => assert_eq!(t, "abcd"),
        _ => panic!("expected a string"),
    }
    built_in_function(Builtin::AddOp, &vec![a, b], area(), &mut g, &mut ctx).unwrap();
    match g.stored_values.get(a) {
        Value::Str(t) => assert_eq!(t, "abcd"),
        _ => panic!("expected a string"),
    }
    let x = g.stored_values.store(Value::Number(1), root(), area(), false);
    let arr1 = g.stored_values.store(Value::Array(vec![x]), root(), area(), true);
    let arr2 = g.stored_values.store(Value::Array(vec![x, x]), root(), area(), false);
    built_in_function(Builtin::PlusOp, &vec![arr1, arr2], area(), &mut g, &mut ctx).unwrap();
    match ret_value(&g, &ctx, 0) {
        Value::Array(items) => {
            assert_eq!(items.len(), 3);
            assert!(items.iter().all(|i| *i != x));
        }
        _ => panic!("expected an array"),
    }
    built_in_function(Builtin::AddOp, &vec![arr1, arr2], area(), &mut g, &mut ctx).unwrap();
    match g.stored_values.get(arr1) {
        Value::Array(items) => assert_eq!(items.len(), 3),
        _ => panic!("expected an array"),
    }
    let r = built_in_function(Builtin::PlusOp, &vec![a, x], area(), &mut g, &mut ctx);
    assert!(matches!(r, Err(RuntimeError::CustomError { .. })));
}

#[test]
fn equality_assignment_and_swap() {
    let (mut g, mut ctx) = setup(&[]);
    let one = g.stored_values.store(Value::Number(1), root(), area(), false);
    let a1 = g.stored_values.store(Value::Array(vec![one]), root(), area(), true);
    let one2 = g.stored_values.store(Value::Number(1), root(), area(), false);
    let a2 = g.stored_values.store(Value::Array(vec![one2]), root(), area(), true);
    let s = g.stored_values.store(Value::Str("z".to_string()), root(), area(), true);
    built_in_function(Builtin::EqOp, &vec![a1, a2], area(), &mut g, &mut ctx).unwrap();
    assert!(matches!(ret_value(&g, &ctx, 0), Value::Bool(true)));
    built_in_function(Builtin::NotEqOp, &vec![a1, s], area(), &mut g, &mut ctx).unwrap();
    assert!(matches!(ret_value(&g, &ctx, 0), Value::Bool(true)));
    let here = CodeArea { start: 40, end: 41 };
    built_in_function(Builtin::SwapOp, &vec![a1, s], here, &mut g, &mut ctx).unwrap();
    assert!(matches!(g.stored_values.get(a1), Value::Str(_)));
    assert!(matches!(g.stored_values.get(s), Value::Array(_)));
    assert_eq!(g.stored_values.get_area(a1), here);
    built_in_function(Builtin::AssignOp, &vec![a1, a2], here, &mut g, &mut ctx).unwrap();
    built_in_function(Builtin::EqOp, &vec![a1, a2], area(), &mut g, &mut ctx).unwrap();
    assert!(matches!(ret_value(&g, &ctx, 0), Value::Bool(true)));
}

#[test]
fn mutability_and_context_builtins() {
    let (mut g, mut ctx) = setup(&[Group::new(6)]);
    let c = g.stored_values.store(Value::Number(1), root(), area(), false);
    let m = g.stored_values.store(Value::Number(1), root(), area(), true);
    built_in_function(Builtin::Mutability, &vec![c], area(), &mut g, &mut ctx).unwrap();
    assert!(matches!(ret_value(&g, &ctx, 0), Value::Bool(false)));
    built_in_function(Builtin::Mutability, &vec![m], area(), &mut g, &mut ctx).unwrap();
    assert!(matches!(ret_value(&g, &ctx, 0), Value::Bool(true)));
    built_in_function(Builtin::TriggerFnContext, &vec![], area(), &mut g, &mut ctx).unwrap();
    assert!(matches!(ret_value(&g, &ctx, 0), Value::Group(gr) if *gr == Group::new(6)));
}

#[test]
fn base64_round_trip() {
    let (mut g, mut ctx) = setup(&[]);
    let s = g.stored_values.store(Value::Str("hello there".to_string()), root(), area(), false);
    built_in_function(Builtin::B64Encode, &vec![s], area(), &mut g, &mut ctx).unwrap();
    match ret_value(&g, &ctx, 0) {
        Value::Str(t) => assert_eq!(t, "aGVsbG8gdGhlcmU="),
        _ => panic!("expected a string"),
    }
    let e = g.stored_values.store(Value::Str("aGVsbG8gdGhlcmU=".to_string()), root(), area(), false);
    built_in_function(Builtin::B64Decode, &vec![e], area(), &mut g, &mut ctx).unwrap();
    match ret_value(&g, &ctx, 0) {
        Value::Str(t) => assert_eq!(t, "hello there"),
        _ => panic!("expected a string"),
    }
    let bad = g.stored_values.store(Value::Str("%%%".to_string()), root(), area(), false);
    let r = built_in_function(Builtin::B64Decode, &vec![bad], area(), &mut g, &mut ctx);
    assert!(matches!(r, Err(RuntimeError::BuiltinError { .. })));
}

#[test]
fn members_of_values() {
    let (mut g, ctx) = setup(&[]);
    let c = &ctx.leaves[0];
    let len = Value::Str("héllo".to_string()).member(&"length".to_string(), c, &mut g, area()).unwrap();
    assert!(matches!(g.stored_values.get(len), Value::Number(6)));
    let r = Value::Range(2, 8, 3);
    let st = r.member(&"start".to_string(), c, &mut g, area()).unwrap();
    assert!(matches!(g.stored_values.get(st), Value::Number(2)));
    let en = r.member(&"end".to_string(), c, &mut g, area()).unwrap();
    assert!(matches!(g.stored_values.get(en), Value::Number(8)));
    let sz = r.member(&"step_size".to_string(), c, &mut g, area()).unwrap();
    assert!(matches!(g.stored_values.get(sz), Value::Number(3)));
    let ty = Value::Number(3).member(&"type".to_string(), c, &mut g, area()).unwrap();
    assert!(matches!(g.stored_values.get(ty), Value::TypeIndicator(4)));
    let b = Value::Builtins.member(&"assert".to_string(), c, &mut g, area()).unwrap();
    assert!(matches!(g.stored_values.get(b), Value::BuiltinFunction(Builtin::Assert)));
    assert!(Value::Builtins.member(&"nope".to_string(), c, &mut g, area()).is_none());
    let x = g.stored_values.store(Value::Number(9), root(), area(), false);
    let d = Value::Dict(vec![("x".to_string(), x)]);
    assert_eq!(d.member(&"x".to_string(), c, &mut g, area()), Some(x));
    assert!(d.member(&"y".to_string(), c, &mut g, area()).is_none());
    let method = g.stored_values.store(Value::Number(0), root(), area(), false);
    g.implementations.push((4, vec![("double".to_string(), method)]));
    assert_eq!(Value::Number(1).member(&"double".to_string(), c, &mut g, area()), Some(method));
    let tf = Value::TriggerFunc(spwn_builtins::value::TriggerFunction { start_group: Group::new(2) });
    let sg = tf.member(&"start_group".to_string(), c, &mut g, area()).unwrap();
    assert!(matches!(g.stored_values.get(sg), Value::Group(gr) if *gr == Group::new(2)));
}

#[test]
fn dictionary_type_member_overrides() {
    let (mut g, ctx) = setup(&[]);
    let c = &ctx.leaves[0];
    let t = g.stored_values.store(Value::TypeIndicator(19), root(), area(), false);
    let d = Value::Dict(vec![("type".to_string(), t)]);
    assert_eq!(d.member(&"type".to_string(), c, &mut g, area()), Some(t));
}

#[test]
fn builtin_names_round_trip() {
    assert_eq!(Builtin::from_name("_range_"), Some(Builtin::RangeOp));
    assert_eq!(Builtin::RangeOp.name(), "_range_");
    assert_eq!(Builtin::from_name("append"), Some(Builtin::Append));
    assert_eq!(Builtin::from_name("unknown"), None);
}
