use spwn_builtins::builtins::Builtin;
use spwn_builtins::context::{Context, FullContext};
use spwn_builtins::dispatch::built_in_function;
use spwn_builtins::error::RuntimeError;
use spwn_builtins::globals::Globals;
use spwn_builtins::ids::Group;
use spwn_builtins::ops::{extend_trigger_func, op_substr};
use spwn_builtins::value::{CodeArea, ObjParam, ObjectMode, Pattern, TriggerFunction, Value};

fn area() -> CodeArea {
    CodeArea { start: 3, end: 4 }
}

fn root() -> Group {
    Group::new(0)
}

fn setup() -> (Globals, FullContext) {
    let mut g = Globals::new(1);
    let ret = g.stored_values.store(Value::Null, root(), area(), false);
    (g, FullContext::new(Context::new(root(), 0, ret)))
}

fn put(g: &mut Globals, v: Value, mutable: bool) -> usize {
    g.stored_values.store(v, root(), area(), mutable)
}

fn run(g: &mut Globals, ctx: &mut FullContext, b: Builtin, args: Vec<usize>) -> Result<(), RuntimeError> {
    built_in_function(b, &args, area(), g, ctx)
}

fn result<'a>(g: &'a Globals, ctx: &FullContext) -> &'a Value {
    g.stored_values.get(ctx.leaves[0].return_value)
}

fn text(v: &Value) -> String {
    match v {
        Value::Str(s) => s.clone(),
        _ => panic!("expected a string"),
    }
}

fn pairs_of(g: &Globals, i: usize) -> Vec<(u16, ObjParam)> {
    match g.stored_values.get(i) {
        Value::Obj(p, _) => p.clone(),
        _ => panic!("expected an object"),
    }
}

#[test]
fn edit_obj_sets_and_keeps_unique_pairs() {
    let (mut g, mut ctx) = setup();
    let o = put(&mut g, Value::Obj(vec![], ObjectMode::Object), true);
    let key = put(&mut g, Value::Number(6), false);
    let val = put(&mut g, Value::Number(180), false);
    run(&mut g, &mut ctx, Builtin::EditObj, vec![o, key, val]).unwrap();
    run(&mut g, &mut ctx, Builtin::EditObj, vec![o, key, val]).unwrap();
    let p = pairs_of(&g, o);
    assert_eq!(p.len(), 1);
    assert_eq!(p[0].0, 6);
    assert!(matches!(p[0].1, ObjParam::Number(180)));
    let other = put(&mut g, Value::Str("hi".to_string()), false);
    run(&mut g, &mut ctx, Builtin::EditObj, vec![o, key, other]).unwrap();
    assert_eq!(pairs_of(&g, o).len(), 2);
}

#[test]
fn edit_obj_converts_values() {
    let (mut g, mut ctx) = setup();
    let o = put(&mut g, Value::Obj(vec![], ObjectMode::Object), true);
    let key = put(&mut g, Value::Number(57), false);
    let g1 = put(&mut g, Value::Group(Group::new(1)), false);
    let g2 = put(&mut g, Value::Group(Group::new(2)), false);
    let list = put(&mut g, Value::Array(vec![g1, g2]), false);
    run(&mut g, &mut ctx, Builtin::EditObj, vec![o, key, list]).unwrap();
    match &pairs_of(&g, o)[0].1 {
        ObjParam::GroupList(gs) => assert_eq!(gs, &vec![Group::new(1), Group::new(2)]),
        _ => panic!("expected a group list"),
    }
    let n = put(&mut g, Value::Number(1), false);
    let bad = put(&mut g, Value::Array(vec![n]), false);
    let r = run(&mut g, &mut ctx, Builtin::EditObj, vec![o, key, bad]);
    assert!(matches!(r, Err(RuntimeError::CustomError { .. })));
    let null = put(&mut g, Value::Null, false);
    let r = run(&mut g, &mut ctx, Builtin::EditObj, vec![o, key, null]);
    assert!(matches!(r, Err(RuntimeError::CustomError { .. })));
}

#[test]
fn edit_obj_protects_trigger_group_keys() {
    let (mut g, mut ctx) = setup();
    let t = put(&mut g, Value::Obj(vec![], ObjectMode::Trigger), true);
    let val = put(&mut g, Value::Group(Group::new(3)), false);
    for k in [57i64, 62] {
        let key = put(&mut g, Value::Number(k), false);
        let r = run(&mut g, &mut ctx, Builtin::EditObj, vec![t, key, val]);
        assert!(matches!(r, Err(RuntimeError::CustomError { .. })));
    }
    assert!(pairs_of(&g, t).is_empty());
    let o = put(&mut g, Value::Obj(vec![], ObjectMode::Object), true);
    let key = put(&mut g, Value::Number(57), false);
    run(&mut g, &mut ctx, Builtin::EditObj, vec![o, key, val]).unwrap();
}

#[test]
fn edit_obj_with_object_key() {
    let (mut g, mut ctx) = setup();
    let o = put(&mut g, Value::Obj(vec![], ObjectMode::Object), true);
    let ty = put(&mut g, Value::TypeIndicator(19), false);
    let id = put(&mut g, Value::Number(10), false);
    let pat = put(&mut g, Value::TypeIndicator(4), false);
    let key = put(&mut g, Value::Dict(vec![("type".to_string(), ty), ("id".to_string(), id), ("pattern".to_string(), pat)]), false);
    let num = put(&mut g, Value::Number(5), false);
    run(&mut g, &mut ctx, Builtin::EditObj, vec![o, key, num]).unwrap();
    assert_eq!(pairs_of(&g, o)[0].0, 10);
    let s = put(&mut g, Value::Str("x".to_string()), false);
    let r = run(&mut g, &mut ctx, Builtin::EditObj, vec![o, key, s]);
    assert!(matches!(r, Err(RuntimeError::TypeError { .. })));
    let no_id = put(&mut g, Value::Dict(vec![("type".to_string(), ty)]), false);
    let r = run(&mut g, &mut ctx, Builtin::EditObj, vec![o, no_id, num]);
    assert!(matches!(r, Err(RuntimeError::CustomError { .. })));
    let plain = put(&mut g, Value::Dict(vec![]), false);
    let r = run(&mut g, &mut ctx, Builtin::EditObj, vec![o, plain, num]);
    assert!(matches!(r, Err(RuntimeError::TypeError { .. })));
}

#[test]
fn has_operator() {
    let (mut g, mut ctx) = setup();
    let one = put(&mut g, Value::Number(1), false);
    let two = put(&mut g, Value::Number(2), false);
    let arr = put(&mut g, Value::Array(vec![one]), false);
    run(&mut g, &mut ctx, Builtin::HasOp, vec![arr, one]).unwrap();
    assert!(matches!(result(&g, &ctx), Value::Bool(true)));
    run(&mut g, &mut ctx, Builtin::HasOp, vec![arr, two]).unwrap();
    assert!(matches!(result(&g, &ctx), Value::Bool(false)));
    let d = put(&mut g, Value::Dict(vec![("a".to_string(), one)]), false);
    let a = put(&mut g, Value::Str("a".to_string()), false);
    run(&mut g, &mut ctx, Builtin::HasOp, vec![d, a]).unwrap();
    assert!(matches!(result(&g, &ctx), Value::Bool(true)));
    let hay = put(&mut g, Value::Str("banana".to_string()), false);
    let needle = put(&mut g, Value::Str("nan".to_string()), false);
    run(&mut g, &mut ctx, Builtin::HasOp, vec![hay, needle]).unwrap();
    assert!(matches!(result(&g, &ctx), Value::Bool(true)));
    run(&mut g, &mut ctx, Builtin::HasOp, vec![needle, hay]).unwrap();
    assert!(matches!(result(&g, &ctx), Value::Bool(false)));
    let o = put(&mut g, Value::Obj(vec![(2, ObjParam::Number(1))], ObjectMode::Object), false);
    run(&mut g, &mut ctx, Builtin::HasOp, vec![o, two]).unwrap();
    assert!(matches!(result(&g, &ctx), Value::Bool(true)));
    let r = run(&mut g, &mut ctx, Builtin::HasOp, vec![hay, one]);
    assert!(matches!(r, Err(RuntimeError::TypeError { .. })));
    let r = run(&mut g, &mut ctx, Builtin::HasOp, vec![one, one]);
    assert!(matches!(r, Err(RuntimeError::TypeError { .. })));
}

#[test]
fn patterns_match_by_type() {
    let (mut g, mut ctx) = setup();
    let one = put(&mut g, Value::Number(1), false);
    let two = put(&mut g, Value::Number(2), false);
    let arr = put(&mut g, Value::Array(vec![one, two]), false);
    let number = put(&mut g, Value::TypeIndicator(4), false);
    let string = put(&mut g, Value::TypeIndicator(9), false);
    run(&mut g, &mut ctx, Builtin::Matches, vec![one, number]).unwrap();
    assert!(matches!(result(&g, &ctx), Value::Bool(true)));
    run(&mut g, &mut ctx, Builtin::Matches, vec![one, string]).unwrap();
    assert!(matches!(result(&g, &ctx), Value::Bool(false)));
    let of_numbers = put(&mut g, Value::Pattern(Pattern::Array(Box::new(Pattern::Type(4)))), false);
    run(&mut g, &mut ctx, Builtin::Matches, vec![arr, of_numbers]).unwrap();
    assert!(matches!(result(&g, &ctx), Value::Bool(true)));
    run(&mut g, &mut ctx, Builtin::EitherOp, vec![string, number]).unwrap();
    let either = ctx.leaves[0].return_value;
    assert!(matches!(g.stored_values.get(either), Value::Pattern(Pattern::Either(_, _))));
    run(&mut g, &mut ctx, Builtin::Matches, vec![one, either]).unwrap();
    assert!(matches!(result(&g, &ctx), Value::Bool(true)));
    let r = run(&mut g, &mut ctx, Builtin::Matches, vec![one, one]);
    assert!(matches!(r, Err(RuntimeError::TypeError { .. })));
}

#[test]
fn random_picks_from_the_array() {
    let (mut g, mut ctx) = setup();
    let a = put(&mut g, Value::Number(3), false);
    let b = put(&mut g, Value::Number(6), false);
    let arr = put(&mut g, Value::Array(vec![a, b]), false);
    for _ in 0..10 {
        run(&mut g, &mut ctx, Builtin::Random, vec![arr]).unwrap();
        assert!(matches!(result(&g, &ctx), Value::Number(3) | Value::Number(6)));
    }
    let five = put(&mut g, Value::Number(5), false);
    run(&mut g, &mut ctx, Builtin::Random, vec![arr, five]).unwrap();
    match result(&g, &ctx) {
        Value::Array(items) => {
            assert_eq!(items.len(), 5);
            for i in items {
                assert!(matches!(g.stored_values.get(*i), Value::Number(3) | Value::Number(6)));
            }
        }
        _ => panic!("expected an array"),
    }
    let empty = put(&mut g, Value::Array(vec![]), false);
    run(&mut g, &mut ctx, Builtin::Random, vec![empty]).unwrap();
    assert!(matches!(result(&g, &ctx), Value::Null));
    let r = run(&mut g, &mut ctx, Builtin::Random, vec![]);
    assert!(matches!(r, Err(RuntimeError::BuiltinError { .. })));
    let r = run(&mut g, &mut ctx, Builtin::Random, vec![five]);
    assert!(matches!(r, Err(RuntimeError::BuiltinError { .. })));
}

#[test]
fn regex_modes() {
    let (mut g, mut ctx) = setup();
    let re = put(&mut g, Value::Str("a+".to_string()), false);
    let s = put(&mut g, Value::Str("baaac".to_string()), false);
    let rep = put(&mut g, Value::Str("x".to_string()), false);
    let m = put(&mut g, Value::Str("match".to_string()), false);
    run(&mut g, &mut ctx, Builtin::Regex, vec![re, s, m, rep]).unwrap();
    assert!(matches!(result(&g, &ctx), Value::Bool(true)));
    let r = put(&mut g, Value::Str("replace".to_string()), false);
    run(&mut g, &mut ctx, Builtin::Regex, vec![re, s, r, rep]).unwrap();
    assert_eq!(text(result(&g, &ctx)), "bxc");
    let f = put(&mut g, Value::Str("findall".to_string()), false);
    run(&mut g, &mut ctx, Builtin::Regex, vec![re, s, f, rep]).unwrap();
    match result(&g, &ctx) {
        Value::Array(found) => {
            assert_eq!(found.len(), 1);
            match g.stored_values.get(found[0]) {
                Value::Array(pair) => {
                    assert!(matches!(g.stored_values.get(pair[0]), Value::Number(1)));
                    assert!(matches!(g.stored_values.get(pair[1]), Value::Number(4)));
                }
                _ => panic!("expected a pair"),
            }
        }
        _ => panic!("expected an array"),
    }
    let bad = put(&mut g, Value::Str("(".to_string()), false);
    assert!(matches!(run(&mut g, &mut ctx, Builtin::Regex, vec![bad, s, m, rep]), Err(RuntimeError::BuiltinError { .. })));
    let mode = put(&mut g, Value::Str("count".to_string()), false);
    assert!(matches!(run(&mut g, &mut ctx, Builtin::Regex, vec![re, s, mode, rep]), Err(RuntimeError::BuiltinError { .. })));
    let n = put(&mut g, Value::Number(1), false);
    assert!(matches!(run(&mut g, &mut ctx, Builtin::Regex, vec![re, s, r, n]), Err(RuntimeError::BuiltinError { .. })));
}

#[test]
fn repetition_operators() {
    let (mut g, mut ctx) = setup();
    let three = put(&mut g, Value::Number(3), false);
    let six = put(&mut g, Value::Number(6), true);
    run(&mut g, &mut ctx, Builtin::TimesOp, vec![six, three]).unwrap();
    assert!(matches!(result(&g, &ctx), Value::Number(18)));
    let s = put(&mut g, Value::Str("ab".to_string()), true);
    run(&mut g, &mut ctx, Builtin::TimesOp, vec![s, three]).unwrap();
    assert_eq!(text(result(&g, &ctx)), "ababab");
    let one = put(&mut g, Value::Number(1), false);
    let arr = put(&mut g, Value::Array(vec![one]), false);
    run(&mut g, &mut ctx, Builtin::TimesOp, vec![arr, three]).unwrap();
    match result(&g, &ctx) {
        Value::Array(items) => assert_eq!(items.len(), 3),
        _ => panic!("expected an array"),
    }
    let minus = put(&mut g, Value::Number(-1), false);
    assert!(matches!(run(&mut g, &mut ctx, Builtin::TimesOp, vec![s, minus]), Err(RuntimeError::CustomError { .. })));
    run(&mut g, &mut ctx, Builtin::MultiplyOp, vec![six, three]).unwrap();
    assert!(matches!(g.stored_values.get(six), Value::Number(18)));
    run(&mut g, &mut ctx, Builtin::MultiplyOp, vec![s, three]).unwrap();
    assert_eq!(text(g.stored_values.get(s)), "ababab");
    let big = put(&mut g, Value::Number(i64::MAX), true);
    assert!(matches!(run(&mut g, &mut ctx, Builtin::MultiplyOp, vec![big, three]), Err(RuntimeError::CustomError { .. })));
}

#[test]
fn remove_index_and_substr() {
    let (mut g, mut ctx) = setup();
    let a = put(&mut g, Value::Number(1), false);
    let b = put(&mut g, Value::Number(2), false);
    let arr = put(&mut g, Value::Array(vec![a, b]), true);
    let zero = put(&mut g, Value::Number(0), false);
    run(&mut g, &mut ctx, Builtin::RemoveIndex, vec![arr, zero]).unwrap();
    assert!(matches!(result(&g, &ctx), Value::Number(1)));
    match g.stored_values.get(arr) {
        Value::Array(items) => assert_eq!(items, &vec![b]),
        _ => panic!("expected an array"),
    }
    let five = put(&mut g, Value::Number(5), false);
    assert!(matches!(run(&mut g, &mut ctx, Builtin::RemoveIndex, vec![arr, five]), Err(RuntimeError::BuiltinError { .. })));
    let s = put(&mut g, Value::Str("héllo".to_string()), true);
    let one = put(&mut g, Value::Number(1), false);
    run(&mut g, &mut ctx, Builtin::RemoveIndex, vec![s, one]).unwrap();
    assert_eq!(text(result(&g, &ctx)), "é");
    assert_eq!(text(g.stored_values.get(s)), "hllo");
    let sub = op_substr(&"hello".to_string(), 1, 3, area()).unwrap();
    assert_eq!(text(&sub), "el");
    assert!(matches!(op_substr(&"hello".to_string(), 3, 3, area()), Err(RuntimeError::BuiltinError { .. })));
    assert!(matches!(op_substr(&"hello".to_string(), 1, 9, area()), Err(RuntimeError::BuiltinError { .. })));
    let str_arg = put(&mut g, Value::Str("hello".to_string()), false);
    let four = put(&mut g, Value::Number(4), false);
    run(&mut g, &mut ctx, Builtin::Substr, vec![str_arg, one, four]).unwrap();
    assert_eq!(text(result(&g, &ctx)), "ell");
}

#[test]
fn unary_operators() {
    let (mut g, mut ctx) = setup();
    let t = put(&mut g, Value::Bool(true), false);
    let f = put(&mut g, Value::Bool(false), false);
    run(&mut g, &mut ctx, Builtin::NotOp, vec![t]).unwrap();
    assert!(matches!(result(&g, &ctx), Value::Bool(false)));
    run(&mut g, &mut ctx, Builtin::OrOp, vec![t, f]).unwrap();
    assert!(matches!(result(&g, &ctx), Value::Bool(true)));
    run(&mut g, &mut ctx, Builtin::AndOp, vec![t, f]).unwrap();
    assert!(matches!(result(&g, &ctx), Value::Bool(false)));
    let n = put(&mut g, Value::Number(-4), true);
    run(&mut g, &mut ctx, Builtin::Abs, vec![n]).unwrap();
    assert!(matches!(result(&g, &ctx), Value::Number(4)));
    run(&mut g, &mut ctx, Builtin::UnaryRangeOp, vec![n]).unwrap();
    assert!(matches!(result(&g, &ctx), Value::Range(0, -4, 1)));
    run(&mut g, &mut ctx, Builtin::DecrOp, vec![n]).unwrap();
    assert!(matches!(result(&g, &ctx), Value::Number(-4)));
    run(&mut g, &mut ctx, Builtin::PreIncrOp, vec![n]).unwrap();
    assert!(matches!(result(&g, &ctx), Value::Number(-4)));
    run(&mut g, &mut ctx, Builtin::MoreThanOp, vec![n, n]).unwrap();
    assert!(matches!(result(&g, &ctx), Value::Bool(false)));
    run(&mut g, &mut ctx, Builtin::LessOrEqOp, vec![n, n]).unwrap();
    assert!(matches!(result(&g, &ctx), Value::Bool(true)));
    let min = put(&mut g, Value::Number(i64::MIN), false);
    assert!(matches!(run(&mut g, &mut ctx, Builtin::NegOp, vec![min]), Err(RuntimeError::CustomError { .. })));
}

#[test]
fn extending_a_trigger_function_forks_the_branch() {
    let (mut g, mut ctx) = setup();
    let target = put(&mut g, Value::TriggerFunc(TriggerFunction { start_group: Group::new(10) }), false);
    let mac = put(&mut g, Value::Macro(7), false);
    let (leaf, handle) = extend_trigger_func(&vec![target, mac], area(), &g.stored_values, &mut ctx, 0).unwrap();
    assert_eq!(leaf, 1);
    assert_eq!(handle, 7);
    assert_eq!(ctx.leaf_count(), 2);
    assert_eq!(ctx.leaves[1].start_group, Group::new(10));
    assert_eq!(ctx.leaves[1].fn_context_change_stack.len(), 1);
    assert_eq!(ctx.leaves[1].fn_context_change_stack[0].from, root());
    assert_eq!(ctx.leaves[0].start_group, root());
    let num = put(&mut g, Value::Number(1), false);
    let r = extend_trigger_func(&vec![num, mac], area(), &g.stored_values, &mut ctx, 0);
    assert!(matches!(r, Err(RuntimeError::BuiltinError { .. })));
    let r = extend_trigger_func(&vec![target, num], area(), &g.stored_values, &mut ctx, 0);
    assert!(matches!(r, Err(RuntimeError::TypeError { .. })));
    assert_eq!(ctx.leaf_count(), 2);
    assert_eq!(Builtin::from_name("extend_trigger_func"), Some(Builtin::ExtendTriggerFunc));
}

#[test]
fn split_str_pieces() {
    let (mut g, mut ctx) = setup();
    let s = put(&mut g, Value::Str("1,2,,3".to_string()), false);
    let sep = put(&mut g, Value::Str(",".to_string()), false);
    run(&mut g, &mut ctx, Builtin::SplitStr, vec![s, sep]).unwrap();
    let pieces: Vec<String> = match result(&g, &ctx) {
        Value::Array(items) => items.iter().map(|i| text(g.stored_values.get(*i))).collect(),
        _ => panic!("expected an array"),
    };
    assert_eq!(pieces, vec!["1", "2", "", "3"]);
    let long = put(&mut g, Value::Str("ab".to_string()), false);
    let none = put(&mut g, Value::Str("xyz".to_string()), false);
    run(&mut g, &mut ctx, Builtin::SplitStr, vec![long, none]).unwrap();
    match result(&g, &ctx) {
        Value::Array(items) => assert_eq!(items.len(), 1),
        _ => panic!("expected an array"),
    }
    let empty = put(&mut g, Value::Str("".to_string()), false);
    run(&mut g, &mut ctx, Builtin::SplitStr, vec![long, empty]).unwrap();
    let pieces: Vec<String> = match result(&g, &ctx) {
        Value::Array(items) => items.iter().map(|i| text(g.stored_values.get(*i))).collect(),
        _ => panic!("expected an array"),
    };
    assert_eq!(pieces, "ab".split("").map(|p| p.to_string()).collect::<Vec<_>>());
}

#[test]
fn add_keeps_the_object_pairs() {
    let (mut g, mut ctx) = setup();
    let pairs = vec![(1u16, ObjParam::Number(1)), (5u16, ObjParam::Text("t".to_string())), (1u16, ObjParam::Number(2))];
    let o = put(&mut g, Value::Obj(pairs, ObjectMode::Object), false);
    run(&mut g, &mut ctx, Builtin::Add, vec![o]).unwrap();
    let params = &g.objects[0].params;
    assert_eq!(params.len(), 2);
    assert!(params.iter().any(|p| p.0 == 1 && matches!(p.1, ObjParam::Number(2))));
    assert!(params.iter().any(|p| p.0 == 5 && matches!(&p.1, ObjParam::Text(t) if t == "t")));
}
