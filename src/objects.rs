//! Object values: reading object keys, editing parameters, and membership.
use vstd::prelude::*;

use crate::error::RuntimeError;
use crate::globals::{GROUPS_KEY, SPAWN_TRIGGERED_KEY};
use crate::ids::Group;
use crate::member::{type_num, type_number};
use crate::ops::{args_ok, arg, only_value_changed};
use crate::pattern::{as_pattern, matches_pat, matches_pattern, pattern_value, lemma_same_pattern_matches};
use crate::store::{ValueStore, children, dict_get, lookup, lemma_lookup_in};
use crate::text::str_eq;
use crate::value::{
    CodeArea, ObjParam, ObjectMode, Pattern, TYPE_EPSILON, TYPE_OBJECT_KEY, Value, copy_params,
    param_equal, same_param, same_params, strings_equal, variant_tag,
};

verus! {

/// The type tag that an object-key dictionary carries.
pub open spec fn is_object_key(v: Value, s: &ValueStore) -> bool {
    v is Dict && type_num(v, s) == TYPE_OBJECT_KEY
}

/// The slot under `name` in a dictionary value.
pub open spec fn entry(v: Value, name: Seq<char>) -> Option<usize> {
    match v {
        Value::Dict(d) => lookup(d@, name),
        _ => None,
    }
}

/// A key of an object parameter: a number in the range of keys.
pub open spec fn key_number(n: i64) -> bool {
    0 <= n <= u16::MAX
}

/// Whether `p` is what the value `v` becomes as an object parameter.
pub open spec fn param_of(p: ObjParam, v: Value, s: &ValueStore) -> bool {
    match v {
        Value::Number(n) => p == ObjParam::Number(n),
        Value::Str(t) => p is Text && p->Text_0@ == t@,
        Value::TriggerFunc(f) => p == ObjParam::Group(f.start_group),
        Value::Group(g) => p == ObjParam::Group(g),
        Value::Color(c) => p == ObjParam::Color(c),
        Value::Block(b) => p == ObjParam::Block(b),
        Value::Item(i) => p == ObjParam::Item(i),
        Value::Bool(b) => p == ObjParam::Bool(b),
        Value::Array(a) => p is GroupList && p->GroupList_0@.len() == a@.len() && forall|k: int|
            0 <= k < a@.len() ==> s.slots@[a@[k] as int].value == Value::Group(#[trigger] p->GroupList_0@[k]),
        Value::Dict(_) => p is Epsilon,
        _ => false,
    }
}

/// Whether the value can be an object parameter.
pub open spec fn convertible(v: Value, s: &ValueStore) -> bool {
    match v {
        Value::Number(_) | Value::Str(_) | Value::TriggerFunc(_) | Value::Group(_) | Value::Color(_)
        | Value::Block(_) | Value::Item(_) | Value::Bool(_) => true,
        Value::Array(a) => forall|k: int| 0 <= k < a@.len() ==> (#[trigger] s.slots@[a@[k] as int].value) is Group,
        Value::Dict(_) => type_num(v, s) == TYPE_EPSILON,
        _ => false,
    }
}

/// The parameter that a value becomes on an object.
pub fn to_param(v: &Value, s: &ValueStore, info: CodeArea) -> (r: Result<ObjParam, RuntimeError>)
    requires
        s.wf(),
        forall|k: int| 0 <= k < children(*v).len() ==> #[trigger] children(*v)[k] < s.slots@.len(),
    ensures
        r is Ok <==> convertible(*v, s),
        r matches Ok(p) ==> param_of(p, *v, s),
        r is Err ==> r->Err_0 is CustomError,
{
    match v {
        Value::Number(n) => Ok(ObjParam::Number(*n)),
        Value::Str(t) => Ok(ObjParam::Text(t.clone())),
        Value::TriggerFunc(f) => Ok(ObjParam::Group(f.start_group)),
        Value::Group(g) => Ok(ObjParam::Group(*g)),
        Value::Color(c) => Ok(ObjParam::Color(*c)),
        Value::Block(b) => Ok(ObjParam::Block(*b)),
        Value::Item(i) => Ok(ObjParam::Item(*i)),
        Value::Bool(b) => Ok(ObjParam::Bool(*b)),
        Value::Array(a) => {
            let mut out: Vec<Group> = Vec::new();
            let mut k: usize = 0;
            while k < a.len()
                invariant
                    k <= a@.len(),
                    out@.len() == k,
                    *v == Value::Array(*a),
                    forall|j: int| 0 <= j < children(*v).len() ==> #[trigger] children(*v)[j] < s.slots@.len(),
                    forall|j: int| 0 <= j < k ==> (#[trigger] s.slots@[a@[j] as int].value) == Value::Group(out@[j]),
                decreases a.len() - k,
            {
                assert(children(*v)[k as int] == a@[k as int]);
                match s.get(a[k]) {
                    Value::Group(g) => out.push(*g),
                    _ => {
                        return Err(RuntimeError::custom("Arrays in object parameters can only contain groups", info));
                    },
                }
                k = k + 1;
            }
            Ok(ObjParam::GroupList(out))
        },
        Value::Dict(_) => {
            if type_number(v, s) == TYPE_EPSILON {
                Ok(ObjParam::Epsilon)
            } else {
                Err(RuntimeError::custom("not a valid object value", info))
            }
        },
        _ => Err(RuntimeError::custom("not a valid object value", info)),
    }
}

/// Whether the pairs hold the pair `(k, p)` already.
pub open spec fn holds_pair(pairs: Seq<(u16, ObjParam)>, k: u16, p: ObjParam) -> bool {
    exists|i: int| 0 <= i < pairs.len() && (#[trigger] pairs[i]).0 == k && same_param(pairs[i].1, p)
}

fn find_pair(pairs: &Vec<(u16, ObjParam)>, k: u16, p: &ObjParam) -> (r: bool)
    ensures
        r == holds_pair(pairs@, k, *p),
{
    let mut i: usize = 0;
    while i < pairs.len()
        invariant
            i <= pairs@.len(),
            forall|j: int| 0 <= j < i ==> !((#[trigger] pairs@[j]).0 == k && same_param(pairs@[j].1, *p)),
        decreases pairs.len() - i,
    {
        if pairs[i].0 == k && param_equal(&pairs[i].1, p) {
            assert(pairs@[i as int] == pairs@[i as int]);
            return true;
        }
        i = i + 1;
    }
    false
}

proof fn lemma_holds_pair_same(a: Seq<(u16, ObjParam)>, b: Seq<(u16, ObjParam)>, k: u16, p: ObjParam)
    requires
        same_params(a, b),
    ensures
        holds_pair(a, k, p) == holds_pair(b, k, p),
{
    if holds_pair(a, k, p) {
        let i = choose|i: int| 0 <= i < a.len() && (#[trigger] a[i]).0 == k && same_param(a[i].1, p);
        assert(b[i].0 == k && same_param(b[i].1, p));
    }
    if holds_pair(b, k, p) {
        let i = choose|i: int| 0 <= i < b.len() && (#[trigger] b[i]).0 == k && same_param(b[i].1, p);
        assert(a[i] == a[i]);
        assert(a[i].0 == k && same_param(a[i].1, p));
    }
}

/// The key and, for an object key, the pattern slot that a key value gives,
/// or the failure to read it.
pub open spec fn key_read(key: Value, s: &ValueStore) -> Result<(u16, Option<usize>), ()> {
    match key {
        Value::Number(n) => if key_number(n) {
            Ok((n as u16, None))
        } else {
            Err(())
        },
        _ => if is_object_key(key, s) && entry(key, "id"@) is Some && entry(key, "pattern"@) is Some
            && s.slots@[entry(key, "id"@)->Some_0 as int].value is Number
            && key_number(s.slots@[entry(key, "id"@)->Some_0 as int].value->Number_0) {
            Ok((s.slots@[entry(key, "id"@)->Some_0 as int].value->Number_0 as u16, entry(key, "pattern"@)))
        } else {
            Err(())
        },
    }
}

fn read_key(key: &Value, s: &ValueStore, key_area: CodeArea, info: CodeArea) -> (r: Result<(u16, Option<usize>), RuntimeError>)
    requires
        s.wf(),
        forall|k: int| 0 <= k < children(*key).len() ==> #[trigger] children(*key)[k] < s.slots@.len(),
    ensures
        key_read(*key, s) matches Ok(x) ==> r == Ok::<(u16, Option<usize>), RuntimeError>(x),
        key_read(*key, s) is Err ==> r is Err,
        r matches Ok(x) ==> (x.1 matches Some(i) ==> i < s.slots@.len()),
{
    match key {
        Value::Number(n) => {
            if *n < 0 || *n > 65535 {
                return Err(RuntimeError::custom("object key out of range", info));
            }
            Ok((*n as u16, None))
        },
        Value::Dict(d) => {
            if type_number(key, s) != TYPE_OBJECT_KEY {
                return Err(RuntimeError::type_error("number or @object_key", TYPE_OBJECT_KEY, key_area, info));
            }
            let id = match dict_get(d, &"id".to_owned()) {
                Some(i) => i,
                None => {
                    return Err(RuntimeError::custom("object key has no 'id' member", info));
                },
            };
            let pattern = match dict_get(d, &"pattern".to_owned()) {
                Some(i) => i,
                None => {
                    return Err(RuntimeError::custom("object key has no 'pattern' member", info));
                },
            };
            proof {
                lemma_lookup_in(d@, "id"@);
                lemma_lookup_in(d@, "pattern"@);
                let j = choose|j: int| 0 <= j < d@.len() && #[trigger] d@[j].1 == id && d@[j].0@ == "id"@;
                assert(children(*key)[j] == d@[j].1);
                let q = choose|j: int| 0 <= j < d@.len() && #[trigger] d@[j].1 == pattern && d@[j].0@ == "pattern"@;
                assert(children(*key)[q] == d@[q].1);
            }
            match s.get(id) {
                Value::Number(n) => {
                    if *n < 0 || *n > 65535 {
                        return Err(RuntimeError::custom("object key out of range", info));
                    }
                    Ok((*n as u16, Some(pattern)))
                },
                other => Err(RuntimeError::type_error("number", other.variant_tag(), s.get_area(id), info)),
            }
        },
        other => Err(RuntimeError::type_error("number or @object_key", other.variant_tag(), key_area, info)),
    }
}

/// The pairs after editing: `pairs` with `(k, p)` appended, unless an equal
/// pair is there already.
pub open spec fn edited_pairs(before: Seq<(u16, ObjParam)>, after: Seq<(u16, ObjParam)>, k: u16, p: ObjParam) -> bool {
    if holds_pair(before, k, p) {
        same_params(after, before)
    } else {
        same_params(after.drop_last(), before) && after.len() == before.len() + 1 && after.last().0 == k
            && same_param(after.last().1, p)
    }
}

/// What `op_edit_obj` gives.
pub open spec fn edit_obj_outcome(s0: &ValueStore, s1: &ValueStore, args: Seq<usize>, r: Result<Value, RuntimeError>) -> bool {
    &&& s1.wf()
    &&& r is Err ==> *s1 == *s0
    &&& r is Ok ==> (r matches Ok(Value::Null) && only_value_changed(s0, s1, args[0]))
    &&& ({
                let o = arg(s0, args, 0);
                let key = arg(s0, args, 1);
                let value = arg(s0, args, 2);
                let kr = key_read(key, s0);
                let k = kr->Ok_0.0;
                let protected = o->Obj_1 == ObjectMode::Trigger && (k == GROUPS_KEY || k == SPAWN_TRIGGERED_KEY);
                &&& !(o is Obj) ==> (r is Err && r->Err_0 is TypeError)
                &&& o is Obj && kr is Err ==> r is Err
                &&& o is Obj && kr is Ok && protected ==> (r is Err && r->Err_0 is CustomError)
                &&& o is Obj && kr is Ok && !protected && kr->Ok_0.1 is None ==> {
                    &&& !convertible(value, s0) ==> (r is Err && r->Err_0 is CustomError)
                    &&& convertible(value, s0) ==> (r matches Ok(Value::Null) && only_value_changed(s0, s1, args[0])
                        && arg(s1, args, 0) is Obj && arg(s1, args, 0)->Obj_1 == o->Obj_1
                        && exists|p: ObjParam| param_of(p, value, s0) && #[trigger] edited_pairs(o->Obj_0@, arg(s1, args, 0)->Obj_0@, k, p))
                }
            })
}

/// `edit_obj(o, key, value)`: sets the parameter `key` of the object `o` to
/// `value`. The group ids and the spawn-triggered state of a trigger may not
/// be set; an object key's pattern must match the value.
pub fn op_edit_obj(args: &Vec<usize>, info: CodeArea, s: &mut ValueStore) -> (r: Result<Value, RuntimeError>)
    requires
        args_ok(old(s), args@, 3),
    ensures
        edit_obj_outcome(old(s), final(s), args@, r),
{
    let a = args[0];
    let (pairs, mode) = match s.get(a) {
        Value::Obj(pairs, mode) => (copy_params(pairs), *mode),
        other => {
            return Err(RuntimeError::type_error("@object or @trigger", other.variant_tag(), s.get_area(a), info));
        },
    };
    let (key, pattern) = match read_key(s.get(args[1]), s, s.get_area(args[1]), info) {
        Ok(x) => x,
        Err(e) => {
            return Err(e);
        },
    };
    if mode == ObjectMode::Trigger && (key == GROUPS_KEY || key == SPAWN_TRIGGERED_KEY) {
        return Err(RuntimeError::custom(
            "You are not allowed to set the group ID(s) or the spawn triggered state of a @trigger. Use obj instead",
            info,
        ));
    }
    let value = s.get(args[2]);
    match pattern {
        Some(pi) => {
            match as_pattern(s.get(pi)) {
                Some(pat) => {
                    if !matches_pat(value, &pat, s) {
                        return Err(RuntimeError::type_error("a value of the key's pattern", value.variant_tag(), s.get_area(args[2]), info));
                    }
                },
                None => {
                    return Err(RuntimeError::type_error("pattern", s.get(pi).variant_tag(), s.get_area(pi), info));
                },
            }
        },
        None => {},
    }
    let p = match to_param(value, s, info) {
        Ok(p) => p,
        Err(e) => {
            return Err(e);
        },
    };
    let ghost gp = p;
    let ghost orig = arg(old(s), args@, 0)->Obj_0@;
    let mut pairs = pairs;
    proof {
        lemma_holds_pair_same(pairs@, orig, key, p);
    }
    let ghost copied = pairs@;
    if !find_pair(&pairs, key, &p) {
        pairs.push((key, p));
        assert(pairs@.drop_last() =~= copied);
    }
    assert(edited_pairs(orig, pairs@, key, gp));
    let ghost newpairs = pairs@;
    s.set_value(a, Value::Obj(pairs, mode));
    assert(only_value_changed(old(s), s, a));
    assert(arg(s, args@, 0)->Obj_0@ == newpairs);
    assert(param_of(gp, arg(old(s), args@, 2), old(s)));
    assert(key == key_read(arg(old(s), args@, 1), old(s))->Ok_0.0);
    Ok(Value::Null)
}

} // verus!

verus! {

/// `t` occurs in `s`.
pub open spec fn contains_text(s: Seq<char>, t: Seq<char>) -> bool {
    exists|i: int| 0 <= i <= s.len() - t.len() && #[trigger] s.subrange(i, i + t.len()) == t
}

/// Whether `t` occurs in `s`.
pub fn text_contains(s: &str, t: &str) -> (r: bool)
    ensures
        r == contains_text(s@, t@),
{
    let n = s.unicode_len();
    let m = t.unicode_len();
    if m > n {
        return false;
    }
    let mut i: usize = 0;
    while i <= n - m
        invariant
            n == s@.len(),
            m == t@.len(),
            m <= n,
            i <= n - m + 1,
            forall|j: int| 0 <= j < i ==> #[trigger] s@.subrange(j, j + m) != t@,
        decreases n - m + 1 - i,
    {
        let mut k: usize = 0;
        let mut same = true;
        while k < m
            invariant
                n == s@.len(),
                m == t@.len(),
                i + m <= n,
                k <= m,
                same == forall|q: int| 0 <= q < k ==> s@[i + q] == t@[q],
            decreases m - k,
        {
            if s.get_char(i + k) != t.get_char(k) {
                same = false;
            }
            k = k + 1;
        }
        if same {
            assert(s@.subrange(i as int, i + m) =~= t@);
            return true;
        }
        assert(s@.subrange(i as int, i + m) != t@) by {
            let q = choose|q: int| 0 <= q < m && s@[i + q] != t@[q];
            assert(s@.subrange(i as int, i + m)[q] == s@[i + q]);
        }
        i = i + 1;
    }
    false
}

/// Whether the object's pairs have the key `n`.
pub open spec fn has_key(pairs: Seq<(u16, ObjParam)>, n: int) -> bool {
    exists|i: int| 0 <= i < pairs.len() && (#[trigger] pairs[i]).0 as int == n
}

fn find_key(pairs: &Vec<(u16, ObjParam)>, n: i64) -> (r: bool)
    ensures
        r == has_key(pairs@, n as int),
{
    let mut i: usize = 0;
    while i < pairs.len()
        invariant
            i <= pairs@.len(),
            forall|j: int| 0 <= j < i ==> (#[trigger] pairs@[j]).0 as int != n,
        decreases pairs.len() - i,
    {
        if pairs[i].0 as i64 == n {
            assert(pairs@[i as int] == pairs@[i as int]);
            return true;
        }
        i = i + 1;
    }
    false
}

/// What `op_has` gives.
pub open spec fn has_outcome(s: &ValueStore, args: Seq<usize>, r: Result<Value, RuntimeError>) -> bool {
    &&& r is Ok ==> r->Ok_0 is Bool
    &&& ({
                let a = arg(s, args, 0);
                let b = arg(s, args, 1);
                &&& a is Array ==> r == Ok::<Value, RuntimeError>(Value::Bool(exists|k: int|
                    0 <= k < children(a).len() && s.deep_eq(#[trigger] children(a)[k], args[1])))
                &&& a is Dict && b is Str ==> r == Ok::<Value, RuntimeError>(Value::Bool(lookup(a->Dict_0@, b->Str_0@) is Some))
                &&& a is Str && b is Str ==> r == Ok::<Value, RuntimeError>(Value::Bool(contains_text(a->Str_0@, b->Str_0@)))
                &&& a is Obj && b is Number ==> r == Ok::<Value, RuntimeError>(Value::Bool(has_key(a->Obj_0@, b->Number_0 as int)))
                &&& a is Obj && !(b is Number || b is Dict) ==> (r is Err && r->Err_0 is TypeError)
                &&& a is Str && !(b is Str) ==> (r is Err && r->Err_0 is TypeError)
                &&& a is Dict && !(b is Str) ==> (r is Err && r->Err_0 is TypeError)
                &&& !(a is Array || a is Dict || a is Str || a is Obj) ==> (r is Err && r->Err_0 is TypeError)
            })
}

/// `a has b`: an array holds an element equal to `b`; a dictionary has the
/// name `b`; a string holds the string `b`; an object has the key `b`,
/// given as a number or an object key.
pub fn op_has(args: &Vec<usize>, info: CodeArea, s: &ValueStore) -> (r: Result<Value, RuntimeError>)
    requires
        args_ok(s, args@, 2),
    ensures
        has_outcome(s, args@, r),
{
    let b = args[1];
    assert(args@[1] < s.slots@.len());
    match (s.get(args[0]), s.get(b)) {
        (Value::Array(items), _) => {
            let mut k: usize = 0;
            while k < items.len()
                invariant
                    s.wf(),
                    k <= items@.len(),
                    args_ok(s, args@, 2),
                    arg(s, args@, 0) == Value::Array(*items),
                    b == args@[1],
                    b < s.slots@.len(),
                    forall|j: int| 0 <= j < k ==> !s.deep_eq(#[trigger] children(arg(s, args@, 0))[j], args@[1]),
                decreases items.len() - k,
            {
                assert(children(arg(s, args@, 0))[k as int] == items@[k as int]);
                assert(items@[k as int] < s.slots@.len());
                if s.value_equality(items[k], b) {
                    assert(s.deep_eq(children(arg(s, args@, 0))[k as int], args@[1]));
                    return Ok(Value::Bool(true));
                }
                k = k + 1;
            }
            Ok(Value::Bool(false))
        },
        (Value::Dict(d), Value::Str(t)) => Ok(Value::Bool(dict_get(d, t).is_some())),
        (Value::Str(x), Value::Str(y)) => Ok(Value::Bool(text_contains(x.as_str(), y.as_str()))),
        (Value::Obj(o, _), Value::Number(n)) => Ok(Value::Bool(find_key(o, *n))),
        (Value::Obj(o, _), Value::Dict(_)) => {
            let key = s.get(b);
            match read_key(key, s, s.get_area(b), info) {
                Ok((k, _)) => Ok(Value::Bool(find_key(o, k as i64))),
                Err(e) => Err(e),
            }
        },
        (Value::Obj(_, _), other) => Err(RuntimeError::type_error("@number or @object_key", other.variant_tag(), s.get_area(b), info)),
        (Value::Str(_), other) => Err(RuntimeError::type_error("string to compare", other.variant_tag(), s.get_area(b), info)),
        (Value::Dict(_), other) => Err(RuntimeError::type_error("string as key", other.variant_tag(), s.get_area(b), info)),
        (other, _) => Err(RuntimeError::type_error("array, dictionary, object, or string", other.variant_tag(), s.get_area(args[0]), info)),
    }
}

/// What `op_matches` gives.
pub open spec fn matches_outcome(s: &ValueStore, args: Seq<usize>, r: Result<Value, RuntimeError>) -> bool {
    &&& ({
                let v = arg(s, args, 0);
                let p = arg(s, args, 1);
                &&& p is TypeIndicator ==> r == Ok::<Value, RuntimeError>(Value::Bool(matches_pattern(v, Pattern::Type(p->TypeIndicator_0), s)))
                &&& p is Pattern ==> r == Ok::<Value, RuntimeError>(Value::Bool(matches_pattern(v, p->Pattern_0, s)))
                &&& !pattern_value(p) ==> (r is Err && r->Err_0 is TypeError)
            })
}

/// `matches(val, pattern)`.
pub fn op_matches(args: &Vec<usize>, s: &ValueStore, info: CodeArea) -> (r: Result<Value, RuntimeError>)
    requires
        args_ok(s, args@, 2),
    ensures
        matches_outcome(s, args@, r),
{
    let p = s.get(args[1]);
    match as_pattern(p) {
        Some(pat) => {
            proof {
                if p is Pattern {
                    lemma_same_pattern_matches(arg(s, args@, 0), pat, p->Pattern_0, s);
                }
            }
            Ok(Value::Bool(matches_pat(s.get(args[0]), &pat, s)))
        },
        None => Err(RuntimeError::type_error("pattern", p.variant_tag(), s.get_area(args[1]), info)),
    }
}

/// What `op_either` gives.
pub open spec fn either_outcome(s: &ValueStore, args: Seq<usize>, r: Result<Value, RuntimeError>) -> bool {
    &&& pattern_value(arg(s, args, 0)) && pattern_value(arg(s, args, 1)) ==> (r matches Ok(Value::Pattern(Pattern::Either(x, y))))
    &&& !(pattern_value(arg(s, args, 0)) && pattern_value(arg(s, args, 1))) ==> (r is Err && r->Err_0 is TypeError)
}

/// `a | b`: the pattern that either of two patterns matches.
pub fn op_either(args: &Vec<usize>, s: &ValueStore, info: CodeArea) -> (r: Result<Value, RuntimeError>)
    requires
        args_ok(s, args@, 2),
    ensures
        either_outcome(s, args@, r),
{
    let a = s.get(args[0]);
    let b = s.get(args[1]);
    match (as_pattern(a), as_pattern(b)) {
        (Some(x), Some(y)) => Ok(Value::Pattern(Pattern::Either(Box::new(x), Box::new(y)))),
        (None, _) => Err(RuntimeError::type_error("pattern", a.variant_tag(), s.get_area(args[0]), info)),
        (_, None) => Err(RuntimeError::type_error("pattern", b.variant_tag(), s.get_area(args[1]), info)),
    }
}

} // verus!
