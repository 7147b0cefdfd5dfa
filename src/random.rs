//! Random choice among the elements of an array.
use rand::seq::SliceRandom;
use vstd::prelude::*;

use crate::error::RuntimeError;
use crate::ids::Group;
use crate::ops::{arg, array_items};
use crate::store::{ValueStore, children};
use crate::value::{CodeArea, Value, copy_indices, same_shallow};

verus! {

/// Relies on rand's `SliceRandom::choose` with the thread-local generator:
/// one of the elements, picked at random, or `None` for an empty slice.
#[verifier::external_body]
fn choose_slot(items: &Vec<usize>) -> (r: Option<usize>)
    ensures
        r is None <==> items@.len() == 0,
        r is Some ==> items@.contains(r->Some_0),
{
    items.choose(&mut rand::thread_rng()).copied()
}

/// Each of `v` is a copy of one of `items`.
pub open spec fn copies_of(s: &ValueStore, v: Seq<usize>, items: Seq<usize>) -> bool {
    forall|j: int| 0 <= j < v.len() ==> #[trigger] copy_of_one(s, v[j], items)
}

/// The value at `x` is a copy of the value at one of `items`.
pub open spec fn copy_of_one(s: &ValueStore, x: usize, items: Seq<usize>) -> bool {
    exists|k: int| 0 <= k < items.len() && #[trigger] s.deep_eq(x, items[k])
}

/// What `op_random` gives.
pub open spec fn random_outcome(s0: &ValueStore, s1: &ValueStore, args: Seq<usize>, r: Result<Value, RuntimeError>) -> bool {
    &&& s1.wf()
    &&& s1.extends(s0)
    &&& args.len() == 0 || args.len() > 2 ==> (r is Err && r->Err_0 is BuiltinError)
    &&& 1 <= args.len() <= 2 && !(arg(s0, args, 0) is Array) ==> (r is Err && r->Err_0 is BuiltinError)
    &&& args.len() == 2 && arg(s0, args, 0) is Array && !(arg(s0, args, 1) is Number) ==> (r is Err && r->Err_0 is BuiltinError)
    &&& ({
                let items = array_items(arg(s0, args, 0));
                &&& args.len() == 1 && arg(s0, args, 0) is Array && items.len() == 0 ==> (r matches Ok(Value::Null))
                &&& args.len() == 1 && arg(s0, args, 0) is Array && items.len() > 0 ==> (r is Ok && exists|k: int, c: usize|
                    0 <= k < items.len() && s0.slots@.len() <= c < s1.slots@.len()
                    && #[trigger] s1.deep_eq(c, items[k]) && same_shallow(r->Ok_0, s1.slots@[c as int].value))
                &&& args.len() == 2 && arg(s0, args, 0) is Array && arg(s0, args, 1) is Number ==> (r matches Ok(Value::Array(v)) && {
                    let n = arg(s0, args, 1)->Number_0;
                    &&& v@.len() == (if items.len() == 0 || n <= 0 { 0 } else { n as int })
                    &&& copies_of(s1, v@, items)
                })
            })
}

/// `random(arr)`: a copy of a random element of the array, `Null` for an
/// empty one. `random(arr, n)`: an array of `n` copies of random elements,
/// empty for an empty array. Without an array there is nothing to pick from.
pub fn op_random(args: &Vec<usize>, info: CodeArea, s: &mut ValueStore, group: Group) -> (r: Result<Value, RuntimeError>)
    requires
        old(s).wf(),
        forall|i: int| 0 <= i < args@.len() ==> #[trigger] args@[i] < old(s).slots@.len(),
    ensures
        random_outcome(old(s), final(s), args@, r),
{
    if args.len() == 0 || args.len() > 2 {
        return Err(RuntimeError::builtin("Expected an array, and optionally a count", info));
    }
    let items = match s.get(args[0]) {
        Value::Array(a) => copy_indices(a),
        _ => {
            return Err(RuntimeError::builtin("Expected an array for argument 1", info));
        },
    };
    proof {
        assert forall|k: int| 0 <= k < items@.len() implies #[trigger] items@[k] < s.slots@.len() by {
            assert(children(arg(old(s), args@, 0))[k] == items@[k]);
        }
    }
    if args.len() == 1 {
        match choose_slot(&items) {
            None => Ok(Value::Null),
            Some(x) => {
                assert(items@.contains(x));
                let ghost k = choose|k: int| 0 <= k < items@.len() && items@[k] == x;
                assert(items@[k] == x);
                let m = s.can_mutate(x);
                let c = s.clone_value(x, group, !m, info);
                let v = s.get(c).copy();
                assert(s.deep_eq(c, items@[k]) && same_shallow(v, s.slots@[c as int].value));
                Ok(v)
            },
        }
    } else {
        let times = match s.get(args[1]) {
            Value::Number(n) => *n,
            _ => {
                return Err(RuntimeError::builtin("Expected a number for argument 2", info));
            },
        };
        if items.len() == 0 || times <= 0 {
            return Ok(Value::Array(Vec::new()));
        }
        let mut chosen: Vec<usize> = Vec::new();
        let mut i: i64 = 0;
        while i < times
            invariant
                0 <= i <= times,
                items@.len() > 0,
                chosen@.len() == i,
                forall|j: int| 0 <= j < chosen@.len() ==> items@.contains(#[trigger] chosen@[j]),
            decreases times - i,
        {
            let x = match choose_slot(&items) {
                Some(x) => x,
                None => 0,
            };
            chosen.push(x);
            i = i + 1;
        }
        proof {
            assert forall|j: int| 0 <= j < chosen@.len() implies #[trigger] chosen@[j] < s.slots@.len() by {
                assert(items@.contains(chosen@[j]));
            }
        }
        let out = s.clone_all(&chosen, group, info);
        let ghost its = array_items(arg(old(s), args@, 0));
        assert(items@ == its);
        let ghost cur = *s;
        assert forall|j: int| 0 <= j < out@.len() implies #[trigger] copy_of_one(&cur, out@[j], its) by {
            assert(items@.contains(chosen@[j]));
            let k = choose|k: int| 0 <= k < items@.len() && items@[k] == chosen@[j];
            assert(cur.deep_eq(out@[j], chosen@[j]));
            assert(cur.deep_eq(out@[j], its[k]));
        }
        assert(copies_of(&cur, out@, its));
        Ok(Value::Array(out))
    }
}

} // verus!
