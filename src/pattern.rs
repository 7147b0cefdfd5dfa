//! Matching values against patterns.
use vstd::prelude::*;

use crate::member::{type_num, type_number};
use crate::store::{ValueStore, children};
use crate::value::{Pattern, Value, copy_pattern, same_pattern};

verus! {

/// Whether the value `v` matches the pattern `p`: a type pattern by the
/// value's type tag, an array pattern element by element, an either-pattern
/// by its left alternative or else its right.
pub open spec fn matches_pattern(v: Value, p: Pattern, s: &ValueStore) -> bool
    decreases p, 0nat,
{
    match p {
        Pattern::Type(t) => type_num(v, s) == t,
        Pattern::Array(q) => v is Array && all_match(children(v), *q, s),
        Pattern::Either(x, y) => matches_pattern(v, *x, s) || matches_pattern(v, *y, s),
    }
}

/// Whether the values at all of `items` match `q`.
pub open spec fn all_match(items: Seq<usize>, q: Pattern, s: &ValueStore) -> bool
    decreases q, items.len(),
{
    if items.len() == 0 {
        true
    } else {
        matches_pattern(s.slots@[items[0] as int].value, q, s) && all_match(items.drop_first(), q, s)
    }
}

/// Matching only looks at a pattern's shape.
pub proof fn lemma_same_pattern_matches(v: Value, p: Pattern, q: Pattern, s: &ValueStore)
    requires
        same_pattern(p, q),
    ensures
        matches_pattern(v, p, s) == matches_pattern(v, q, s),
    decreases p, 0nat,
{
    match (p, q) {
        (Pattern::Array(x), Pattern::Array(y)) => {
            lemma_same_pattern_all_match(children(v), *x, *y, s);
        },
        (Pattern::Either(x1, x2), Pattern::Either(y1, y2)) => {
            lemma_same_pattern_matches(v, *x1, *y1, s);
            lemma_same_pattern_matches(v, *x2, *y2, s);
        },
        _ => {},
    }
}

proof fn lemma_same_pattern_all_match(items: Seq<usize>, p: Pattern, q: Pattern, s: &ValueStore)
    requires
        same_pattern(p, q),
    ensures
        all_match(items, p, s) == all_match(items, q, s),
    decreases p, items.len(),
{
    if items.len() > 0 {
        lemma_same_pattern_matches(s.slots@[items[0] as int].value, p, q, s);
        lemma_same_pattern_all_match(items.drop_first(), p, q, s);
    }
}

/// Whether the value `v`, whose parts are slots of `s`, matches `p`.
pub fn matches_pat(v: &Value, p: &Pattern, s: &ValueStore) -> (r: bool)
    requires
        s.wf(),
        forall|k: int| 0 <= k < children(*v).len() ==> #[trigger] children(*v)[k] < s.slots@.len(),
    ensures
        r == matches_pattern(*v, *p, s),
    decreases p,
{
    match p {
        Pattern::Type(t) => {
            let n = type_number(v, s);
            assert(matches_pattern(*v, *p, s) == (type_num(*v, s) == *t));
            n == *t
        },
        Pattern::Array(q) => match v {
            Value::Array(items) => {
                let mut k: usize = 0;
                assert(items@.subrange(0, items@.len() as int) =~= items@);
                while k < items.len()
                    invariant
                        s.wf(),
                        k <= items@.len(),
                        *v == Value::Array(*items),
                        *p is Array,
                        p->Array_0 == **q,
                        forall|j: int| 0 <= j < children(*v).len() ==> #[trigger] children(*v)[j] < s.slots@.len(),
                        all_match(items@, **q, s) == all_match(items@.subrange(k as int, items@.len() as int), **q, s),
                    decreases items.len() - k,
                {
                    let x = items[k];
                    assert(children(*v)[k as int] == x);
                    let ghost rest = items@.subrange(k as int, items@.len() as int);
                    assert(rest.drop_first() =~= items@.subrange(k + 1, items@.len() as int));
                    assert(rest[0] == x);
                    if !matches_pat(s.get(x), q, s) {
                        return false;
                    }
                    k = k + 1;
                }
                true
            },
            _ => false,
        },
        Pattern::Either(x, y) => {
            let r = matches_pat(v, x, s) || matches_pat(v, y, s);
            assert(r == matches_pattern(*v, *p, s));
            r
        },
    }
}

/// The pattern that a value stands for: a type indicator for its type, or
/// a pattern value itself.
pub open spec fn pattern_value(v: Value) -> bool {
    v is TypeIndicator || v is Pattern
}

/// The pattern of a value for which `pattern_value` holds.
pub fn as_pattern(v: &Value) -> (r: Option<Pattern>)
    ensures
        r is Some == pattern_value(*v),
        v is TypeIndicator ==> (r matches Some(Pattern::Type(u)) && u == v->TypeIndicator_0),
        v is Pattern ==> (r matches Some(q) && same_pattern(q, v->Pattern_0)),
{
    match v {
        Value::TypeIndicator(t) => Some(Pattern::Type(*t)),
        Value::Pattern(p) => Some(copy_pattern(p)),
        _ => None,
    }
}

} // verus!
