//! The value store: a growable table of slots that values refer to by index.
use vstd::prelude::*;

use crate::ids::Group;
use crate::value::{CodeArea, Value, variant_tag, same_entries, same_leaf, same_shallow, strings_equal, leaf_equal};

verus! {

/// One slot of the store.
pub struct StoredSlot {
    pub value: Value,
    /// The sole authority on whether the value may be updated in place.
    pub mutable: bool,
    /// Where the value was defined.
    pub def_area: CodeArea,
    /// The group under which the value was last made live.
    pub fn_context: Group,
}

/// The indices that a value refers to.
pub open spec fn children(v: Value) -> Seq<usize> {
    match v {
        Value::Array(a) => a@,
        Value::Dict(d) => d@.map_values(|e: (String, usize)| e.1),
        _ => Seq::empty(),
    }
}

/// The entries of a dictionary, and none of another value.
pub open spec fn dict_entries(v: Value) -> Seq<(String, usize)> {
    match v {
        Value::Dict(d) => d@,
        _ => Seq::empty(),
    }
}

/// `copy` refers only to slots from `fresh_from` on, and a copied
/// dictionary has the names of `source`, in its order.
pub open spec fn fresh_parts(copy: Value, source: Value, fresh_from: nat) -> bool {
    &&& forall|k: int| 0 <= k < children(copy).len() ==> fresh_from <= #[trigger] children(copy)[k]
    &&& source is Dict ==> copy is Dict && dict_entries(copy).len() == dict_entries(source).len()
        && forall|k: int| 0 <= k < dict_entries(copy).len() ==> (#[trigger] dict_entries(copy)[k]).0@ == dict_entries(source)[k].0@
}

/// A dictionary's names occur once each.
pub open spec fn unique_keys(v: Value) -> bool {
    match v {
        Value::Dict(d) => forall|p: int, q: int|
            0 <= p < q < d@.len() ==> #[trigger] d@[p].0@ != #[trigger] d@[q].0@,
        _ => true,
    }
}

/// Under names that occur once, each entry's name finds that entry.
pub proof fn lemma_lookup_unique(entries: Seq<(String, usize)>, k: int)
    requires
        0 <= k < entries.len(),
        forall|p: int, q: int|
            0 <= p < q < entries.len() ==> #[trigger] entries[p].0@ != #[trigger] entries[q].0@,
    ensures
        lookup(entries, entries[k].0@) == Some(entries[k].1),
    decreases entries.len(),
{
    if k > 0 {
        assert(entries[0].0@ != entries[k].0@);
        assert(entries.drop_first()[k - 1] == entries[k]);
        assert forall|p: int, q: int|
            0 <= p < q < entries.drop_first().len() implies #[trigger] entries.drop_first()[p].0@ != #[trigger] entries.drop_first()[q].0@ by {
            assert(entries[p + 1].0@ != entries[q + 1].0@);
        }
        lemma_lookup_unique(entries.drop_first(), k - 1);
    }
}

/// The index stored under `key` by the first entry that has it.
pub open spec fn lookup(entries: Seq<(String, usize)>, key: Seq<char>) -> Option<usize>
    decreases entries.len(),
{
    if entries.len() == 0 {
        None
    } else if entries[0].0@ == key {
        Some(entries[0].1)
    } else {
        lookup(entries.drop_first(), key)
    }
}

/// A looked-up index is one of the entries' indices.
pub proof fn lemma_lookup_in(entries: Seq<(String, usize)>, key: Seq<char>)
    ensures
        lookup(entries, key) is Some ==> exists|j: int|
            0 <= j < entries.len() && #[trigger] entries[j].1 == lookup(entries, key)->Some_0
                && entries[j].0@ == key,
    decreases entries.len(),
{
    if entries.len() > 0 {
        if entries[0].0@ != key {
            lemma_lookup_in(entries.drop_first(), key);
            if lookup(entries, key) is Some {
                let j = choose|j: int|
                    0 <= j < entries.drop_first().len() && #[trigger] entries.drop_first()[j].1
                        == lookup(entries, key)->Some_0 && entries.drop_first()[j].0@ == key;
                assert(entries[j + 1] == entries.drop_first()[j]);
            }
        } else {
            assert(entries[0].1 == lookup(entries, key)->Some_0);
        }
    }
}

/// Looks up the index stored under `key`.
pub fn dict_get(entries: &Vec<(String, usize)>, key: &String) -> (r: Option<usize>)
    ensures
        r == lookup(entries@, key@),
{
    let mut i: usize = 0;
    assert(entries@.subrange(0, entries@.len() as int) =~= entries@);
    while i < entries.len()
        invariant
            i <= entries.len(),
            lookup(entries@, key@) == lookup(entries@.subrange(i as int, entries@.len() as int), key@),
        decreases entries.len() - i,
    {
        let ghost rest = entries@.subrange(i as int, entries@.len() as int);
        assert(rest.drop_first() =~= entries@.subrange(i + 1, entries@.len() as int));
        if strings_equal(&entries[i].0, key) {
            return Some(entries[i].1);
        }
        i = i + 1;
    }
    None
}

/// The arena of values. Each slot carries a rank that is greater than the
/// ranks of the slots its value refers to, so that values never contain
/// themselves.
pub struct ValueStore {
    pub slots: Vec<StoredSlot>,
    pub ranks: Ghost<Seq<int>>,
    pub floor: Ghost<int>,
    pub top: Ghost<int>,
}

impl ValueStore {
    pub open spec fn size(&self) -> nat {
        self.slots@.len()
    }

    pub open spec fn value_at(&self, i: int) -> Value {
        self.slots@[i].value
    }

    pub open spec fn rank(&self, i: int) -> int {
        self.ranks@[i]
    }

    pub open spec fn wf(&self) -> bool {
        &&& self.ranks@.len() == self.slots@.len()
        &&& self.floor@ <= self.top@
        &&& forall|i: int|
            0 <= i < self.slots@.len() ==> self.floor@ <= #[trigger] self.ranks@[i] <= self.top@
        &&& forall|i: int| 0 <= i < self.slots@.len() ==> #[trigger] unique_keys(self.slots@[i].value)
        &&& forall|i: int, k: int|
            0 <= i < self.slots@.len() && 0 <= k < children(self.slots@[i].value).len() ==> {
                let c = #[trigger] children(self.slots@[i].value)[k];
                &&& c < self.slots@.len()
                &&& self.ranks@[c as int] < self.ranks@[i]
            }
    }

    /// The store grew from `old` by appending slots; what was there is untouched.
    pub open spec fn extends(&self, old: &ValueStore) -> bool {
        &&& old.slots@.len() <= self.slots@.len()
        &&& forall|i: int| 0 <= i < old.slots@.len() ==> #[trigger] self.slots@[i] == old.slots@[i]
        &&& forall|i: int| 0 <= i < old.slots@.len() ==> #[trigger] self.ranks@[i] == old.ranks@[i]
        &&& old.floor@ >= self.floor@
    }

    /// Structural equality of the values at `a` and `b`: arrays element by
    /// element, dictionaries entry by entry regardless of order, other values
    /// by their contents.
    pub open spec fn deep_eq(&self, a: usize, b: usize) -> bool
        decreases (if self.wf() && a < self.slots@.len() {
            self.ranks@[a as int] - self.floor@
        } else {
            0
        }),
    {
        if !(self.wf() && a < self.slots@.len() && b < self.slots@.len()) {
            false
        } else {
            match (self.slots@[a as int].value, self.slots@[b as int].value) {
                (Value::Array(x), Value::Array(y)) => x@.len() == y@.len() && forall|k: int|
                    #![trigger x@[k]]
                    0 <= k < x@.len() ==> {
                        &&& children(self.slots@[a as int].value)[k] == x@[k]
                        &&& self.deep_eq(x@[k], y@[k])
                    },
                (Value::Dict(x), Value::Dict(y)) => x@.len() == y@.len() && forall|k: int|
                    #![trigger x@[k]]
                    0 <= k < x@.len() ==> {
                        &&& children(self.slots@[a as int].value)[k] == x@[k].1
                        &&& lookup(y@, x@[k].0@) is Some
                        &&& self.deep_eq(x@[k].1, lookup(y@, x@[k].0@)->Some_0)
                    },
                (va, vb) => same_leaf(va, vb),
            }
        }
    }
}

/// Structural equality is unchanged when the store grows.
pub proof fn lemma_deep_eq_extends(s1: &ValueStore, s2: &ValueStore, a: usize, b: usize)
    requires
        s1.wf(),
        s2.wf(),
        s2.extends(s1),
        a < s1.slots@.len(),
        b < s1.slots@.len(),
    ensures
        s2.deep_eq(a, b) == s1.deep_eq(a, b),
    decreases s1.ranks@[a as int] - s1.floor@,
{
    assert(s2.slots@[a as int] == s1.slots@[a as int]);
    assert(s2.slots@[b as int] == s1.slots@[b as int]);
    match (s1.slots@[a as int].value, s1.slots@[b as int].value) {
        (Value::Array(x), Value::Array(y)) => {
            assert forall|k: int| 0 <= k < x@.len() && x@.len() == y@.len() implies s2.deep_eq(x@[k], y@[k]) == s1.deep_eq(x@[k], y@[k]) by {
                assert(children(s1.slots@[a as int].value)[k] == x@[k]);
                assert(children(s1.slots@[b as int].value)[k] == y@[k]);
                lemma_deep_eq_extends(s1, s2, x@[k], y@[k]);
            }
        },
        (Value::Dict(x), Value::Dict(y)) => {
            assert forall|k: int| 0 <= k < x@.len() && lookup(y@, x@[k].0@) is Some implies s2.deep_eq(x@[k].1, lookup(y@, x@[k].0@)->Some_0) == s1.deep_eq(x@[k].1, lookup(y@, x@[k].0@)->Some_0) by {
                assert(children(s1.slots@[a as int].value)[k] == x@[k].1);
                lemma_lookup_in(y@, x@[k].0@);
                let j = choose|j: int|
                    0 <= j < y@.len() && #[trigger] y@[j].1 == lookup(y@, x@[k].0@)->Some_0
                        && y@[j].0@ == x@[k].0@;
                assert(children(s1.slots@[b as int].value)[j] == y@[j].1);
                lemma_deep_eq_extends(s1, s2, x@[k].1, y@[j].1);
            }
        },
        _ => {},
    }
}

impl ValueStore {
    /// An empty store.
    pub fn new() -> (r: Self)
        ensures
            r.wf(),
            r.slots@.len() == 0,
    {
        ValueStore { slots: Vec::new(), ranks: Ghost(Seq::empty()), floor: Ghost(0), top: Ghost(0) }
    }

    pub fn len(&self) -> (r: usize)
        ensures
            r == self.slots@.len(),
    {
        self.slots.len()
    }

    /// Allocates a slot for `value` and returns its index.
    pub fn store(&mut self, value: Value, group: Group, def_area: CodeArea, mutable: bool) -> (r: usize)
        requires
            old(self).wf(),
            forall|k: int| 0 <= k < children(value).len() ==> #[trigger] children(value)[k] < old(self).slots@.len(),
            unique_keys(value),
        ensures
            final(self).wf(),
            final(self).extends(old(self)),
            final(self).slots@.len() == old(self).slots@.len() + 1,
            r == old(self).slots@.len(),
            final(self).slots@[r as int] == (StoredSlot { value, mutable, fn_context: group, def_area }),
    {
        let r = self.slots.len();
        self.slots.push(StoredSlot { value, mutable, fn_context: group, def_area });
        proof {
            self.top@ = self.top@ + 1;
            self.ranks@ = self.ranks@.push(self.top@);
        }
        assert(self.slots@[r as int].value == value);
        assert forall|i: int, k: int|
            0 <= i < self.slots@.len() && 0 <= k < children(self.slots@[i].value).len() implies {
                let c = #[trigger] children(self.slots@[i].value)[k];
                &&& c < self.slots@.len()
                &&& self.ranks@[c as int] < self.ranks@[i]
            } by {
            if i < r {
                assert(self.slots@[i] == old(self).slots@[i]);
                assert(self.ranks@[i] == old(self).ranks@[i]);
            } else {
                let c = children(value)[k];
                assert(old(self).ranks@[c as int] <= old(self).top@);
            }
        }
        r
    }

    /// Appends a slot with the given rank.
    fn push_slot(&mut self, slot: StoredSlot, Ghost(rank): Ghost<int>) -> (r: usize)
        requires
            old(self).wf(),
            old(self).floor@ <= rank <= old(self).top@,
            unique_keys(slot.value),
            forall|k: int| 0 <= k < children(slot.value).len() ==> {
                let c = #[trigger] children(slot.value)[k];
                &&& c < old(self).slots@.len()
                &&& old(self).ranks@[c as int] < rank
            },
        ensures
            final(self).wf(),
            final(self).extends(old(self)),
            final(self).floor == old(self).floor,
            final(self).top == old(self).top,
            final(self).slots@ == old(self).slots@.push(slot),
            final(self).ranks@ == old(self).ranks@.push(rank),
            r == old(self).slots@.len(),
    {
        let r = self.slots.len();
        self.slots.push(slot);
        proof {
            self.ranks@ = self.ranks@.push(rank);
        }
        assert forall|i: int, k: int|
            0 <= i < self.slots@.len() && 0 <= k < children(self.slots@[i].value).len() implies {
                let c = #[trigger] children(self.slots@[i].value)[k];
                &&& c < self.slots@.len()
                &&& self.ranks@[c as int] < self.ranks@[i]
            } by {
            if i < r {
                assert(self.slots@[i] == old(self).slots@[i]);
            }
        }
        assert forall|i: int| 0 <= i < self.slots@.len() implies #[trigger] unique_keys(self.slots@[i].value) by {
            if i < r {
                assert(self.slots@[i] == old(self).slots@[i]);
            }
        }
        r
    }

    /// Copies the value at `idx` into fresh slots, arrays and dictionaries
    /// down to their leaves, each copy ranked `shift` below the slot it copies.
    fn clone_tree(
        &mut self,
        idx: usize,
        group: Group,
        mutable: bool,
        area: CodeArea,
        Ghost(orig_len): Ghost<int>,
        Ghost(shift): Ghost<int>,
    ) -> (r: usize)
        requires
            old(self).wf(),
            0 <= idx < orig_len <= old(self).slots@.len(),
            shift >= 0,
            forall|i: int, k: int|
                0 <= i < orig_len && 0 <= k < children(old(self).slots@[i].value).len()
                    ==> #[trigger] children(old(self).slots@[i].value)[k] < orig_len,
            forall|i: int| 0 <= i < orig_len ==> #[trigger] old(self).ranks@[i] - shift >= old(self).floor@,
        ensures
            final(self).wf(),
            final(self).extends(old(self)),
            final(self).floor == old(self).floor,
            final(self).top == old(self).top,
            old(self).slots@.len() <= r < final(self).slots@.len(),
            final(self).ranks@[r as int] == old(self).ranks@[idx as int] - shift,
            final(self).deep_eq(r, idx),
            final(self).slots@[r as int].mutable == mutable,
            final(self).slots@[r as int].fn_context == group,
            final(self).slots@[r as int].def_area == area,
            fresh_parts(final(self).slots@[r as int].value, old(self).slots@[idx as int].value, old(self).slots@.len()),
        decreases old(self).ranks@[idx as int] - old(self).floor@,
    {
        let v = self.slots[idx].value.copy();
        let ghost rank = self.ranks@[idx as int] - shift;
        match v {
            Value::Array(items) => {
                let mut out: Vec<usize> = Vec::new();
                let mut k: usize = 0;
                while k < items.len()
                    invariant
                        self.wf(),
                        self.extends(old(self)),
                        self.floor == old(self).floor,
                        self.top == old(self).top,
                        0 <= idx < orig_len <= old(self).slots@.len(),
                        old(self).wf(),
                        shift >= 0,
                        forall|i: int, j: int|
                            0 <= i < orig_len && 0 <= j < children(old(self).slots@[i].value).len()
                                ==> #[trigger] children(old(self).slots@[i].value)[j] < orig_len,
                        forall|i: int| 0 <= i < orig_len ==> #[trigger] old(self).ranks@[i] - shift >= old(self).floor@,
                        old(self).slots@[idx as int].value is Array,
                        children(old(self).slots@[idx as int].value) == items@,
                        out@.len() == k,
                        k <= items@.len(),
                        forall|m: int| #![trigger out@[m]] 0 <= m < k ==> {
                            &&& old(self).slots@.len() <= out@[m] < self.slots@.len()
                            &&& self.ranks@[out@[m] as int] == old(self).ranks@[items@[m] as int] - shift
                            &&& self.deep_eq(out@[m], items@[m])
                        },
                    decreases items.len() - k,
                {
                    assert(children(old(self).slots@[idx as int].value)[k as int] == items@[k as int]);
                    proof {
                        assert forall|i: int, j: int|
                            0 <= i < orig_len && 0 <= j < children(self.slots@[i].value).len()
                                implies #[trigger] children(self.slots@[i].value)[j] < orig_len by {
                            assert(self.slots@[i] == old(self).slots@[i]);
                        }
                        assert forall|i: int| 0 <= i < orig_len implies #[trigger] self.ranks@[i] - shift >= self.floor@ by {
                            assert(self.ranks@[i] == old(self).ranks@[i]);
                        }
                        assert(self.ranks@[idx as int] == old(self).ranks@[idx as int]);
                    }
                    let ghost before = *self;
                    let c = self.clone_tree(items[k], group, mutable, area, Ghost(orig_len), Ghost(shift));
                    proof {
                        assert forall|m: int| #![trigger out@[m]] 0 <= m < k implies self.deep_eq(out@[m], items@[m]) by {
                            lemma_deep_eq_extends(&before, self, out@[m], items@[m]);
                        }
                    }
                    out.push(c);
                    k = k + 1;
                }
                let ghost before = *self;
                let ghost outv = out@;
                proof {
                    assert forall|m: int| 0 <= m < outv.len() implies old(self).ranks@[#[trigger] items@[m] as int] < old(self).ranks@[idx as int] by {
                        assert(children(old(self).slots@[idx as int].value)[m] == items@[m]);
                    }
                }
                let r = self.push_slot(
                    StoredSlot { value: Value::Array(out), mutable, fn_context: group, def_area: area },
                    Ghost(rank),
                );
                proof {
                    assert forall|m: int| #![trigger outv[m]] 0 <= m < outv.len() implies self.deep_eq(outv[m], items@[m]) by {
                        lemma_deep_eq_extends(&before, self, outv[m], items@[m]);
                    }
                    assert(self.slots@[idx as int] == old(self).slots@[idx as int]);
                    assert(self.deep_eq(r, idx));
                }
                r
            },
            Value::Dict(entries) => {
                let mut out: Vec<(String, usize)> = Vec::new();
                let mut k: usize = 0;
                while k < entries.len()
                    invariant
                        self.wf(),
                        self.extends(old(self)),
                        self.floor == old(self).floor,
                        self.top == old(self).top,
                        0 <= idx < orig_len <= old(self).slots@.len(),
                        old(self).wf(),
                        shift >= 0,
                        forall|i: int, j: int|
                            0 <= i < orig_len && 0 <= j < children(old(self).slots@[i].value).len()
                                ==> #[trigger] children(old(self).slots@[i].value)[j] < orig_len,
                        forall|i: int| 0 <= i < orig_len ==> #[trigger] old(self).ranks@[i] - shift >= old(self).floor@,
                        old(self).slots@[idx as int].value is Dict,
                        same_entries(entries@, dict_entries(old(self).slots@[idx as int].value)),
                        out@.len() == k,
                        k <= entries@.len(),
                        forall|m: int| #![trigger out@[m]] 0 <= m < k ==> {
                            &&& out@[m].0@ == entries@[m].0@
                            &&& old(self).slots@.len() <= out@[m].1 < self.slots@.len()
                            &&& self.ranks@[out@[m].1 as int] == old(self).ranks@[entries@[m].1 as int] - shift
                            &&& self.deep_eq(out@[m].1, entries@[m].1)
                        },
                    decreases entries.len() - k,
                {
                    assert(children(old(self).slots@[idx as int].value)[k as int] == entries@[k as int].1);
                    proof {
                        assert forall|i: int, j: int|
                            0 <= i < orig_len && 0 <= j < children(self.slots@[i].value).len()
                                implies #[trigger] children(self.slots@[i].value)[j] < orig_len by {
                            assert(self.slots@[i] == old(self).slots@[i]);
                        }
                        assert forall|i: int| 0 <= i < orig_len implies #[trigger] self.ranks@[i] - shift >= self.floor@ by {
                            assert(self.ranks@[i] == old(self).ranks@[i]);
                        }
                        assert(self.ranks@[idx as int] == old(self).ranks@[idx as int]);
                    }
                    let ghost before = *self;
                    let c = self.clone_tree(entries[k].1, group, mutable, area, Ghost(orig_len), Ghost(shift));
                    proof {
                        assert forall|m: int| #![trigger out@[m]] 0 <= m < k implies self.deep_eq(out@[m].1, entries@[m].1) by {
                            lemma_deep_eq_extends(&before, self, out@[m].1, entries@[m].1);
                        }
                    }
                    out.push((entries[k].0.clone(), c));
                    k = k + 1;
                }
                let ghost before = *self;
                let ghost outv = out@;
                proof {
                    assert(unique_keys(old(self).slots@[idx as int].value));
                    let d = dict_entries(old(self).slots@[idx as int].value);
                    assert forall|p: int, q: int| 0 <= p < q < outv.len() implies #[trigger] outv[p].0@ != #[trigger] outv[q].0@ by {
                        assert(entries@[p] == entries@[p] && entries@[q] == entries@[q]);
                        assert(d[p].0@ != d[q].0@);
                    }
                    assert forall|m: int| 0 <= m < outv.len() implies old(self).ranks@[#[trigger] entries@[m].1 as int] < old(self).ranks@[idx as int] by {
                        assert(entries@[m] == entries@[m]);
                        assert(children(old(self).slots@[idx as int].value)[m] == entries@[m].1);
                    }
                }
                let r = self.push_slot(
                    StoredSlot { value: Value::Dict(out), mutable, fn_context: group, def_area: area },
                    Ghost(rank),
                );
                proof {
                    assert(self.slots@[idx as int] == old(self).slots@[idx as int]);
                    let d = dict_entries(old(self).slots@[idx as int].value);
                    assert forall|m: int| #![trigger outv[m]] 0 <= m < outv.len() implies {
                        &&& lookup(d, outv[m].0@) is Some
                        &&& self.deep_eq(outv[m].1, lookup(d, outv[m].0@)->Some_0)
                    } by {
                        lemma_deep_eq_extends(&before, self, outv[m].1, entries@[m].1);
                        let d = dict_entries(old(self).slots@[idx as int].value);
                        assert(entries@[m] == entries@[m]);
                        assert(d[m].0@ == outv[m].0@);
                        lemma_lookup_unique(d, m);
                    }
                    assert(self.deep_eq(r, idx));
                }
                r
            },
            v => {
                let r = self.push_slot(StoredSlot { value: v, mutable, fn_context: group, def_area: area }, Ghost(rank));
                assert(self.slots@[idx as int] == old(self).slots@[idx as int]);
                assert(self.deep_eq(r, idx));
                r
            },
        }
    }

    /// Copies the value at `index` into a fresh slot, arrays and dictionaries
    /// down to their leaves. The copy is immutable when `force_immutable` is
    /// set and otherwise as mutable as the value it copies.
    pub fn clone_value(&mut self, index: usize, group: Group, force_immutable: bool, area: CodeArea) -> (r: usize)
        requires
            old(self).wf(),
            index < old(self).slots@.len(),
        ensures
            final(self).wf(),
            final(self).extends(old(self)),
            old(self).slots@.len() <= r < final(self).slots@.len(),
            r != index,
            final(self).deep_eq(r, index),
            final(self).slots@[r as int].mutable == (!force_immutable && old(self).slots@[index as int].mutable),
            final(self).slots@[r as int].fn_context == group,
            final(self).slots@[r as int].def_area == area,
            final(self).ranks@[r as int] < old(self).floor@,
            fresh_parts(final(self).slots@[r as int].value, old(self).slots@[index as int].value, old(self).slots@.len()),
    {
        let mutable = !force_immutable && self.slots[index].mutable;
        let ghost shift = self.ranks@[index as int] - self.floor@ + 1;
        let ghost orig_len = self.slots@.len() as int;
        proof {
            self.floor@ = self.floor@ - shift;
        }
        let r = self.clone_tree(index, group, mutable, area, Ghost(orig_len), Ghost(shift));
        r
    }

    /// Replaces the value at an index. What the new value refers to must
    /// rank below the slot, as fresh copies from `clone_value` do.
    pub fn set_value(&mut self, i: usize, value: Value)
        requires
            old(self).wf(),
            i < old(self).slots@.len(),
            unique_keys(value),
            forall|k: int| 0 <= k < children(value).len() ==> {
                let c = #[trigger] children(value)[k];
                &&& c < old(self).slots@.len()
                &&& old(self).ranks@[c as int] < old(self).ranks@[i as int]
            },
        ensures
            final(self).wf(),
            final(self).slots@ == old(self).slots@.update(i as int, StoredSlot { value, ..old(self).slots@[i as int] }),
            final(self).ranks == old(self).ranks,
            final(self).floor == old(self).floor,
            final(self).top == old(self).top,
    {
        self.slots[i].value = value;
        assert forall|j: int, k: int|
            0 <= j < self.slots@.len() && 0 <= k < children(self.slots@[j].value).len() implies {
                let c = #[trigger] children(self.slots@[j].value)[k];
                &&& c < self.slots@.len()
                &&& self.ranks@[c as int] < self.ranks@[j]
            } by {
            if j != i {
                assert(self.slots@[j] == old(self).slots@[j]);
            }
        }
        assert forall|j: int| 0 <= j < self.slots@.len() implies #[trigger] unique_keys(self.slots@[j].value) by {
            if j != i {
                assert(self.slots@[j] == old(self).slots@[j]);
            }
        }
    }

    /// Records where the value at an index was last defined.
    pub fn set_area(&mut self, i: usize, area: CodeArea)
        requires
            old(self).wf(),
            i < old(self).slots@.len(),
        ensures
            final(self).wf(),
            final(self).slots@ == old(self).slots@.update(i as int, StoredSlot { def_area: area, ..old(self).slots@[i as int] }),
            final(self).ranks == old(self).ranks,
            final(self).floor == old(self).floor,
            final(self).top == old(self).top,
    {
        self.slots[i].def_area = area;
        assert(forall|j: int| 0 <= j < self.slots@.len() ==> #[trigger] self.slots@[j].value == old(self).slots@[j].value);
    }

    /// A copy of the value at `index` whose arrays and dictionaries refer to
    /// fresh copies of their parts.
    pub fn clone_and_get_value(&mut self, index: usize, group: Group, force_immutable: bool) -> (r: Value)
        requires
            old(self).wf(),
            index < old(self).slots@.len(),
        ensures
            final(self).wf(),
            final(self).extends(old(self)),
            exists|c: usize| old(self).slots@.len() <= c < final(self).slots@.len()
                && same_shallow(r, #[trigger] final(self).slots@[c as int].value) && final(self).deep_eq(c, index)
                && final(self).ranks@[c as int] < old(self).floor@,
            forall|k: int| 0 <= k < children(r).len() ==> {
                let c = #[trigger] children(r)[k];
                &&& c < final(self).slots@.len()
                &&& final(self).ranks@[c as int] < old(self).floor@
            },
            unique_keys(r),
            variant_tag(r) == variant_tag(old(self).slots@[index as int].value),
    {
        let c = self.clone_value(index, group, force_immutable, CodeArea::new());
        let r = self.slots[c].value.copy();
        proof {
            assert(self.deep_eq(c, index));
            assert(unique_keys(self.slots@[c as int].value));
            let d = self.slots@[c as int].value;
            assert forall|k: int| 0 <= k < children(r).len() implies {
                let x = #[trigger] children(r)[k];
                &&& x < self.slots@.len()
                &&& self.ranks@[x as int] < old(self).floor@
            } by {
                assert(children(r)[k] == children(d)[k]);
            }
            assert(children(r) == children(d));
        }
        r
    }

    /// Fresh copies of the values at `items`, each as mutable as the value it copies.
    pub fn clone_all(&mut self, items: &Vec<usize>, group: Group, area: CodeArea) -> (r: Vec<usize>)
        requires
            old(self).wf(),
            forall|k: int| 0 <= k < items@.len() ==> #[trigger] items@[k] < old(self).slots@.len(),
        ensures
            final(self).wf(),
            final(self).extends(old(self)),
            r@.len() == items@.len(),
            forall|k: int| #![trigger r@[k]] 0 <= k < r@.len() ==> {
                &&& old(self).slots@.len() <= r@[k] < final(self).slots@.len()
                &&& final(self).deep_eq(r@[k], items@[k])
                &&& final(self).ranks@[r@[k] as int] < old(self).floor@
                &&& final(self).slots@[r@[k] as int].mutable == old(self).slots@[items@[k] as int].mutable
            },
    {
        let mut out: Vec<usize> = Vec::new();
        let mut k: usize = 0;
        while k < items.len()
            invariant
                self.wf(),
                self.extends(old(self)),
                k <= items@.len(),
                out@.len() == k,
                forall|m: int| 0 <= m < items@.len() ==> #[trigger] items@[m] < old(self).slots@.len(),
                forall|m: int| #![trigger out@[m]] 0 <= m < k ==> {
                    &&& old(self).slots@.len() <= out@[m] < self.slots@.len()
                    &&& self.deep_eq(out@[m], items@[m])
                    &&& self.ranks@[out@[m] as int] < old(self).floor@
                    &&& self.slots@[out@[m] as int].mutable == old(self).slots@[items@[m] as int].mutable
                },
            decreases items.len() - k,
        {
            let x = items[k];
            let ghost before = *self;
            assert(self.slots@[x as int] == old(self).slots@[x as int]);
            let mutable = self.can_mutate(x);
            let c = self.clone_value(x, group, !mutable, area);
            proof {
                assert forall|m: int| #![trigger out@[m]] 0 <= m < k implies {
                    &&& self.deep_eq(out@[m], items@[m])
                    &&& self.ranks@[out@[m] as int] < old(self).floor@
                    &&& self.slots@[out@[m] as int].mutable == old(self).slots@[items@[m] as int].mutable
                } by {
                    lemma_deep_eq_extends(&before, self, out@[m], items@[m]);
                }
            }
            out.push(c);
            k = k + 1;
        }
        out
    }

    /// Stores `value` when it refers only to slots of this store and its
    /// names are distinct; gives `None` otherwise.
    pub fn store_checked(&mut self, value: Value, group: Group, def_area: CodeArea, mutable: bool) -> (r: Option<usize>)
        requires
            old(self).wf(),
        ensures
            final(self).wf(),
            final(self).extends(old(self)),
            r is Some <==> unique_keys(value) && forall|k: int|
                0 <= k < children(value).len() ==> #[trigger] children(value)[k] < old(self).slots@.len(),
            r is Some ==> r->Some_0 == old(self).slots@.len()
                && final(self).slots@ == old(self).slots@.push(StoredSlot { value, mutable, fn_context: group, def_area }),
            r is None ==> *final(self) == *old(self),
    {
        let n = self.slots.len();
        match &value {
            Value::Array(items) => {
                let mut k: usize = 0;
                while k < items.len()
                    invariant
                        k <= items@.len(),
                        n == self.slots@.len(),
                        *self == *old(self),
                        old(self).wf(),
                        value == Value::Array(*items),
                        forall|j: int| 0 <= j < k ==> #[trigger] items@[j] < n,
                    decreases items.len() - k,
                {
                    if items[k] >= n {
                        assert(children(value)[k as int] == items@[k as int]);
                        return None;
                    }
                    k = k + 1;
                }
                assert forall|j: int| 0 <= j < children(value).len() implies #[trigger] children(value)[j] < n by {
                    assert(children(value)[j] == items@[j]);
                }
            },
            Value::Dict(entries) => {
                let mut k: usize = 0;
                while k < entries.len()
                    invariant
                        k <= entries@.len(),
                        n == self.slots@.len(),
                        *self == *old(self),
                        old(self).wf(),
                        value == Value::Dict(*entries),
                        forall|j: int| 0 <= j < k ==> #[trigger] entries@[j].1 < n,
                        forall|p: int, q: int| 0 <= p < q < k ==> #[trigger] entries@[p].0@ != #[trigger] entries@[q].0@,
                    decreases entries.len() - k,
                {
                    if entries[k].1 >= n {
                        assert(children(value)[k as int] == entries@[k as int].1);
                        return None;
                    }
                    let mut p: usize = 0;
                    while p < k
                        invariant
                            p <= k,
                            k < entries@.len(),
                            value == Value::Dict(*entries),
                            *self == *old(self),
                            old(self).wf(),
                            forall|q: int| 0 <= q < p ==> #[trigger] entries@[q].0@ != entries@[k as int].0@,
                        decreases k - p,
                    {
                        if strings_equal(&entries[p].0, &entries[k].0) {
                            proof {
                                if unique_keys(value) {
                                    let d = value->Dict_0@;
                                    assert(d == entries@);
                                    assert(d[p as int].0@ != d[k as int].0@);
                                }
                            }
                            return None;
                        }
                        p = p + 1;
                    }
                    k = k + 1;
                }
                assert forall|j: int| 0 <= j < children(value).len() implies #[trigger] children(value)[j] < n by {
                    assert(children(value)[j] == entries@[j].1);
                }
            },
            _ => {},
        }
        Some(self.store(value, group, def_area, mutable))
    }

    /// The value at an index.
    pub fn get(&self, i: usize) -> (r: &Value)
        requires
            i < self.slots@.len(),
        ensures
            *r == self.slots@[i as int].value,
    {
        &self.slots[i].value
    }

    /// Whether the value at an index may be updated in place.
    pub fn can_mutate(&self, i: usize) -> (r: bool)
        requires
            i < self.slots@.len(),
        ensures
            r == self.slots@[i as int].mutable,
    {
        self.slots[i].mutable
    }

    /// Where the value at an index was defined.
    pub fn get_area(&self, i: usize) -> (r: CodeArea)
        requires
            i < self.slots@.len(),
        ensures
            r == self.slots@[i as int].def_area,
    {
        self.slots[i].def_area
    }

    /// The group under which the value at an index was last made live.
    pub fn get_fn_context(&self, i: usize) -> (r: Group)
        requires
            i < self.slots@.len(),
        ensures
            r == self.slots@[i as int].fn_context,
    {
        self.slots[i].fn_context
    }

    pub fn set_mutability(&mut self, i: usize, mutable: bool)
        requires
            old(self).wf(),
            i < old(self).slots@.len(),
        ensures
            final(self).wf(),
            final(self).slots@ == old(self).slots@.update(i as int, StoredSlot { mutable, ..old(self).slots@[i as int] }),
            final(self).ranks == old(self).ranks,
            final(self).floor == old(self).floor,
    {
        self.slots[i].mutable = mutable;
        assert(forall|j: int| 0 <= j < self.slots@.len() ==> #[trigger] self.slots@[j].value == old(self).slots@[j].value);
    }

    /// Whether the values at two indices are structurally equal.
    pub fn value_equality(&self, a: usize, b: usize) -> (r: bool)
        requires
            self.wf(),
            a < self.slots@.len(),
            b < self.slots@.len(),
        ensures
            r == self.deep_eq(a, b),
        decreases self.ranks@[a as int] - self.floor@,
    {
        match (&self.slots[a].value, &self.slots[b].value) {
            (Value::Array(x), Value::Array(y)) => {
                if x.len() != y.len() {
                    return false;
                }
                let mut k: usize = 0;
                while k < x.len()
                    invariant
                        self.wf(),
                        a < self.slots@.len(),
                        b < self.slots@.len(),
                        self.slots@[a as int].value == Value::Array(*x),
                        self.slots@[b as int].value == Value::Array(*y),
                        x@.len() == y@.len(),
                        k <= x@.len(),
                        forall|m: int| 0 <= m < k ==> #[trigger] self.deep_eq(x@[m], y@[m]),
                    decreases x.len() - k,
                {
                    assert(children(self.slots@[a as int].value)[k as int] == x@[k as int]);
                    assert(children(self.slots@[b as int].value)[k as int] == y@[k as int]);
                    if !self.value_equality(x[k], y[k]) {
                        assert(!self.deep_eq(a, b));
                        return false;
                    }
                    k = k + 1;
                }
                assert forall|m: int| #![trigger x@[m]] 0 <= m < x@.len() implies children(self.slots@[a as int].value)[m] == x@[m] && self.deep_eq(x@[m], y@[m]) by {
                    assert(self.deep_eq(x@[m], y@[m]));
                }
                assert(self.deep_eq(a, b));
                true
            },
            (Value::Dict(x), Value::Dict(y)) => {
                if x.len() != y.len() {
                    return false;
                }
                let mut k: usize = 0;
                while k < x.len()
                    invariant
                        self.wf(),
                        a < self.slots@.len(),
                        b < self.slots@.len(),
                        self.slots@[a as int].value == Value::Dict(*x),
                        self.slots@[b as int].value == Value::Dict(*y),
                        x@.len() == y@.len(),
                        k <= x@.len(),
                        forall|m: int| #![trigger x@[m]] 0 <= m < k ==> {
                            &&& lookup(y@, x@[m].0@) is Some
                            &&& self.deep_eq(x@[m].1, lookup(y@, x@[m].0@)->Some_0)
                        },
                    decreases x.len() - k,
                {
                    assert(children(self.slots@[a as int].value)[k as int] == x@[k as int].1);
                    match dict_get(y, &x[k].0) {
                        None => {
                            assert(!self.deep_eq(a, b));
                            return false;
                        },
                        Some(j) => {
                            proof {
                                lemma_lookup_in(y@, x@[k as int].0@);
                                let i = choose|i: int|
                                    0 <= i < y@.len() && #[trigger] y@[i].1 == j && y@[i].0@ == x@[k as int].0@;
                                assert(children(self.slots@[b as int].value)[i] == y@[i].1);
                            }
                            if !self.value_equality(x[k].1, j) {
                                assert(!self.deep_eq(a, b));
                                return false;
                            }
                        },
                    }
                    k = k + 1;
                }
                assert forall|m: int| #![trigger x@[m]] 0 <= m < x@.len() implies {
                    &&& children(self.slots@[a as int].value)[m] == x@[m].1
                    &&& lookup(y@, x@[m].0@) is Some
                    &&& self.deep_eq(x@[m].1, lookup(y@, x@[m].0@)->Some_0)
                } by {
                    assert(children(self.slots@[a as int].value)[m] == x@[m].1);
                }
                assert(self.deep_eq(a, b));
                true
            },
            (va, vb) => {
                let r = leaf_equal(va, vb);
                r
            },
        }
    }
}

} // verus!

verus! {

proof fn lemma_lookup_same_keys(a: Seq<(String, usize)>, b: Seq<(String, usize)>, name: Seq<char>)
    requires
        a.len() == b.len(),
        forall|k: int| 0 <= k < a.len() ==> (#[trigger] a[k]).0@ == b[k].0@,
    ensures
        lookup(a, name) is Some == lookup(b, name) is Some,
    decreases a.len(),
{
    if a.len() > 0 {
        assert(a[0].0@ == b[0].0@);
        assert forall|k: int| 0 <= k < a.drop_first().len() implies (#[trigger] a.drop_first()[k]).0@ == b.drop_first()[k].0@ by {
            assert(a[k + 1].0@ == b[k + 1].0@);
        }
        lemma_lookup_same_keys(a.drop_first(), b.drop_first(), name);
    }
}

/// A clone of a dictionary has a member under a name exactly when its source
/// has one, and that member is a fresh slot, never the source's.
pub proof fn lemma_clone_lookup(s0: &ValueStore, s1: &ValueStore, i: usize, r: usize, name: Seq<char>)
    requires
        s0.wf(),
        i < s0.slots@.len(),
        s0.slots@[i as int].value is Dict,
        fresh_parts(s1.slots@[r as int].value, s0.slots@[i as int].value, s0.slots@.len()),
    ensures
        lookup(dict_entries(s1.slots@[r as int].value), name) is Some == lookup(dict_entries(s0.slots@[i as int].value), name) is Some,
        lookup(dict_entries(s1.slots@[r as int].value), name) matches Some(y) ==> s0.slots@.len() <= y
            && lookup(dict_entries(s0.slots@[i as int].value), name) != Some(y),
{
    let copy = s1.slots@[r as int].value;
    let source = s0.slots@[i as int].value;
    let a = dict_entries(copy);
    let b = dict_entries(source);
    lemma_lookup_same_keys(a, b, name);
    lemma_lookup_in(a, name);
    lemma_lookup_in(b, name);
    if lookup(a, name) is Some {
        let j = choose|j: int| 0 <= j < a.len() && #[trigger] a[j].1 == lookup(a, name)->Some_0 && a[j].0@ == name;
        assert(children(copy)[j] == a[j].1);
        let q = choose|q: int| 0 <= q < b.len() && #[trigger] b[q].1 == lookup(b, name)->Some_0 && b[q].0@ == name;
        assert(children(source)[q] == b[q].1);
    }
}

} // verus!
