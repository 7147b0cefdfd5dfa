//! Member access on values.
use vstd::prelude::*;

use crate::builtins::{Builtin, builtin_name};
use crate::context::Context;
use crate::globals::Globals;
use crate::store::{ValueStore, children, dict_get, lookup};
use crate::text::str_eq;
use crate::value::{CodeArea, TYPE_DICT, Value, variant_tag};

verus! {

/// The user-defined members of type `t`, by the first entry for it.
pub open spec fn impl_members(impls: Seq<(u16, Vec<(String, usize)>)>, t: u16) -> Option<Seq<(String, usize)>>
    decreases impls.len(),
{
    if impls.len() == 0 {
        None
    } else if impls[0].0 == t {
        Some(impls[0].1@)
    } else {
        impl_members(impls.drop_first(), t)
    }
}

/// The user-defined member `name` of type `t`.
pub open spec fn impl_lookup(impls: Seq<(u16, Vec<(String, usize)>)>, t: u16, name: Seq<char>) -> Option<usize> {
    match impl_members(impls, t) {
        Some(members) => lookup(members, name),
        None => None,
    }
}

/// The type tag of a value: a dictionary's own type member when it holds a
/// type indicator, else the tag of the variant.
pub open spec fn type_num(v: Value, s: &ValueStore) -> u16 {
    match v {
        Value::Dict(d) => match lookup(d@, "type"@) {
            Some(i) => match s.slots@[i as int].value {
                Value::TypeIndicator(t) => t,
                _ => TYPE_DICT,
            },
            None => TYPE_DICT,
        },
        _ => variant_tag(v),
    }
}

/// Where a member comes from.
pub enum MemberOf {
    /// An existing slot.
    Slot(usize),
    /// A fresh slot that holds this value.
    New(Value),
    /// A fresh slot that holds the built-in of the given name.
    BuiltinNamed,
    /// There is no such member.
    Absent,
}

/// The number of bytes that UTF-8 takes for a character.
pub open spec fn utf8_width(c: char) -> nat {
    if (c as u32) < 0x80 {
        1
    } else if (c as u32) < 0x800 {
        2
    } else if (c as u32) < 0x10000 {
        3
    } else {
        4
    }
}

/// The number of bytes of the UTF-8 encoding of a text.
pub open spec fn utf8_len(t: Seq<char>) -> nat
    decreases t.len(),
{
    if t.len() == 0 {
        0
    } else {
        utf8_len(t.drop_last()) + utf8_width(t.last())
    }
}

/// The UTF-8 length of a text, in bytes.
fn byte_length(t: &str) -> (r: u128)
    ensures
        r == utf8_len(t@),
{
    let n = t.unicode_len();
    let mut total: u128 = 0;
    let mut i: usize = 0;
    while i < n
        invariant
            n == t@.len(),
            i <= n,
            total == utf8_len(t@.subrange(0, i as int)),
            total <= 4 * i,
        decreases n - i,
    {
        let c = t.get_char(i);
        let w: u128 = if (c as u32) < 0x80 {
            1
        } else if (c as u32) < 0x800 {
            2
        } else if (c as u32) < 0x10000 {
            3
        } else {
            4
        };
        assert(t@.subrange(0, i + 1).drop_last() =~= t@.subrange(0, i as int));
        total = total + w;
        i = i + 1;
    }
    assert(t@.subrange(0, n as int) =~= t@);
    total
}

/// A member that the variant itself provides: lengths and range bounds.
pub open spec fn variant_member(v: Value, name: Seq<char>) -> Option<Value> {
    match v {
        Value::Str(t) => if name == "length"@ {
            Some(Value::Number(utf8_len(t@) as i64))
        } else {
            None
        },
        Value::Array(a) => if name == "length"@ {
            Some(Value::Number(a@.len() as i64))
        } else {
            None
        },
        Value::Range(start, end, step) => if name == "start"@ {
            Some(Value::Number(start))
        } else if name == "end"@ {
            Some(Value::Number(end))
        } else if name == "step_size"@ {
            Some(Value::Number(step as i64))
        } else {
            None
        },
        _ => None,
    }
}

/// The member `name` of `v`, in the order of resolution: the type member
/// (a dictionary's own first), what the variant provides, the built-in
/// namespace, a dictionary's entries, a trigger function's start group,
/// and the implementations of the value's type.
pub open spec fn member_of(v: Value, name: Seq<char>, s: &ValueStore, impls: Seq<(u16, Vec<(String, usize)>)>) -> MemberOf {
    let from_impl = match impl_lookup(impls, type_num(v, s), name) {
        Some(i) => MemberOf::Slot(i),
        None => MemberOf::Absent,
    };
    if name == "type"@ {
        match v {
            Value::Dict(d) => match lookup(d@, "type"@) {
                Some(i) => MemberOf::Slot(i),
                None => MemberOf::New(Value::TypeIndicator(type_num(v, s))),
            },
            _ => MemberOf::New(Value::TypeIndicator(type_num(v, s))),
        }
    } else if variant_member(v, name) is Some {
        MemberOf::New(variant_member(v, name)->Some_0)
    } else {
        match v {
            Value::Builtins => if exists|b: Builtin| builtin_name(b) == name {
                MemberOf::BuiltinNamed
            } else {
                MemberOf::Absent
            },
            Value::Dict(d) => match lookup(d@, name) {
                Some(i) => MemberOf::Slot(i),
                None => from_impl,
            },
            Value::TriggerFunc(f) => if name == "start_group"@ {
                MemberOf::New(Value::Group(f.start_group))
            } else {
                from_impl
            },
            _ => from_impl,
        }
    }
}

fn impl_get(impls: &Vec<(u16, Vec<(String, usize)>)>, t: u16, name: &String) -> (r: Option<usize>)
    ensures
        r == impl_lookup(impls@, t, name@),
{
    let mut i: usize = 0;
    assert(impls@.subrange(0, impls@.len() as int) =~= impls@);
    while i < impls.len()
        invariant
            i <= impls@.len(),
            impl_members(impls@, t) == impl_members(impls@.subrange(i as int, impls@.len() as int), t),
        decreases impls.len() - i,
    {
        let ghost rest = impls@.subrange(i as int, impls@.len() as int);
        assert(rest.drop_first() =~= impls@.subrange(i + 1, impls@.len() as int));
        if impls[i].0 == t {
            return dict_get(&impls[i].1, name);
        }
        i = i + 1;
    }
    None
}

pub fn type_number(v: &Value, s: &ValueStore) -> (r: u16)
    requires
        s.wf(),
        forall|k: int| 0 <= k < children(*v).len() ==> #[trigger] children(*v)[k] < s.slots@.len(),
    ensures
        r == type_num(*v, s),
{
    match v {
        Value::Dict(d) => {
            let key = "type".to_owned();
            match dict_get(d, &key) {
                Some(i) => {
                    proof {
                        crate::store::lemma_lookup_in(d@, "type"@);
                        let j = choose|j: int| 0 <= j < d@.len() && #[trigger] d@[j].1 == lookup(d@, "type"@)->Some_0 && d@[j].0@ == "type"@;
                        assert(children(*v)[j] == d@[j].1);
                    }
                    match s.get(i) {
                        Value::TypeIndicator(t) => *t,
                        _ => TYPE_DICT,
                    }
                },
                None => TYPE_DICT,
            }
        },
        _ => v.variant_tag(),
    }
}

fn variant_member_value(v: &Value, name: &String) -> (r: Option<Value>)
    ensures
        r == variant_member(*v, name@),
{
    match v {
        Value::Str(t) => if str_eq(name.as_str(), "length") {
            Some(Value::Number(byte_length(t.as_str()) as i64))
        } else {
            None
        },
        Value::Array(a) => if str_eq(name.as_str(), "length") {
            Some(Value::Number(a.len() as i64))
        } else {
            None
        },
        Value::Range(start, end, step) => if str_eq(name.as_str(), "start") {
            Some(Value::Number(*start))
        } else if str_eq(name.as_str(), "end") {
            Some(Value::Number(*end))
        } else if str_eq(name.as_str(), "step_size") {
            Some(Value::Number(*step as i64))
        } else {
            None
        },
        _ => None,
    }
}

impl Value {
    /// Resolves the member `name` of this value for the branch `context`.
    /// Members that are computed go into fresh immutable slots of the
    /// branch's group.
    pub fn member(&self, name: &String, context: &Context, globals: &mut Globals, info: CodeArea) -> (r: Option<usize>)
        requires
            old(globals).stored_values.wf(),
            forall|k: int| 0 <= k < children(*self).len() ==> #[trigger] children(*self)[k] < old(globals).stored_values.slots@.len(),
        ensures
            final(globals).stored_values.wf(),
            final(globals).stored_values.extends(&old(globals).stored_values),
            final(globals).func_ids == old(globals).func_ids,
            final(globals).objects == old(globals).objects,
            final(globals).implementations == old(globals).implementations,
            match member_of(*self, name@, &old(globals).stored_values, old(globals).implementations@) {
                MemberOf::Slot(i) => r == Some(i) && final(globals).stored_values == old(globals).stored_values,
                MemberOf::New(v) => r is Some && r->Some_0 == old(globals).stored_values.slots@.len()
                    && final(globals).stored_values.slots@.len() == old(globals).stored_values.slots@.len() + 1
                    && final(globals).stored_values.slots@[r->Some_0 as int].value == v
                    && !final(globals).stored_values.slots@[r->Some_0 as int].mutable
                    && final(globals).stored_values.slots@[r->Some_0 as int].fn_context == context.start_group,
                MemberOf::BuiltinNamed => r is Some && r->Some_0 == old(globals).stored_values.slots@.len()
                    && final(globals).stored_values.slots@.len() == old(globals).stored_values.slots@.len() + 1
                    && (final(globals).stored_values.slots@[r->Some_0 as int].value matches Value::BuiltinFunction(b) && builtin_name(b) == name@),
                MemberOf::Absent => r is None && final(globals).stored_values == old(globals).stored_values,
            },
    {
        let group = context.start_group;
        let t = type_number(self, &globals.stored_values);
        if str_eq(name.as_str(), "type") {
            match self {
                Value::Dict(d) => match dict_get(d, name) {
                    Some(i) => {
                        return Some(i);
                    },
                    None => {},
                },
                _ => {},
            }
            return Some(globals.stored_values.store(Value::TypeIndicator(t), group, info, false));
        }
        match variant_member_value(self, name) {
            Some(v) => {
                return Some(globals.stored_values.store(v, group, info, false));
            },
            None => {},
        }
        match self {
            Value::Builtins => match Builtin::from_name(name.as_str()) {
                Some(b) => Some(globals.stored_values.store(Value::BuiltinFunction(b), group, info, false)),
                None => None,
            },
            Value::Dict(d) => match dict_get(d, name) {
                Some(i) => Some(i),
                None => impl_get(&globals.implementations, t, name),
            },
            Value::TriggerFunc(f) => if str_eq(name.as_str(), "start_group") {
                Some(globals.stored_values.store(Value::Group(f.start_group), group, info, false))
            } else {
                impl_get(&globals.implementations, t, name)
            },
            _ => impl_get(&globals.implementations, t, name),
        }
    }
}

} // verus!
