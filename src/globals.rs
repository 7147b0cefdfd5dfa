//! The state of one compilation: the value store, the user-defined
//! implementations per type, and the emitted objects and triggers.
use vstd::prelude::*;

use crate::builtins::BuiltinPermissions;
use crate::context::{Context, ContextView};
use crate::error::RuntimeError;
use crate::ids::{Group, Id};
use crate::store::ValueStore;
use crate::value::{CodeArea, ObjParam, ObjectMode, same_param};

verus! {

/// An emitted unit of the level.
#[derive(Debug)]
pub struct GdObj {
    /// Parameters by key; each key once.
    pub params: Vec<(u16, ObjParam)>,
    /// The function whose output holds the unit.
    pub func_id: usize,
    pub mode: ObjectMode,
    /// Unique across the compilation.
    pub unique_id: usize,
}

/// The key of the group-id parameter of an emitted trigger.
pub const GROUPS_KEY: u16 = 57;

/// The key of the spawn-triggered parameter of a trigger.
pub const SPAWN_TRIGGERED_KEY: u16 = 62;

/// The parameter under `key`, by its first occurrence.
pub open spec fn param_lookup(params: Seq<(u16, ObjParam)>, key: u16) -> Option<ObjParam>
    decreases params.len(),
{
    if params.len() == 0 {
        None
    } else if params[0].0 == key {
        Some(params[0].1)
    } else {
        param_lookup(params.drop_first(), key)
    }
}

/// The parameter of the last pair with key `key`.
pub open spec fn last_with_key(pairs: Seq<(u16, ObjParam)>, key: u16) -> Option<ObjParam>
    decreases pairs.len(),
{
    if pairs.len() == 0 {
        None
    } else if pairs.last().0 == key {
        Some(pairs.last().1)
    } else {
        last_with_key(pairs.drop_last(), key)
    }
}

/// `params` holds, under each key, the parameter of the last of `pairs` with
/// that key, and no other key.
pub open spec fn built_from_pairs(params: Seq<(u16, ObjParam)>, pairs: Seq<(u16, ObjParam)>) -> bool {
    forall|k: u16| {
        &&& (#[trigger] param_lookup(params, k)) is Some == last_with_key(pairs, k) is Some
        &&& param_lookup(params, k) is Some ==> same_param(param_lookup(params, k)->Some_0, last_with_key(pairs, k)->Some_0)
    }
}

/// Sets the parameter under `key`, replacing the one that was there.
pub fn insert_param(params: &mut Vec<(u16, ObjParam)>, key: u16, p: ObjParam)
    ensures
        param_lookup(final(params)@, key) == Some(p),
        forall|k: u16| k != key ==> param_lookup(final(params)@, k) == param_lookup(old(params)@, k),
{
    let mut i: usize = 0;
    while i < params.len()
        invariant
            i <= params@.len(),
            params@ == old(params)@,
            forall|j: int| 0 <= j < i ==> (#[trigger] params@[j]).0 != key,
        decreases params.len() - i,
    {
        if params[i].0 == key {
            let ghost pre = params@;
            params.set(i, (key, p));
            proof {
                lemma_param_lookup_update(pre, i as int, key, p);
            }
            return;
        }
        i = i + 1;
    }
    let ghost pre = params@;
    params.push((key, p));
    proof {
        lemma_param_lookup_push(pre, key, p);
    }
}

proof fn lemma_param_lookup_update(s: Seq<(u16, ObjParam)>, i: int, key: u16, p: ObjParam)
    requires
        0 <= i < s.len(),
        s[i].0 == key,
        forall|j: int| 0 <= j < i ==> (#[trigger] s[j]).0 != key,
    ensures
        param_lookup(s.update(i, (key, p)), key) == Some(p),
        forall|k: u16| k != key ==> param_lookup(s.update(i, (key, p)), k) == param_lookup(s, k),
    decreases s.len(),
{
    if i > 0 {
        assert(s.update(i, (key, p)).drop_first() =~= s.drop_first().update(i - 1, (key, p)));
        assert forall|j: int| 0 <= j < i - 1 implies (#[trigger] s.drop_first()[j]).0 != key by {
            assert(s[j + 1].0 != key);
        }
        lemma_param_lookup_update(s.drop_first(), i - 1, key, p);
        assert forall|k: u16| k != key implies param_lookup(s.update(i, (key, p)), k) == param_lookup(s, k) by {
            let u = s.update(i, (key, p));
            assert(u[0] == s[0]);
            assert(u.drop_first() == s.drop_first().update(i - 1, (key, p)));
            if s[0].0 != k {
                assert(param_lookup(u, k) == param_lookup(u.drop_first(), k));
                assert(param_lookup(s, k) == param_lookup(s.drop_first(), k));
            }
        }
    } else {
        assert(s.update(i, (key, p)).drop_first() =~= s.drop_first());
    }
}

proof fn lemma_param_lookup_push(s: Seq<(u16, ObjParam)>, key: u16, p: ObjParam)
    requires
        forall|j: int| 0 <= j < s.len() ==> (#[trigger] s[j]).0 != key,
    ensures
        param_lookup(s.push((key, p)), key) == Some(p),
        forall|k: u16| k != key ==> param_lookup(s.push((key, p)), k) == param_lookup(s, k),
    decreases s.len(),
{
    if s.len() > 0 {
        assert(s.push((key, p)).drop_first() =~= s.drop_first().push((key, p)));
        assert forall|j: int| 0 <= j < s.drop_first().len() implies (#[trigger] s.drop_first()[j]).0 != key by {
            assert(s[j + 1].0 != key);
        }
        lemma_param_lookup_push(s.drop_first(), key, p);
        assert forall|k: u16| k != key implies param_lookup(s.push((key, p)), k) == param_lookup(s, k) by {
            let u = s.push((key, p));
            assert(u[0] == s[0]);
            assert(u.drop_first() == s.drop_first().push((key, p)));
            if s[0].0 != k {
                assert(param_lookup(u, k) == param_lookup(u.drop_first(), k));
                assert(param_lookup(s, k) == param_lookup(s.drop_first(), k));
            }
        }
        assert(s.push((key, p))[0] == s[0]);
    } else {
        assert(s.push((key, p)).drop_first() =~= s);
    }
}

/// The ordered output of one function: triggers with their ordering keys.
#[derive(Debug)]
pub struct FunctionOutput {
    pub obj_list: Vec<(GdObj, u64)>,
}

/// The state of one compilation.
pub struct Globals {
    pub stored_values: ValueStore,
    /// User-defined members per type tag.
    pub implementations: Vec<(u16, Vec<(String, usize)>)>,
    /// Static objects.
    pub objects: Vec<GdObj>,
    /// The output of each function, by function id.
    pub func_ids: Vec<FunctionOutput>,
    pub uid_counter: usize,
    /// The last ordering key handed out; keys only grow.
    pub trigger_order: u64,
    pub permissions: BuiltinPermissions,
}

/// Ordering keys handed out one after another only grow: when each
/// emission takes its key from where the previous one left the counter, a
/// later branch's trigger comes after an earlier branch's.
pub proof fn lemma_ordering_keys_increase(counters: Seq<u64>, used: Seq<u64>)
    requires
        counters.len() == used.len() + 1,
        forall|i: int| 0 <= i < used.len() ==> #[trigger] ordering_step(counters[i], counters[i + 1], used[i]),
    ensures
        forall|i: int, j: int| 0 <= i < j < used.len() ==> #[trigger] used[i] < #[trigger] used[j],
    decreases used.len(),
{
    if used.len() > 1 {
        let c = counters.drop_last();
        let u = used.drop_last();
        assert forall|i: int| 0 <= i < u.len() implies #[trigger] ordering_step(c[i], c[i + 1], u[i]) by {
            assert(ordering_step(counters[i], counters[i + 1], used[i]));
        }
        lemma_ordering_keys_increase(c, u);
        let n = used.len() - 1;
        let m = n - 1;
        assert(ordering_step(counters[m], counters[m + 1], used[m]));
        assert(ordering_step(counters[n], counters[n + 1], used[n]));
        assert forall|i: int, j: int| 0 <= i < j < used.len() implies #[trigger] used[i] < #[trigger] used[j] by {
            if j < n {
                assert(u[i] < u[j]);
            } else {
                if i < n - 1 {
                    assert(u[i] < u[n - 1]);
                }
            }
        }
    }
}

/// One emission of a trigger moves the ordering counter from `before` to
/// `after` and gives the trigger the key `used`.
pub open spec fn ordering_step(before: u64, after: u64, used: u64) -> bool {
    used == before + 1 && after == used
}

/// Whether an emission from the branch `c` can go through: a plain object
/// needs the root group or an override; the counters must not be exhausted.
pub open spec fn may_emit(g: &Globals, c: ContextView, mode: ObjectMode, ignore_context: bool) -> bool {
    &&& !(mode == ObjectMode::Object && !ignore_context && c.start_group != root_group())
    &&& g.uid_counter < usize::MAX
    &&& !(mode == ObjectMode::Trigger && g.trigger_order == u64::MAX)
}

/// What emitting a unit from the branch `c` does to the compilation `g0`,
/// giving `g1`; `ok` tells whether it went through.
pub open spec fn emission(
    g0: &Globals,
    g1: &Globals,
    c: ContextView,
    mode: ObjectMode,
    ignore_context: bool,
    params: Seq<(u16, ObjParam)>,
    ok: bool,
) -> bool {
    &&& ok == may_emit(g0, c, mode, ignore_context)
    &&& g1.stored_values == g0.stored_values
    &&& g1.implementations == g0.implementations
    &&& g1.permissions == g0.permissions
    &&& g1.func_ids@.len() == g0.func_ids@.len()
    &&& !ok ==> *g1 == *g0
    &&& ok ==> g1.uid_counter == g0.uid_counter + 1
    &&& ok && mode == ObjectMode::Object ==> {
        &&& g1.objects@.len() == g0.objects@.len() + 1
        &&& g1.objects@.drop_last() == g0.objects@
        &&& g1.objects@.last().unique_id == g1.uid_counter
        &&& g1.objects@.last().func_id == c.func_id
        &&& g1.objects@.last().mode == ObjectMode::Object
        &&& g1.objects@.last().params@ == params
        &&& g1.trigger_order == g0.trigger_order
        &&& g1.func_ids@ == g0.func_ids@
    }
    &&& ok && mode == ObjectMode::Trigger ==> {
        let list = g1.func_ids@[c.func_id as int].obj_list@;
        &&& ordering_step(g0.trigger_order, g1.trigger_order, list.last().1)
        &&& list.len() == g0.func_ids@[c.func_id as int].obj_list@.len() + 1
        &&& list.drop_last() == g0.func_ids@[c.func_id as int].obj_list@
        &&& list.last().0.unique_id == g1.uid_counter
        &&& list.last().0.func_id == c.func_id
        &&& list.last().0.mode == ObjectMode::Trigger
        &&& param_lookup(list.last().0.params@, GROUPS_KEY) == Some(ObjParam::Group(c.start_group))
        &&& forall|k: u16| k != GROUPS_KEY ==> #[trigger] param_lookup(list.last().0.params@, k) == param_lookup(params, k)
        &&& g1.objects@ == g0.objects@
        &&& forall|f: int| 0 <= f < g0.func_ids@.len() && f != c.func_id ==> #[trigger] g1.func_ids@[f] == g0.func_ids@[f]
    }
}

/// A plain object from a branch that does not target the root group is
/// refused without an override, and goes through with one.
pub proof fn lemma_objects_need_root_or_override(g: &Globals, c: ContextView)
    requires
        c.start_group != root_group(),
        g.uid_counter < usize::MAX,
    ensures
        !may_emit(g, c, ObjectMode::Object, false),
        may_emit(g, c, ObjectMode::Object, true),
{
}

/// The group that static content belongs to.
pub open spec fn root_group() -> Group {
    Group { id: Id::Specific(0) }
}

/// A trigger for the branch `context`: its function, with the group-id
/// parameter set to the branch's group, under the next unique id.
pub fn context_trigger(context: &Context, uid_counter: &mut usize) -> (r: GdObj)
    requires
        *old(uid_counter) < usize::MAX,
    ensures
        *final(uid_counter) == *old(uid_counter) + 1,
        r.unique_id == *final(uid_counter),
        r.func_id == context.func_id,
        r.mode == ObjectMode::Trigger,
        param_lookup(r.params@, GROUPS_KEY) == Some(ObjParam::Group(context.start_group)),
{
    let mut params: Vec<(u16, ObjParam)> = Vec::new();
    insert_param(&mut params, GROUPS_KEY, ObjParam::Group(context.start_group));
    *uid_counter = *uid_counter + 1;
    GdObj { params, func_id: context.func_id, mode: ObjectMode::Trigger, unique_id: *uid_counter }
}

impl Globals {
    /// A fresh compilation with `n_funcs` empty function outputs.
    pub fn new(n_funcs: usize) -> (r: Self)
        ensures
            r.stored_values.wf(),
            r.stored_values.slots@.len() == 0,
            r.func_ids@.len() == n_funcs,
            r.objects@.len() == 0,
            r.uid_counter == 0,
            r.trigger_order == 0,
            forall|b: crate::builtins::Builtin| r.permissions.allows(b) == crate::builtins::builtin_safe(b),
    {
        let mut func_ids: Vec<FunctionOutput> = Vec::new();
        let mut i: usize = 0;
        while i < n_funcs
            invariant
                i <= n_funcs,
                func_ids@.len() == i,
            decreases n_funcs - i,
        {
            func_ids.push(FunctionOutput { obj_list: Vec::new() });
            i = i + 1;
        }
        Globals {
            stored_values: ValueStore::new(),
            implementations: Vec::new(),
            objects: Vec::new(),
            func_ids,
            uid_counter: 0,
            trigger_order: 0,
            permissions: BuiltinPermissions::new(),
        }
    }

    /// Emits a unit from the branch `context`. A plain object is static
    /// content: only a branch of the root group, or an explicit override,
    /// may emit one. A trigger goes to the end of its function's list under
    /// the next ordering key.
    pub fn emit(&mut self, context: &Context, params: Vec<(u16, ObjParam)>, mode: ObjectMode, ignore_context: bool, info: CodeArea) -> (r: Result<(), RuntimeError>)
        requires
            context.func_id < old(self).func_ids@.len(),
        ensures
            emission(old(self), final(self), context@, mode, ignore_context, params@, r is Ok),
            r is Err ==> (r->Err_0 is BuiltinError || r->Err_0 is CustomError),
    {
        if self.uid_counter == usize::MAX {
            return Err(RuntimeError::custom("too many objects", info));
        }
        match mode {
            ObjectMode::Object => {
                if !ignore_context && !(context.start_group.id == Id::Specific(0)) {
                    // static content cannot be added at runtime
                    return Err(RuntimeError::builtin("you cannot add an obj type object at runtime", info));
                }
                self.uid_counter = self.uid_counter + 1;
                self.objects.push(GdObj { params, func_id: context.func_id, mode: ObjectMode::Object, unique_id: self.uid_counter });
                assert(self.objects@.drop_last() =~= old(self).objects@);
                Ok(())
            },
            ObjectMode::Trigger => {
                if self.trigger_order == u64::MAX {
                    return Err(RuntimeError::custom("too many triggers", info));
                }
                let mut obj = context_trigger(context, &mut self.uid_counter);
                let mut all = params;
                insert_param(&mut all, GROUPS_KEY, ObjParam::Group(context.start_group));
                obj.params = all;
                self.trigger_order = self.trigger_order + 1;
                let order = self.trigger_order;
                let fid = context.func_id;
                let ghost pre = self.func_ids@[fid as int].obj_list@;
                self.func_ids[fid].obj_list.push((obj, order));
                assert(self.func_ids@[fid as int].obj_list@.drop_last() =~= pre);
                Ok(())
            },
        }
    }
}

} // verus!
