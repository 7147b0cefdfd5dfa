//! The forest of execution branches. Each live leaf is one branch that
//! evaluates the current statement with its own target group.
use vstd::prelude::*;

use crate::ids::Group;
use crate::value::CodeArea;

verus! {

/// One crossing of a group boundary by a branch.
#[derive(Debug, Copy, Clone, PartialEq, Eq, Structural)]
pub struct ContextChange {
    pub source: CodeArea,
    pub from: Group,
    pub to: Group,
}

/// One branch of evaluation.
#[derive(Debug)]
pub struct Context {
    /// The group that this branch targets.
    pub start_group: Group,
    /// The function whose output list this branch emits into.
    pub func_id: usize,
    /// The slot that holds this branch's last result.
    pub return_value: usize,
    /// Every group change that this branch crossed, oldest first.
    pub fn_context_change_stack: Vec<ContextChange>,
}

pub struct ContextView {
    pub start_group: Group,
    pub func_id: usize,
    pub return_value: usize,
    pub changes: Seq<ContextChange>,
}

impl View for Context {
    type V = ContextView;

    open spec fn view(&self) -> ContextView {
        ContextView {
            start_group: self.start_group,
            func_id: self.func_id,
            return_value: self.return_value,
            changes: self.fn_context_change_stack@,
        }
    }
}

/// The branch that a fork of `c` toward `to` at `source` gives.
pub open spec fn forked(c: ContextView, to: Group, source: CodeArea) -> ContextView {
    ContextView {
        start_group: to,
        changes: c.changes.push(ContextChange { source, from: c.start_group, to }),
        ..c
    }
}

pub fn copy_changes(v: &Vec<ContextChange>) -> (r: Vec<ContextChange>)
    ensures
        r@ == v@,
{
    let mut out: Vec<ContextChange> = Vec::new();
    let mut i: usize = 0;
    while i < v.len()
        invariant
            i <= v.len(),
            out@ =~= v@.subrange(0, i as int),
        decreases v.len() - i,
    {
        out.push(v[i]);
        i = i + 1;
    }
    assert(out@ =~= v@);
    out
}

impl Context {
    /// A root branch, with no group changes behind it.
    pub fn new(start_group: Group, func_id: usize, return_value: usize) -> (r: Self)
        ensures
            r@ == (ContextView { start_group, func_id, return_value, changes: Seq::empty() }),
    {
        Context { start_group, func_id, return_value, fn_context_change_stack: Vec::new() }
    }

    /// A new branch that keeps this one's function and return slot, targets
    /// `to`, and records the change.
    pub fn fork(&self, to: Group, source: CodeArea) -> (r: Self)
        ensures
            r@ == forked(self@, to, source),
    {
        let mut changes = copy_changes(&self.fn_context_change_stack);
        changes.push(ContextChange { source, from: self.start_group, to });
        Context {
            start_group: to,
            func_id: self.func_id,
            return_value: self.return_value,
            fn_context_change_stack: changes,
        }
    }
}

/// All branches, as the flat sequence of their live leaves in traversal order.
pub struct FullContext {
    pub leaves: Vec<Context>,
}

impl View for FullContext {
    type V = Seq<ContextView>;

    open spec fn view(&self) -> Seq<ContextView> {
        self.leaves@.map_values(|c: Context| c@)
    }
}

impl FullContext {
    /// A forest with one root branch.
    pub fn new(root: Context) -> (r: Self)
        ensures
            r@ == seq![root@],
    {
        let mut leaves = Vec::new();
        leaves.push(root);
        let r = FullContext { leaves };
        assert(r@ =~= seq![root@]);
        r
    }

    pub fn leaf_count(&self) -> (r: usize)
        ensures
            r == self@.len(),
    {
        self.leaves.len()
    }

    /// Replaces leaf `i` by one fork toward each of `groups`, in their order;
    /// with no groups the leaf ends.
    pub fn split(&mut self, i: usize, groups: &Vec<Group>, source: CodeArea)
        requires
            i < old(self)@.len(),
        ensures
            final(self)@ == old(self)@.subrange(0, i as int) + groups@.map_values(
                |g: Group| forked(old(self)@[i as int], g, source),
            ) + old(self)@.subrange(i + 1, old(self)@.len() as int),
    {
        let leaf = self.leaves.remove(i);
        let ghost before = self@;
        let mut k: usize = 0;
        while k < groups.len()
            invariant
                k <= groups@.len(),
                i <= before.len(),
                leaf@ == old(self)@[i as int],
                self.leaves@.len() == before.len() + k,
                before == old(self)@.subrange(0, i as int) + old(self)@.subrange(i + 1, old(self)@.len() as int),
                self@ == before.subrange(0, i as int) + groups@.subrange(0, k as int).map_values(
                    |g: Group| forked(leaf@, g, source),
                ) + before.subrange(i as int, before.len() as int),
            decreases groups.len() - k,
        {
            let c = leaf.fork(groups[k], source);
            let ghost pre = self@;
            let n: usize = self.leaves.len();
            assert(i + k <= n);
            self.leaves.insert(i + k, c);
            proof {
                assert(self@ =~= pre.insert(i + k, c@));
                assert(groups@.subrange(0, k + 1).map_values(|g: Group| forked(leaf@, g, source))
                    =~= groups@.subrange(0, k as int).map_values(|g: Group| forked(leaf@, g, source)).push(c@));
                assert(self@ =~= before.subrange(0, i as int) + groups@.subrange(0, k + 1).map_values(
                    |g: Group| forked(leaf@, g, source),
                ) + before.subrange(i as int, before.len() as int));
            }
            k = k + 1;
        }
        assert(groups@.subrange(0, groups@.len() as int) =~= groups@);
        assert(before.subrange(0, i as int) =~= old(self)@.subrange(0, i as int));
        assert(before.subrange(i as int, before.len() as int) =~= old(self)@.subrange(i + 1, old(self)@.len() as int));
    }
}

} // verus!

verus! {

impl FullContext {
    /// Opens a branch of leaf `leaf` toward `group`, as a new leaf at the end
    /// of the forest, for a body that runs in that group; the leaf itself
    /// stays. Returns the new leaf's index.
    pub fn enter_group(&mut self, leaf: usize, group: Group, source: CodeArea) -> (r: usize)
        requires
            leaf < old(self)@.len(),
        ensures
            r == old(self)@.len(),
            final(self)@ == old(self)@.push(forked(old(self)@[leaf as int], group, source)),
    {
        let c = self.leaves[leaf].fork(group, source);
        let r = self.leaves.len();
        self.leaves.push(c);
        assert(self@ =~= old(self)@.push(forked(old(self)@[leaf as int], group, source)));
        r
    }
}

} // verus!
