use vstd::prelude::*;
use crate::ir::{Instruction, Node, is_call, is_const, const_type, Const, Func, IrBuilder, NodePool, NodeRef, Type};

verus! {

/// Binding descriptor of a captured buffer: which resource, and which bytes of it.
#[derive(Clone, Copy, Debug, PartialEq, Eq, Structural)]
pub struct BufferBinding {
    pub handle: u64,
    pub size: usize,
    pub offset: usize,
}

/// One row of the capture table: a resource id, its node and its binding.
#[derive(Clone, Copy, Debug, PartialEq, Eq, Structural)]
pub struct CapturedBuffer {
    pub handle: u64,
    pub node: NodeRef,
    pub binding: BufferBinding,
}

/// The recording context of one thread: node arena, stack of open scopes,
/// re-entrancy lock and the capture table of the current session.
pub struct Recorder {
    pub pool: NodePool,
    pub scopes: Vec<IrBuilder>,
    pub lock: bool,
    pub captured_buffer: Vec<CapturedBuffer>,
}

/// The handles of a capture table, in the order they were first captured.
pub open spec fn handles_of(t: Seq<CapturedBuffer>) -> Seq<u64> {
    t.map_values(|c: CapturedBuffer| c.handle)
}

impl Recorder {
    /// The blocks in progress, outermost first.
    pub open spec fn scope_views(&self) -> Seq<Seq<NodeRef>> {
        self.scopes@.map_values(|b: IrBuilder| b.nodes@)
    }

    /// The scopes as they stand once the current one has been requested:
    /// an empty stack opens one empty block.
    pub open spec fn opened(&self) -> Seq<Seq<NodeRef>> {
        if self.scopes@.len() == 0 {
            seq![Seq::<NodeRef>::empty()]
        } else {
            self.scope_views()
        }
    }

    /// The block that the next emitted node goes to, as it stands now.
    pub open spec fn block(&self) -> Seq<NodeRef> {
        self.opened().last()
    }

    pub open spec fn handles(&self) -> Seq<u64> {
        handles_of(self.captured_buffer@)
    }

    pub open spec fn is_idle(&self) -> bool {
        &&& self.pool@.len() == 0
        &&& self.scopes@.len() == 0
        &&& !self.lock
        &&& self.captured_buffer@.len() == 0
    }

    /// A session has just begun: locked, with nothing recorded yet.
    pub open spec fn is_recording(&self) -> bool {
        &&& self.pool@.len() == 0
        &&& self.scopes@.len() == 0
        &&& self.lock
        &&& self.captured_buffer@.len() == 0
    }

    /// Every handle that the context holds points into its arena, and each
    /// resource id has at most one row in the capture table.
    pub open spec fn wf(&self) -> bool {
        &&& forall|i: int, j: int|
            0 <= i < self.scopes@.len() && 0 <= j < self.scopes@[i].nodes@.len()
                ==> self.pool.contains(#[trigger] self.scopes@[i].nodes@[j])
        &&& forall|i: int|
            0 <= i < self.captured_buffer@.len() ==> {
                let c = #[trigger] self.captured_buffer@[i];
                &&& self.pool.contains(c.node)
                &&& c.binding.handle == c.handle
            }
        &&& self.handles().no_duplicates()
    }

    /// Result of emitting node `r` into the current block of `old`.
    pub open spec fn emitted(old: &Recorder, new: &Recorder, r: NodeRef) -> bool {
        &&& r.0 == old.pool@.len()
        &&& new.pool@.len() == old.pool@.len() + 1
        &&& new.pool@.drop_last() == old.pool@
        &&& new.scopes@.len() == if old.scopes@.len() == 0 {
            1
        } else {
            old.scopes@.len()
        }
        &&& new.scope_views() == old.opened().update(
            old.opened().len() - 1,
            old.block().push(r),
        )
        &&& new.lock == old.lock
        &&& new.captured_buffer@ == old.captured_buffer@
    }

    proof fn lemma_emitted_wf(old: &Recorder, new: &Recorder, r: NodeRef)
        requires
            old.wf(),
            Recorder::emitted(old, new, r),
            new.captured_buffer == old.captured_buffer,
        ensures
            new.wf(),
    {
        assert(new.handles() == old.handles());
        assert forall|i: int, j: int|
            0 <= i < new.scopes@.len() && 0 <= j < new.scopes@[i].nodes@.len()
                implies new.pool.contains(#[trigger] new.scopes@[i].nodes@[j]) by {
            let k = old.opened().len() - 1;
            assert(new.scope_views().len() == new.scopes@.len());
            assert(new.scopes@[i].nodes@ == new.scope_views()[i]);
            let x = new.scopes@[i].nodes@[j];
            if i != k {
                assert(old.scopes@.len() > 0);
                assert(old.scope_views()[i] == old.scopes@[i].nodes@);
                assert(old.pool.contains(old.scopes@[i].nodes@[j]));
            } else if j < old.block().len() {
                if old.scopes@.len() > 0 {
                    assert(old.scope_views()[k] == old.scopes@[k].nodes@);
                    assert(old.pool.contains(old.scopes@[k].nodes@[j]));
                }
                assert(x == old.block()[j]);
            } else {
                assert(x == r);
            }
        }
        assert forall|i: int| 0 <= i < new.captured_buffer@.len() implies {
            let c = #[trigger] new.captured_buffer@[i];
            &&& new.pool.contains(c.node)
            &&& c.binding.handle == c.handle
        } by {
            assert(old.captured_buffer@[i] == new.captured_buffer@[i]);
        }
    }

    /// Allocating nodes outside of every block keeps the context well formed.
    pub proof fn lemma_pool_grown(&self, old: &Recorder)
        requires
            old.wf(),
            self.scopes == old.scopes,
            self.captured_buffer == old.captured_buffer,
            self.pool@.len() >= old.pool@.len(),
        ensures
            self.wf(),
    {
        assert forall|i: int, j: int|
            0 <= i < self.scopes@.len() && 0 <= j < self.scopes@[i].nodes@.len()
                implies self.pool.contains(#[trigger] self.scopes@[i].nodes@[j]) by {
            assert(old.pool.contains(old.scopes@[i].nodes@[j]));
        }
        assert forall|i: int| 0 <= i < self.captured_buffer@.len() implies {
            let c = #[trigger] self.captured_buffer@[i];
            &&& self.pool.contains(c.node)
            &&& c.binding.handle == c.handle
        } by {
            assert(old.captured_buffer@[i] == self.captured_buffer@[i]);
        }
    }

    pub fn new() -> (r: Self)
        ensures
            r.is_idle(),
            r.wf(),
    {
        Recorder {
            pool: NodePool::new(),
            scopes: Vec::new(),
            lock: false,
            captured_buffer: Vec::new(),
        }
    }

    /// Returns the context to the idle state: no scope, no lock, no capture.
    pub fn reset(&mut self)
        ensures
            final(self).is_idle(),
            final(self).wf(),
    {
        self.scopes.clear();
        self.lock = false;
        self.captured_buffer.clear();
        self.pool = NodePool::new();
    }

    /// Takes the builder of the current block off the stack, opening one if
    /// the stack is empty.
    fn take_top(&mut self) -> (r: IrBuilder)
        ensures
            r.nodes@ == old(self).block(),
            final(self).scope_views() == old(self).opened().drop_last(),
            final(self).pool == old(self).pool,
            final(self).lock == old(self).lock,
            final(self).captured_buffer == old(self).captured_buffer,
    {
        if self.scopes.len() == 0 {
            IrBuilder::new()
        } else {
            let r = self.scopes.pop().unwrap();
            assert(self.scope_views() =~= old(self).scope_views().drop_last());
            r
        }
    }

    fn put_top(&mut self, b: IrBuilder)
        ensures
            final(self).scope_views() == old(self).scope_views().push(b.nodes@),
            final(self).pool == old(self).pool,
            final(self).lock == old(self).lock,
            final(self).captured_buffer == old(self).captured_buffer,
    {
        self.scopes.push(b);
        assert(self.scope_views() =~= old(self).scope_views().push(b.nodes@));
    }

    /// Emits a call node into the current block.
    pub fn call(&mut self, f: Func, args: Vec<NodeRef>, ty: Type) -> (r: NodeRef)
        requires
            old(self).wf(),
            old(self).pool@.len() < usize::MAX,
        ensures
            final(self).wf(),
            Recorder::emitted(old(self), final(self), r),
            is_call(final(self).pool@.last(), f, args@),
            final(self).pool@.last().ty == ty,
    {
        let mut b = self.take_top();
        let r = b.call(&mut self.pool, f, args, ty);
        self.put_top(b);
        assert(self.scope_views() =~= old(self).opened().update(
            old(self).opened().len() - 1,
            old(self).block().push(r),
        ));
        proof {
            Recorder::lemma_emitted_wf(old(self), self, r);
        }
        r
    }

    /// Emits a constant node into the current block.
    pub fn const_(&mut self, c: Const) -> (r: NodeRef)
        requires
            old(self).wf(),
            old(self).pool@.len() < usize::MAX,
        ensures
            final(self).wf(),
            Recorder::emitted(old(self), final(self), r),
            is_const(final(self).pool@.last(), c),
            final(self).pool@.last().ty == const_type(c),
    {
        let mut b = self.take_top();
        let r = b.const_(&mut self.pool, c);
        self.put_top(b);
        assert(self.scope_views() =~= old(self).opened().update(
            old(self).opened().len() - 1,
            old(self).block().push(r),
        ));
        proof {
            Recorder::lemma_emitted_wf(old(self), self, r);
        }
        r
    }
}

/// The capture table after resource `h` has been referenced once more:
/// a resource already present is not added again.
pub open spec fn capture_step(t: Seq<u64>, h: u64) -> Seq<u64> {
    if t.contains(h) {
        t
    } else {
        t.push(h)
    }
}

/// The resource ids in the capture table after the resources `hs` have been
/// referenced in this order, starting from an empty table.
pub open spec fn captures_after(hs: Seq<u64>) -> Seq<u64>
    decreases hs.len(),
{
    if hs.len() == 0 {
        Seq::empty()
    } else {
        capture_step(captures_after(hs.drop_last()), hs.last())
    }
}

/// However often and in whatever order resources are referenced, the capture
/// table holds each distinct resource exactly once: its length is the number
/// of distinct resources, not the number of references.
pub proof fn lemma_capture_dedup(hs: Seq<u64>)
    ensures
        captures_after(hs).no_duplicates(),
        captures_after(hs).to_set() == hs.to_set(),
        captures_after(hs).len() == hs.to_set().len(),
    decreases hs.len(),
{
    if hs.len() == 0 {
        assert(hs.to_set() =~= Set::empty());
        assert(captures_after(hs).to_set() =~= Set::empty());
    } else {
        let p = hs.drop_last();
        let h = hs.last();
        lemma_capture_dedup(p);
        let t = captures_after(p);
        p.lemma_push_to_set_commute(h);
        assert(p.push(h) =~= hs);
        if t.contains(h) {
            assert(t.to_set().contains(h));
            assert(hs.to_set() =~= t.to_set());
        } else {
            t.lemma_push_to_set_commute(h);
            assert(t.push(h).no_duplicates()) by {
                assert forall|i: int, j: int|
                    0 <= i < t.push(h).len() && 0 <= j < t.push(h).len() && i != j
                        implies t.push(h)[i] != t.push(h)[j] by {
                    if i < t.len() && j < t.len() {
                    } else if i < t.len() {
                        assert(t.contains(t[i]));
                    } else {
                        assert(t.contains(t[j]));
                    }
                }
            }
        }
    }
    captures_after(hs).unique_seq_to_set();
}

/// The node that the capture table holds for resource `h`.
pub open spec fn captured_node(t: Seq<CapturedBuffer>, h: u64) -> NodeRef
    decreases t.len(),
{
    if t.len() == 0 {
        NodeRef(0)
    } else if t.last().handle == h {
        t.last().node
    } else {
        captured_node(t.drop_last(), h)
    }
}

proof fn lemma_captured_node(t: Seq<CapturedBuffer>, i: int)
    requires
        handles_of(t).no_duplicates(),
        0 <= i < t.len(),
    ensures
        captured_node(t, t[i].handle) == t[i].node,
    decreases t.len(),
{
    if i < t.len() - 1 {
        assert(handles_of(t)[i] == t[i].handle);
        assert(handles_of(t)[t.len() - 1] == t.last().handle);
        assert(handles_of(t.drop_last()) =~= handles_of(t).drop_last());
        lemma_captured_node(t.drop_last(), i);
    }
}

impl Recorder {
    /// Looks up resource `handle` in the capture table; on a miss, allocates a
    /// fresh buffer node and records its binding. Returns the resource's node.
    pub fn capture_buffer(&mut self, handle: u64, size: usize, ty: Type) -> (r: NodeRef)
        requires
            old(self).wf(),
            old(self).pool@.len() < usize::MAX,
        ensures
            final(self).wf(),
            final(self).handles() == capture_step(old(self).handles(), handle),
            final(self).handles().contains(handle),
            final(self).scopes == old(self).scopes,
            final(self).lock == old(self).lock,
            r == captured_node(final(self).captured_buffer@, handle),
            old(self).handles().contains(handle) ==> {
                &&& final(self).pool == old(self).pool
                &&& final(self).captured_buffer == old(self).captured_buffer
            },
            !old(self).handles().contains(handle) ==> {
                &&& r.0 == old(self).pool@.len()
                &&& final(self).pool@ == old(self).pool@.push(
                    Node { instruction: Instruction::Buffer, ty },
                )
                &&& final(self).captured_buffer@ == old(self).captured_buffer@.push(
                    CapturedBuffer {
                        handle,
                        node: r,
                        binding: BufferBinding { handle, size, offset: 0 },
                    },
                )
            },
    {
        let n = self.captured_buffer.len();
        let mut i: usize = 0;
        while i < n
            invariant
                n == self.captured_buffer@.len(),
                0 <= i <= n,
                *self == *old(self),
                self.wf(),
                forall|k: int| 0 <= k < i ==> (#[trigger] self.captured_buffer@[k]).handle != handle,
            decreases n - i,
        {
            if self.captured_buffer[i].handle == handle {
                let r = self.captured_buffer[i].node;
                assert(self.handles()[i as int] == handle);
                proof {
                    lemma_captured_node(self.captured_buffer@, i as int);
                }
                return r;
            }
            i = i + 1;
        }
        assert(!self.handles().contains(handle)) by {
            if self.handles().contains(handle) {
                let k = choose|k: int| 0 <= k < self.handles().len() && self.handles()[k] == handle;
                assert(self.captured_buffer@[k].handle == handle);
            }
        }
        let r = self.pool.new_node(Instruction::Buffer, ty);
        let c = CapturedBuffer { handle, node: r, binding: BufferBinding { handle, size, offset: 0 } };
        self.captured_buffer.push(c);
        assert(self.handles() =~= old(self).handles().push(handle));
        assert(self.handles()[n as int] == handle);
        assert forall|i: int, j: int|
            0 <= i < self.scopes@.len() && 0 <= j < self.scopes@[i].nodes@.len()
                implies self.pool.contains(#[trigger] self.scopes@[i].nodes@[j]) by {
            assert(old(self).pool.contains(self.scopes@[i].nodes@[j]));
        }
        assert forall|i: int| 0 <= i < self.captured_buffer@.len() implies {
            let c = #[trigger] self.captured_buffer@[i];
            &&& self.pool.contains(c.node)
            &&& c.binding.handle == c.handle
        } by {
            if i < n {
                assert(old(self).captured_buffer@[i] == self.captured_buffer@[i]);
            }
        }
        r
    }
}

} // verus!
