use vstd::prelude::*;
use crate::ir::{is_call, BasicBlock, Func, Instruction, Node, NodePool, NodeRef, Type};
use crate::lang::Expr;
use crate::recorder::{capture_step, captured_node, BufferBinding, CapturedBuffer, Recorder};

verus! {

/// Failures of the recording core.
#[derive(Clone, Copy, Debug, PartialEq, Eq, Structural)]
pub enum RecordError {
    /// A session was begun while another one is open.
    ReentrantRecording,
    /// A session was finished with a builder stack whose depth is not one.
    UnbalancedScopes,
    /// A session was finished that was never begun.
    NotRecording,
    /// The capability is not implemented.
    Unimplemented,
}

/// Host-side handle of a device buffer: its resource id, its size in bytes
/// and the type of its elements.
#[derive(Clone, Copy, Debug, PartialEq, Eq, Structural)]
pub struct Buffer {
    pub handle: u64,
    pub size_bytes: usize,
    pub ty: Type,
}

impl Buffer {
    pub fn new(handle: u64, size_bytes: usize, ty: Type) -> (r: Self)
        ensures
            r == (Buffer { handle, size_bytes, ty }),
    {
        Buffer { handle, size_bytes, ty }
    }

    pub fn size_bytes(&self) -> (r: usize)
        ensures
            r == self.size_bytes,
    {
        self.size_bytes
    }
}

/// A buffer as seen from inside a kernel body: a node of the session, and
/// the host resource when the buffer was captured rather than declared.
#[derive(Clone, Copy, Debug, PartialEq, Eq, Structural)]
pub struct BufferVar {
    pub node: NodeRef,
    pub handle: Option<u64>,
    pub ty: Type,
}

pub struct BindlessArrayVar {
    pub node: NodeRef,
}

pub struct ImageVar {
    pub node: NodeRef,
    pub handle: Option<u64>,
    pub ty: Type,
}

pub struct VolumeVar {
    pub node: NodeRef,
    pub handle: Option<u64>,
    pub ty: Type,
}

impl BufferVar {
    /// Captures `buffer` in the current session. A resource already captured
    /// keeps its node; a new one gets a fresh buffer node and a binding.
    pub fn new(rec: &mut Recorder, buffer: &Buffer) -> (r: Self)
        requires
            old(rec).wf(),
            old(rec).pool@.len() < usize::MAX,
        ensures
            final(rec).wf(),
            final(rec).handles() == capture_step(old(rec).handles(), buffer.handle),
            final(rec).handles().contains(buffer.handle),
            final(rec).scopes == old(rec).scopes,
            final(rec).lock == old(rec).lock,
            r.handle == Some(buffer.handle),
            r.ty == buffer.ty,
            r.node == captured_node(final(rec).captured_buffer@, buffer.handle),
            old(rec).handles().contains(buffer.handle) ==> {
                &&& final(rec).pool == old(rec).pool
                &&& final(rec).captured_buffer == old(rec).captured_buffer
            },
            !old(rec).handles().contains(buffer.handle) ==> {
                &&& r.node.0 == old(rec).pool@.len()
                &&& final(rec).pool@ == old(rec).pool@.push(
                    Node { instruction: Instruction::Buffer, ty: buffer.ty },
                )
                &&& final(rec).captured_buffer@ == old(rec).captured_buffer@.push(
                    CapturedBuffer {
                        handle: buffer.handle,
                        node: r.node,
                        binding: BufferBinding {
                            handle: buffer.handle,
                            size: buffer.size_bytes,
                            offset: 0,
                        },
                    },
                )
            },
    {
        let node = rec.capture_buffer(buffer.handle, buffer.size_bytes(), buffer.ty);
        BufferVar { node, handle: Some(buffer.handle), ty: buffer.ty }
    }

    /// Emits a query of the buffer's length.
    pub fn len(&self, rec: &mut Recorder) -> (r: Expr)
        requires
            old(rec).wf(),
            old(rec).pool@.len() < usize::MAX,
        ensures
            final(rec).wf(),
            Recorder::emitted(old(rec), final(rec), r.proxy.node),
            is_call(final(rec).pool@.last(), Func::BufferSize, seq![self.node]),
            final(rec).pool@.last().ty == Type::Uint32,
    {
        let mut args = Vec::new();
        args.push(self.node);
        assert(args@ =~= seq![self.node]);
        Expr::from_node(rec.call(Func::BufferSize, args, Type::Uint32))
    }

    /// Emits a read of element `i`.
    pub fn read(&self, rec: &mut Recorder, i: &Expr) -> (r: Expr)
        requires
            old(rec).wf(),
            old(rec).pool@.len() < usize::MAX,
        ensures
            final(rec).wf(),
            Recorder::emitted(old(rec), final(rec), r.proxy.node),
            is_call(final(rec).pool@.last(), Func::BufferRead, seq![self.node, i.proxy.node]),
            final(rec).pool@.last().ty == self.ty,
    {
        let mut args = Vec::new();
        args.push(self.node);
        args.push(i.node());
        assert(args@ =~= seq![self.node, i.proxy.node]);
        Expr::from_node(rec.call(Func::BufferRead, args, self.ty))
    }

    /// Emits a write of `v` at element `i`.
    pub fn write(&self, rec: &mut Recorder, i: &Expr, v: &Expr)
        requires
            old(rec).wf(),
            old(rec).pool@.len() < usize::MAX,
        ensures
            final(rec).wf(),
            Recorder::emitted(old(rec), final(rec), NodeRef(old(rec).pool@.len() as usize)),
            is_call(
                final(rec).pool@.last(),
                Func::BufferWrite,
                seq![self.node, i.proxy.node, v.proxy.node],
            ),
            final(rec).pool@.last().ty == Type::Void,
    {
        let mut args = Vec::new();
        args.push(self.node);
        args.push(i.node());
        args.push(v.node());
        assert(args@ =~= seq![self.node, i.proxy.node, v.proxy.node]);
        rec.call(Func::BufferWrite, args, Type::Void);
    }

    /// Atomic operations are not implemented.
    pub fn atomic_exchange(&self, i: &Expr, v: &Expr) -> (r: Result<Expr, RecordError>)
        ensures
            r == Err::<Expr, RecordError>(RecordError::Unimplemented),
    {
        Err(RecordError::Unimplemented)
    }
}

impl BindlessArrayVar {
    /// Emits a read of element `element_index` of buffer `buffer_index`.
    pub fn buffer_read(
        &self,
        rec: &mut Recorder,
        buffer_index: &Expr,
        element_index: &Expr,
        ty: Type,
    ) -> (r: Expr)
        requires
            old(rec).wf(),
            old(rec).pool@.len() < usize::MAX,
        ensures
            final(rec).wf(),
            Recorder::emitted(old(rec), final(rec), r.proxy.node),
            is_call(
                final(rec).pool@.last(),
                Func::BindlessBufferRead,
                seq![self.node, buffer_index.proxy.node, element_index.proxy.node],
            ),
            final(rec).pool@.last().ty == ty,
    {
        let mut args = Vec::new();
        args.push(self.node);
        args.push(buffer_index.node());
        args.push(element_index.node());
        assert(args@ =~= seq![self.node, buffer_index.proxy.node, element_index.proxy.node]);
        Expr::from_node(rec.call(Func::BindlessBufferRead, args, ty))
    }

    /// Emits a query of the length of buffer `buffer_index`.
    pub fn buffer_length(&self, rec: &mut Recorder, buffer_index: &Expr) -> (r: Expr)
        requires
            old(rec).wf(),
            old(rec).pool@.len() < usize::MAX,
        ensures
            final(rec).wf(),
            Recorder::emitted(old(rec), final(rec), r.proxy.node),
            is_call(
                final(rec).pool@.last(),
                Func::BindlessBufferSize,
                seq![self.node, buffer_index.proxy.node],
            ),
            final(rec).pool@.last().ty == Type::Uint32,
    {
        let mut args = Vec::new();
        args.push(self.node);
        args.push(buffer_index.node());
        assert(args@ =~= seq![self.node, buffer_index.proxy.node]);
        Expr::from_node(rec.call(Func::BindlessBufferSize, args, Type::Uint32))
    }
}


#[derive(Clone, Copy, Debug, PartialEq, Eq, Structural)]
pub enum Binding {
    Buffer(BufferBinding),
}

/// A captured resource: its node in the kernel and how it is bound.
#[derive(Clone, Copy, Debug, PartialEq, Eq, Structural)]
pub struct Capture {
    pub node: NodeRef,
    pub binding: Binding,
}

#[derive(Clone, Copy, Debug, PartialEq, Eq, Structural)]
pub enum ModuleKind {
    Kernel,
    Function,
}

pub struct Module {
    pub entry: BasicBlock,
    pub kind: ModuleKind,
}

/// The finished artifact of one recording session.
pub struct KernelModule {
    pub module: Module,
    pub captures: Vec<Capture>,
    pub shared: Vec<NodeRef>,
    pub args: Vec<NodeRef>,
    /// The arena that every node handle of this module points into.
    pub nodes: Vec<Node>,
}

pub open spec fn capture_of(c: CapturedBuffer) -> Capture {
    Capture { node: c.node, binding: Binding::Buffer(c.binding) }
}

/// Declares kernel parameters and finishes a recording session.
pub struct KernelBuilder {
    pub args: Vec<NodeRef>,
}

impl KernelBuilder {
    /// Begins a recording session. Fails, leaving the context untouched,
    /// when a session is already open.
    pub fn new(rec: &mut Recorder) -> (r: Result<KernelBuilder, RecordError>)
        requires
            old(rec).wf(),
        ensures
            final(rec).wf(),
            old(rec).lock ==> {
                &&& r == Err::<KernelBuilder, RecordError>(RecordError::ReentrantRecording)
                &&& *final(rec) == *old(rec)
            },
            !old(rec).lock ==> {
                &&& r is Ok
                &&& r->Ok_0.args@.len() == 0
                &&& final(rec).is_recording()
            },
    {
        if rec.lock {
            return Err(RecordError::ReentrantRecording);
        }
        rec.reset();
        rec.lock = true;
        Ok(KernelBuilder { args: Vec::new() })
    }

    /// Declares a buffer parameter with elements of type `ty`.
    pub fn buffer(&mut self, rec: &mut Recorder, ty: Type) -> (r: BufferVar)
        requires
            old(rec).wf(),
            old(rec).lock,
            old(rec).pool@.len() < usize::MAX,
        ensures
            final(rec).wf(),
            r == (BufferVar { node: NodeRef(old(rec).pool@.len() as usize), handle: None, ty }),
            final(self).args@ == old(self).args@.push(r.node),
            final(rec).pool@ == old(rec).pool@.push(Node { instruction: Instruction::Buffer, ty }),
            final(rec).scopes == old(rec).scopes,
            final(rec).lock == old(rec).lock,
            final(rec).captured_buffer == old(rec).captured_buffer,
    {
        let node = rec.pool.new_node(Instruction::Buffer, ty);
        proof {
            rec.lemma_pool_grown(old(rec));
        }
        self.args.push(node);
        BufferVar { node, handle: None, ty }
    }

    /// Declares a bindless-array parameter.
    pub fn bindless_array(&mut self, rec: &mut Recorder) -> (r: BindlessArrayVar)
        requires
            old(rec).wf(),
            old(rec).lock,
            old(rec).pool@.len() < usize::MAX,
        ensures
            final(rec).wf(),
            r.node.0 == old(rec).pool@.len(),
            final(self).args@ == old(self).args@.push(r.node),
            final(rec).pool@ == old(rec).pool@.push(
                Node { instruction: Instruction::Bindless, ty: Type::Uint32 },
            ),
            final(rec).scopes == old(rec).scopes,
            final(rec).lock == old(rec).lock,
            final(rec).captured_buffer == old(rec).captured_buffer,
    {
        let node = rec.pool.new_node(Instruction::Bindless, Type::Uint32);
        proof {
            rec.lemma_pool_grown(old(rec));
        }
        self.args.push(node);
        BindlessArrayVar { node }
    }

    /// 2D textures are not implemented.
    pub fn tex2d(&mut self, ty: Type) -> (r: Result<ImageVar, RecordError>)
        ensures
            r is Err && r->Err_0 == RecordError::Unimplemented,
            final(self).args == old(self).args,
    {
        Err(RecordError::Unimplemented)
    }

    /// 3D textures are not implemented.
    pub fn tex3d(&mut self, ty: Type) -> (r: Result<VolumeVar, RecordError>)
        ensures
            r is Err && r->Err_0 == RecordError::Unimplemented,
            final(self).args == old(self).args,
    {
        Err(RecordError::Unimplemented)
    }

    /// Finishes the session: the single open block becomes the entry block,
    /// the capture table becomes the capture list in the order resources
    /// were first captured, and the context returns to idle on every path.
    pub fn build(self, rec: &mut Recorder) -> (r: Result<KernelModule, RecordError>)
        requires
            old(rec).wf(),
        ensures
            final(rec).is_idle(),
            final(rec).wf(),
            !old(rec).lock ==> r == Err::<KernelModule, RecordError>(RecordError::NotRecording),
            old(rec).lock && old(rec).scopes@.len() != 1 ==> r == Err::<KernelModule, RecordError>(
                RecordError::UnbalancedScopes,
            ),
            old(rec).lock && old(rec).scopes@.len() == 1 ==> {
                &&& r is Ok
                &&& r->Ok_0.module.entry.nodes@ == old(rec).scope_views()[0]
                &&& r->Ok_0.module.kind == ModuleKind::Kernel
                &&& r->Ok_0.captures@ == old(rec).captured_buffer@.map_values(
                    |c: CapturedBuffer| capture_of(c),
                )
                &&& r->Ok_0.shared@.len() == 0
                &&& r->Ok_0.args@ == self.args@
                &&& r->Ok_0.nodes@ == old(rec).pool@
            },
    {
        if !rec.lock {
            rec.reset();
            return Err(RecordError::NotRecording);
        }
        if rec.scopes.len() != 1 {
            rec.reset();
            return Err(RecordError::UnbalancedScopes);
        }
        let scope = rec.scopes.pop().unwrap();
        let entry = scope.finish();
        let mut captures: Vec<Capture> = Vec::new();
        let n = rec.captured_buffer.len();
        let mut i: usize = 0;
        while i < n
            invariant
                n == rec.captured_buffer@.len(),
                rec.captured_buffer == old(rec).captured_buffer,
                0 <= i <= n,
                captures@ == rec.captured_buffer@.subrange(0, i as int).map_values(
                    |c: CapturedBuffer| capture_of(c),
                ),
            decreases n - i,
        {
            let c = rec.captured_buffer[i];
            captures.push(Capture { node: c.node, binding: Binding::Buffer(c.binding) });
            assert(rec.captured_buffer@.subrange(0, i + 1).map_values(|c: CapturedBuffer| capture_of(c))
                =~= captures@);
            i = i + 1;
        }
        assert(rec.captured_buffer@.subrange(0, n as int) =~= rec.captured_buffer@);
        let mut pool = NodePool::new();
        std::mem::swap(&mut pool, &mut rec.pool);
        rec.reset();
        Ok(KernelModule {
            module: Module { entry, kind: ModuleKind::Kernel },
            captures,
            shared: Vec::new(),
            args: self.args,
            nodes: pool.nodes,
        })
    }
}

/// A body that emits `rs.len() - 1` nodes, one call at a time, into a session
/// that has no block open yet leaves exactly one block, holding exactly those
/// nodes in emission order; `build` makes that block the entry block.
pub proof fn lemma_body_block(rs: Seq<Recorder>)
    requires
        rs.len() > 1,
        rs[0].scopes@.len() == 0,
        forall|i: int|
            0 <= i < rs.len() - 1 ==> Recorder::emitted(
                &rs[i],
                &#[trigger] rs[i + 1],
                NodeRef(rs[i].pool@.len() as usize),
            ),
    ensures
        rs.last().scopes@.len() == 1,
        rs.last().scope_views()[0] == Seq::new(
            (rs.len() - 1) as nat,
            |k: int| NodeRef((rs[0].pool@.len() + k) as usize),
        ),
    decreases rs.len(),
{
    let n = rs.len();
    let last = rs[n - 1];
    let prev = rs[n - 2];
    assert(Recorder::emitted(&rs[n - 2], &rs[n - 1], NodeRef(rs[n - 2].pool@.len() as usize)));
    if n == 2 {
        assert(last.scope_views().len() == 1);
        assert(last.scope_views()[0] =~= Seq::new(1, |k: int| NodeRef((rs[0].pool@.len() + k) as usize)));
    } else {
        let ps = rs.drop_last();
        assert forall|i: int| 0 <= i < ps.len() - 1 implies Recorder::emitted(
            &ps[i],
            &#[trigger] ps[i + 1],
            NodeRef(ps[i].pool@.len() as usize),
        ) by {
            assert(ps[i] == rs[i] && ps[i + 1] == rs[i + 1]);
        }
        lemma_body_block(ps);
        assert(ps.last() == prev);
        assert(prev.opened() == prev.scope_views());
        assert(prev.pool@.len() == rs[0].pool@.len() + (n - 2)) by {
            assert forall|j: int| 0 <= j < n - 1 implies #[trigger] rs[j].pool@.len() == rs[0].pool@.len() + j by {
                lemma_pool_lens(rs, j);
            }
        }
        assert(last.scope_views().len() == 1);
        assert(last.scope_views()[0] =~= Seq::new(
            (n - 1) as nat,
            |k: int| NodeRef((rs[0].pool@.len() + k) as usize),
        ));
    }
}

proof fn lemma_pool_lens(rs: Seq<Recorder>, j: int)
    requires
        0 <= j < rs.len(),
        forall|i: int|
            0 <= i < rs.len() - 1 ==> Recorder::emitted(
                &rs[i],
                &#[trigger] rs[i + 1],
                NodeRef(rs[i].pool@.len() as usize),
            ),
    ensures
        rs[j].pool@.len() == rs[0].pool@.len() + j,
    decreases j,
{
    if j > 0 {
        lemma_pool_lens(rs, j - 1);
        assert(Recorder::emitted(&rs[j - 1], &rs[j], NodeRef(rs[j - 1].pool@.len() as usize)));
    }
}

} // verus!
