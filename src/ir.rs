use vstd::prelude::*;

verus! {

/// Handle of a node: its index in the arena that allocated it.
#[derive(Clone, Copy, Debug, PartialEq, Eq, Structural)]
pub struct NodeRef(pub usize);

/// Structural type descriptor of a node's result.
/// Composite types are registered elsewhere and referred to by id.
#[derive(Clone, Copy, Debug, PartialEq, Eq, Structural)]
pub enum Type {
    Void,
    Bool,
    Int32,
    Uint32,
    Int64,
    Uint64,
    Float32,
    Float64,
    Struct(u64),
}

/// Constant payloads: a closed set of scalar tags plus a generic byte blob.
/// Floating-point constants are carried as their IEEE-754 bit patterns.
#[derive(Clone, Debug, PartialEq, Eq)]
pub enum Const {
    Bool(bool),
    Int32(i32),
    Uint32(u32),
    Int64(i64),
    Uint64(u64),
    Float32(u32),
    Float64(u64),
    Generic(Vec<u8>, Type),
}

#[derive(Clone, Copy, Debug, PartialEq, Eq, Structural)]
pub enum Func {
    Load,
    Store,
    ExtractElement,
    Struct,
    Select,
    Add,
    Sub,
    Mul,
    Div,
    DispatchId,
    BufferRead,
    BufferWrite,
    BufferSize,
    BindlessBufferRead,
    BindlessBufferSize,
}

#[derive(Clone, Debug, PartialEq, Eq)]
pub enum Instruction {
    Buffer,
    Bindless,
    Local,
    Argument,
    Const(Const),
    Call(Func, Vec<NodeRef>),
}

/// One immutable IR instruction and its result type.
#[derive(Clone, Debug, PartialEq, Eq)]
pub struct Node {
    pub instruction: Instruction,
    pub ty: Type,
}

/// Whether `n` is a call of `f` on exactly the operands `args`.
pub open spec fn is_call(n: Node, f: Func, args: Seq<NodeRef>) -> bool {
    match n.instruction {
        Instruction::Call(g, a) => g == f && a@ == args,
        _ => false,
    }
}

pub open spec fn is_const(n: Node, c: Const) -> bool {
    match n.instruction {
        Instruction::Const(d) => d == c,
        _ => false,
    }
}

/// The type a constant carries, read off its tag.
pub open spec fn const_type(c: Const) -> Type {
    match c {
        Const::Bool(_) => Type::Bool,
        Const::Int32(_) => Type::Int32,
        Const::Uint32(_) => Type::Uint32,
        Const::Int64(_) => Type::Int64,
        Const::Uint64(_) => Type::Uint64,
        Const::Float32(_) => Type::Float32,
        Const::Float64(_) => Type::Float64,
        Const::Generic(_, t) => t,
    }
}

impl Const {
    pub fn type_(&self) -> (r: Type)
        ensures
            r == const_type(*self),
    {
        match self {
            Const::Bool(_) => Type::Bool,
            Const::Int32(_) => Type::Int32,
            Const::Uint32(_) => Type::Uint32,
            Const::Int64(_) => Type::Int64,
            Const::Uint64(_) => Type::Uint64,
            Const::Float32(_) => Type::Float32,
            Const::Float64(_) => Type::Float64,
            Const::Generic(_, t) => *t,
        }
    }
}

/// Append-only arena of nodes; a `NodeRef` is an index into it.
pub struct NodePool {
    pub nodes: Vec<Node>,
}

impl NodePool {
    pub open spec fn view(&self) -> Seq<Node> {
        self.nodes@
    }

    pub open spec fn contains(&self, n: NodeRef) -> bool {
        n.0 < self.nodes@.len()
    }

    pub fn new() -> (r: Self)
        ensures
            r@ == Seq::<Node>::empty(),
    {
        NodePool { nodes: Vec::new() }
    }

    pub fn len(&self) -> (r: usize)
        ensures
            r == self@.len(),
    {
        self.nodes.len()
    }

    /// Allocates a fresh node outside of any block.
    pub fn new_node(&mut self, instruction: Instruction, ty: Type) -> (r: NodeRef)
        requires
            old(self)@.len() < usize::MAX,
        ensures
            r.0 == old(self)@.len(),
            final(self)@ == old(self)@.push(Node { instruction, ty }),
    {
        let r = NodeRef(self.nodes.len());
        self.nodes.push(Node { instruction, ty });
        r
    }

    pub fn type_of(&self, n: NodeRef) -> (r: Type)
        requires
            self.contains(n),
        ensures
            r == self@[n.0 as int].ty,
    {
        self.nodes[n.0].ty
    }
}

/// A finished, immutable sequence of nodes.
pub struct BasicBlock {
    pub nodes: Vec<NodeRef>,
}

/// A cursor appending nodes to a block in progress.
pub struct IrBuilder {
    pub nodes: Vec<NodeRef>,
}

impl IrBuilder {
    pub fn new() -> (r: Self)
        ensures
            r.nodes@ == Seq::<NodeRef>::empty(),
    {
        IrBuilder { nodes: Vec::new() }
    }

    /// Allocates a call node in `pool` and appends it to this block.
    pub fn call(&mut self, pool: &mut NodePool, f: Func, args: Vec<NodeRef>, ty: Type) -> (r:
        NodeRef)
        requires
            old(pool)@.len() < usize::MAX,
        ensures
            r.0 == old(pool)@.len(),
            final(pool)@.len() == old(pool)@.len() + 1,
            final(pool)@.drop_last() == old(pool)@,
            is_call(final(pool)@.last(), f, args@),
            final(pool)@.last().ty == ty,
            final(self).nodes@ == old(self).nodes@.push(r),
    {
        let r = pool.new_node(Instruction::Call(f, args), ty);
        self.nodes.push(r);
        r
    }

    /// Allocates a constant node in `pool` and appends it to this block.
    pub fn const_(&mut self, pool: &mut NodePool, c: Const) -> (r: NodeRef)
        requires
            old(pool)@.len() < usize::MAX,
        ensures
            r.0 == old(pool)@.len(),
            final(pool)@.len() == old(pool)@.len() + 1,
            final(pool)@.drop_last() == old(pool)@,
            is_const(final(pool)@.last(), c),
            final(pool)@.last().ty == const_type(c),
            final(self).nodes@ == old(self).nodes@.push(r),
    {
        let ty = c.type_();
        let r = pool.new_node(Instruction::Const(c), ty);
        self.nodes.push(r);
        r
    }

    /// Freezes the block; nothing more can be appended through this builder.
    pub fn finish(self) -> (r: BasicBlock)
        ensures
            r.nodes@ == self.nodes@,
    {
        BasicBlock { nodes: self.nodes }
    }
}

} // verus!
