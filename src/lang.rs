use vstd::prelude::*;
use crate::ir::{is_call, is_const, const_type, BasicBlock, Const, Func, NodeRef, Type};
use crate::recorder::Recorder;

verus! {

/// The nodes appended to the current block: `n` fresh nodes, allocated in
/// order right after the arena's old end.
pub open spec fn fresh_nodes(old: &Recorder, n: nat) -> Seq<NodeRef> {
    Seq::new(n, |k: int| NodeRef((old.pool@.len() + k) as usize))
}

/// `new` is `old` with `n` fresh nodes allocated and appended, in order, to
/// the current block; nothing else changed.
pub open spec fn appended(old: &Recorder, new: &Recorder, n: nat) -> bool {
    &&& new.pool@.len() == old.pool@.len() + n
    &&& new.pool@.subrange(0, old.pool@.len() as int) == old.pool@
    &&& new.scopes@.len() == if old.scopes@.len() == 0 {
        1
    } else {
        old.scopes@.len()
    }
    &&& new.scope_views() == old.opened().update(
        old.opened().len() - 1,
        old.block() + fresh_nodes(old, n),
    )
    &&& new.lock == old.lock
    &&& new.captured_buffer@ == old.captured_buffer@
}

/// Opens a block if none is open; the stack is otherwise left as it is.
pub fn current_scope(rec: &mut Recorder)
    requires
        old(rec).wf(),
    ensures
        final(rec).wf(),
        final(rec).scopes@.len() > 0,
        final(rec).scope_views() == old(rec).opened(),
        final(rec).pool == old(rec).pool,
        final(rec).lock == old(rec).lock,
        final(rec).captured_buffer == old(rec).captured_buffer,
{
    if rec.scopes.len() == 0 {
        rec.scopes.push(crate::ir::IrBuilder::new());
        assert(rec.scope_views() =~= old(rec).opened());
    }
}

/// Finishes the innermost block and removes it from the stack.
pub fn pop_scope(rec: &mut Recorder) -> (r: BasicBlock)
    requires
        old(rec).wf(),
        old(rec).scopes@.len() > 0,
    ensures
        final(rec).wf(),
        r.nodes@ == old(rec).scope_views().last(),
        final(rec).scope_views() == old(rec).scope_views().drop_last(),
        final(rec).pool == old(rec).pool,
        final(rec).lock == old(rec).lock,
        final(rec).captured_buffer == old(rec).captured_buffer,
{
    let b = rec.scopes.pop().unwrap();
    assert(rec.scope_views() =~= old(rec).scope_views().drop_last());
    assert forall|i: int, j: int|
        0 <= i < rec.scopes@.len() && 0 <= j < rec.scopes@[i].nodes@.len()
            implies rec.pool.contains(#[trigger] rec.scopes@[i].nodes@[j]) by {
        assert(old(rec).scopes@[i] == rec.scopes@[i]);
    }
    b.finish()
}

proof fn lemma_appended_none(start: &Recorder)
    requires
        start.scopes@.len() > 0,
    ensures
        appended(start, start, 0),
{
    assert(start.pool@.subrange(0, start.pool@.len() as int) =~= start.pool@);
    assert(start.block() + fresh_nodes(start, 0) =~= start.block());
    assert(start.scope_views() =~= start.opened().update(
        start.opened().len() - 1,
        start.block() + fresh_nodes(start, 0),
    ));
}

proof fn lemma_appended_step(start: &Recorder, mid: &Recorder, new: &Recorder, n: nat, r: NodeRef)
    requires
        start.scopes@.len() > 0,
        appended(start, mid, n),
        Recorder::emitted(mid, new, r),
    ensures
        appended(start, new, n + 1),
{
    assert(mid.scope_views().len() == start.scope_views().len());
    assert(mid.opened() == mid.scope_views());
    assert(new.pool@.subrange(0, start.pool@.len() as int) =~= start.pool@);
    assert(mid.block() == start.block() + fresh_nodes(start, n));
    assert(start.block() + fresh_nodes(start, n + 1) =~= (start.block() + fresh_nodes(start, n)).push(r));
    assert(new.scope_views() =~= start.opened().update(
        start.opened().len() - 1,
        start.block() + fresh_nodes(start, n + 1),
    ));
}


/// A proxy flattens to an ordered list of node handles and is rebuilt from
/// such a list, consumed in the order it was produced.
pub trait Aggregate: Sized {
    spec fn nodes_view(&self) -> Seq<NodeRef>;

    /// Length of the flattened list, fixed by the type.
    spec fn arity() -> nat;

    spec fn from_nodes_spec(nodes: Seq<NodeRef>) -> Self;

    proof fn lemma_arity(&self)
        ensures
            self.nodes_view().len() == Self::arity(),
    ;

    proof fn lemma_from_to(nodes: Seq<NodeRef>)
        requires
            nodes.len() == Self::arity(),
        ensures
            Self::from_nodes_spec(nodes).nodes_view() == nodes,
    ;

    proof fn lemma_to_from(&self)
        ensures
            Self::from_nodes_spec(self.nodes_view()) == *self,
    ;

    fn to_vec_nodes(&self) -> (r: Vec<NodeRef>)
        ensures
            r@ == self.nodes_view(),
    ;

    fn from_vec_nodes(nodes: Vec<NodeRef>) -> (r: Self)
        requires
            nodes@.len() == Self::arity(),
        ensures
            r == Self::from_nodes_spec(nodes@),
    ;
}

/// A proxy that stands for a single node.
pub trait Proxy: Aggregate {
    spec fn node_spec(&self) -> NodeRef;

    fn from_node(node: NodeRef) -> (r: Self)
        ensures
            r.node_spec() == node,
            r.nodes_view() == seq![node],
    ;

    fn node(&self) -> (r: NodeRef)
        ensures
            r == self.node_spec(),
    ;
}

/// A host value that can be embedded in a kernel as a constant. The constant
/// tag is chosen by the type, from a closed set of scalar tags.
pub trait Value: Sized {
    spec fn const_spec(&self) -> Const;

    fn to_const(&self) -> (r: Const)
        ensures
            r == self.const_spec(),
    ;
}

impl Value for bool {
    open spec fn const_spec(&self) -> Const {
        Const::Bool(*self)
    }

    fn to_const(&self) -> (r: Const) {
        Const::Bool(*self)
    }
}

impl Value for i32 {
    open spec fn const_spec(&self) -> Const {
        Const::Int32(*self)
    }

    fn to_const(&self) -> (r: Const) {
        Const::Int32(*self)
    }
}

impl Value for u32 {
    open spec fn const_spec(&self) -> Const {
        Const::Uint32(*self)
    }

    fn to_const(&self) -> (r: Const) {
        Const::Uint32(*self)
    }
}

impl Value for i64 {
    open spec fn const_spec(&self) -> Const {
        Const::Int64(*self)
    }

    fn to_const(&self) -> (r: Const) {
        Const::Int64(*self)
    }
}

impl Value for u64 {
    open spec fn const_spec(&self) -> Const {
        Const::Uint64(*self)
    }

    fn to_const(&self) -> (r: Const) {
        Const::Uint64(*self)
    }
}

/// Proxy of a scalar value: one node.
#[derive(Clone, Copy, Debug, PartialEq, Eq, Structural)]
pub struct PrimProxy {
    pub node: NodeRef,
}

impl Aggregate for PrimProxy {
    open spec fn nodes_view(&self) -> Seq<NodeRef> {
        seq![self.node]
    }

    open spec fn arity() -> nat {
        1
    }

    open spec fn from_nodes_spec(nodes: Seq<NodeRef>) -> Self {
        PrimProxy { node: nodes[0] }
    }

    proof fn lemma_arity(&self) {
    }

    proof fn lemma_from_to(nodes: Seq<NodeRef>) {
        assert(seq![nodes[0]] =~= nodes);
    }

    proof fn lemma_to_from(&self) {
    }

    fn to_vec_nodes(&self) -> (r: Vec<NodeRef>) {
        let mut nodes = Vec::new();
        nodes.push(self.node);
        assert(nodes@ =~= seq![self.node]);
        nodes
    }

    fn from_vec_nodes(nodes: Vec<NodeRef>) -> (r: Self) {
        PrimProxy { node: nodes[0] }
    }
}

impl Proxy for PrimProxy {
    open spec fn node_spec(&self) -> NodeRef {
        self.node
    }

    fn from_node(node: NodeRef) -> (r: Self) {
        PrimProxy { node }
    }

    fn node(&self) -> (r: NodeRef) {
        self.node
    }
}

/// Rebuilding a proxy from its own flattened node list gives back the same
/// proxy, with the same node handles in the same order.
pub proof fn lemma_flatten_round_trip<A: Aggregate>(x: A)
    ensures
        A::from_nodes_spec(x.nodes_view()) == x,
        A::from_nodes_spec(x.nodes_view()).nodes_view() == x.nodes_view(),
        x.nodes_view().len() == A::arity(),
{
    x.lemma_to_from();
    x.lemma_arity();
}

/// Emits one store per (storage node, value node) pair, in order.
pub fn _store<T: Aggregate>(rec: &mut Recorder, var: &T, value: &T)
    requires
        old(rec).wf(),
        old(rec).pool@.len() + T::arity() < usize::MAX,
    ensures
        final(rec).wf(),
        appended(old(rec), final(rec), T::arity()),
        forall|k: int|
            0 <= k < T::arity() ==> {
                let n = #[trigger] final(rec).pool@[old(rec).pool@.len() + k];
                &&& is_call(n, Func::Store, seq![var.nodes_view()[k], value.nodes_view()[k]])
                &&& n.ty == Type::Void
            },
{
    let value_nodes = value.to_vec_nodes();
    let self_nodes = var.to_vec_nodes();
    proof {
        var.lemma_arity();
        value.lemma_arity();
    }
    current_scope(rec);
    let ghost start = *rec;
    proof {
        lemma_appended_none(&start);
    }
    let n = self_nodes.len();
    let mut i: usize = 0;
    while i < n
        invariant
            n == T::arity(),
            value_nodes@ == value.nodes_view(),
            self_nodes@ == var.nodes_view(),
            value_nodes@.len() == n,
            self_nodes@.len() == n,
            old(rec).pool@.len() + n < usize::MAX,
            0 <= i <= n,
            start.scopes@.len() > 0,
            start.scope_views() == old(rec).opened(),
            start.pool == old(rec).pool,
            start.lock == old(rec).lock,
            start.captured_buffer == old(rec).captured_buffer,
            rec.wf(),
            appended(&start, rec, i as nat),
            forall|k: int|
                0 <= k < i ==> {
                    let m = #[trigger] rec.pool@[old(rec).pool@.len() + k];
                    &&& is_call(m, Func::Store, seq![var.nodes_view()[k], value.nodes_view()[k]])
                    &&& m.ty == Type::Void
                },
        decreases n - i,
    {
        let mut args = Vec::new();
        args.push(self_nodes[i]);
        args.push(value_nodes[i]);
        let ghost mid = *rec;
        let r = rec.call(Func::Store, args, Type::Void);
        proof {
            lemma_appended_step(&start, &mid, rec, i as nat, r);
            assert(args@ =~= seq![var.nodes_view()[i as int], value.nodes_view()[i as int]]);
            assert forall|k: int| 0 <= k < i + 1 implies {
                let m = #[trigger] rec.pool@[old(rec).pool@.len() + k];
                &&& is_call(m, Func::Store, seq![var.nodes_view()[k], value.nodes_view()[k]])
                &&& m.ty == Type::Void
            } by {
                if k < i {
                    assert(rec.pool@.drop_last()[old(rec).pool@.len() + k] == mid.pool@[old(rec).pool@.len() + k]);
                }
            }
        }
        i = i + 1;
    }
    assert(start.opened() == old(rec).opened());
    assert(start.block() == old(rec).block());
}


proof fn lemma_appended_one(old: &Recorder, new: &Recorder)
    requires
        appended(old, new, 1),
        old.pool@.len() < usize::MAX,
    ensures
        Recorder::emitted(old, new, NodeRef(old.pool@.len() as usize)),
        new.pool@.last() == new.pool@[old.pool@.len() as int],
{
    assert(new.pool@.drop_last() =~= new.pool@.subrange(0, old.pool@.len() as int));
    assert(old.block() + fresh_nodes(old, 1) =~= old.block().push(NodeRef(old.pool@.len() as usize)));
}

/// Read-only handle of a computed value.
#[derive(Clone, Copy, Debug, PartialEq, Eq, Structural)]
pub struct Expr {
    pub proxy: PrimProxy,
}

/// Handle of a mutable storage slot.
#[derive(Clone, Copy, Debug, PartialEq, Eq, Structural)]
pub struct Var {
    pub proxy: PrimProxy,
}

/// `new` is `old` with one store of `value` into `var` appended to the
/// current block.
pub open spec fn stored(old: &Recorder, new: &Recorder, var: Var, value: Expr) -> bool {
    &&& Recorder::emitted(old, new, NodeRef(old.pool@.len() as usize))
    &&& is_call(new.pool@.last(), Func::Store, seq![var.proxy.node, value.proxy.node])
    &&& new.pool@.last().ty == Type::Void
}

/// `new` is `old` with one load of `var` appended to the current block, and
/// `r` is the value it produces.
pub open spec fn loaded(old: &Recorder, new: &Recorder, var: Var, r: Expr) -> bool {
    &&& Recorder::emitted(old, new, r.proxy.node)
    &&& is_call(new.pool@.last(), Func::Load, seq![var.proxy.node])
    &&& new.pool@.last().ty == old.pool@[var.proxy.node.0 as int].ty
}

impl Expr {
    pub fn from_proxy(proxy: PrimProxy) -> (r: Self)
        ensures
            r.proxy == proxy,
    {
        Expr { proxy }
    }

    pub fn from_node(node: NodeRef) -> (r: Self)
        ensures
            r.proxy.node == node,
    {
        Expr { proxy: PrimProxy::from_node(node) }
    }

    pub fn node(&self) -> (r: NodeRef)
        ensures
            r == self.proxy.node,
    {
        self.proxy.node()
    }

    /// The flattened node list of this value.
    pub fn expand(&self) -> (r: Vec<NodeRef>)
        ensures
            r@ == seq![self.proxy.node],
    {
        self.proxy.to_vec_nodes()
    }

    /// Rebuilds a value from its flattened node list.
    pub fn collect(nodes: &Vec<NodeRef>) -> (r: Self)
        requires
            nodes@.len() == 1,
        ensures
            r.proxy.node == nodes@[0],
    {
        Expr { proxy: PrimProxy { node: nodes[0] } }
    }
}

impl Var {
    /// Declares a fresh storage slot of type `ty`, outside of any block.
    pub fn local(rec: &mut Recorder, ty: Type) -> (r: Self)
        requires
            old(rec).wf(),
            old(rec).pool@.len() < usize::MAX,
        ensures
            final(rec).wf(),
            r.proxy.node.0 == old(rec).pool@.len(),
            final(rec).pool@ == old(rec).pool@.push(
                crate::ir::Node { instruction: crate::ir::Instruction::Local, ty },
            ),
            final(rec).scopes == old(rec).scopes,
            final(rec).lock == old(rec).lock,
            final(rec).captured_buffer == old(rec).captured_buffer,
    {
        let node = rec.pool.new_node(crate::ir::Instruction::Local, ty);
        proof {
            rec.lemma_pool_grown(old(rec));
        }
        Var { proxy: PrimProxy { node } }
    }

    pub fn store(&self, rec: &mut Recorder, value: &Expr)
        requires
            old(rec).wf(),
            old(rec).pool@.len() + 1 < usize::MAX,
        ensures
            final(rec).wf(),
            stored(old(rec), final(rec), *self, *value),
    {
        _store(rec, &self.proxy, &value.proxy);
        proof {
            lemma_appended_one(old(rec), rec);
            let m = rec.pool@[old(rec).pool@.len() + 0int];
            assert(is_call(m, Func::Store, seq![self.proxy.nodes_view()[0], value.proxy.nodes_view()[0]]));
        }
    }

    pub fn load(&self, rec: &mut Recorder) -> (r: Expr)
        requires
            old(rec).wf(),
            old(rec).pool.contains(self.proxy.node),
            old(rec).pool@.len() < usize::MAX,
        ensures
            final(rec).wf(),
            loaded(old(rec), final(rec), *self, r),
    {
        let ty = rec.pool.type_of(self.proxy.node);
        let mut args = Vec::new();
        args.push(self.proxy.node);
        assert(args@ =~= seq![self.proxy.node]);
        let node = rec.call(Func::Load, args, ty);
        Expr { proxy: PrimProxy { node } }
    }
}

/// Embeds a host value as a constant node, tagged by its type.
pub fn const_<T: Value>(rec: &mut Recorder, value: &T) -> (r: Expr)
    requires
        old(rec).wf(),
        old(rec).pool@.len() < usize::MAX,
    ensures
        final(rec).wf(),
        Recorder::emitted(old(rec), final(rec), r.proxy.node),
        is_const(final(rec).pool@.last(), value.const_spec()),
        final(rec).pool@.last().ty == const_type(value.const_spec()),
{
    let c = value.to_const();
    let node = rec.const_(c);
    Expr { proxy: PrimProxy { node } }
}

/// Projects field `index` of composite `node`: a constant index node, then an
/// element extraction of type `ty`.
pub fn __extract(rec: &mut Recorder, node: NodeRef, index: usize, ty: Type) -> (r: NodeRef)
    requires
        old(rec).wf(),
        index <= i32::MAX,
        old(rec).pool@.len() + 2 < usize::MAX,
    ensures
        final(rec).wf(),
        appended(old(rec), final(rec), 2),
        r.0 == old(rec).pool@.len() + 1,
        is_const(final(rec).pool@[old(rec).pool@.len() as int], Const::Int32(index as i32)),
        is_call(final(rec).pool@[r.0 as int], Func::ExtractElement, seq![node, NodeRef((r.0 - 1) as usize)]),
        final(rec).pool@[r.0 as int].ty == ty,
{
    current_scope(rec);
    let ghost start = *rec;
    proof {
        lemma_appended_none(&start);
    }
    let i = rec.const_(Const::Int32(index as i32));
    let ghost mid = *rec;
    proof {
        lemma_appended_step(&start, &start, &mid, 0, i);
    }
    let mut args = Vec::new();
    args.push(node);
    args.push(i);
    let r = rec.call(Func::ExtractElement, args, ty);
    proof {
        lemma_appended_step(&start, &mid, rec, 1, r);
        assert(start.opened() == old(rec).opened());
        assert(rec.pool@.drop_last()[old(rec).pool@.len() as int] == mid.pool@[old(rec).pool@.len() as int]);
        assert(args@ =~= seq![node, NodeRef((r.0 - 1) as usize)]);
    }
    r
}

/// Builds a composite value from its fields' nodes, in declaration order.
pub fn __compose(rec: &mut Recorder, nodes: Vec<NodeRef>, ty: Type) -> (r: NodeRef)
    requires
        old(rec).wf(),
        old(rec).pool@.len() < usize::MAX,
    ensures
        final(rec).wf(),
        Recorder::emitted(old(rec), final(rec), r),
        is_call(final(rec).pool@.last(), Func::Struct, nodes@),
        final(rec).pool@.last().ty == ty,
{
    rec.call(Func::Struct, nodes, ty)
}

/// Storing `a` and then `b` into `var` and loading it back appends exactly
/// three nodes to the current block, in this order: the store of `a`, the
/// store of `b`, and the load, which produces the loaded value.
pub proof fn lemma_store_store_load(
    r0: &Recorder,
    r1: &Recorder,
    r2: &Recorder,
    r3: &Recorder,
    var: Var,
    a: Expr,
    b: Expr,
    v: Expr,
)
    requires
        stored(r0, r1, var, a),
        stored(r1, r2, var, b),
        loaded(r2, r3, var, v),
    ensures
        ({
            let n = r0.pool@.len();
            &&& r3.pool@.len() == n + 3
            &&& r3.block() == r0.block() + seq![
                NodeRef(n as usize),
                NodeRef((n + 1) as usize),
                NodeRef((n + 2) as usize),
            ]
            &&& v.proxy.node == NodeRef((n + 2) as usize)
            &&& is_call(r3.pool@[n as int], Func::Store, seq![var.proxy.node, a.proxy.node])
            &&& is_call(r3.pool@[n + 1int], Func::Store, seq![var.proxy.node, b.proxy.node])
            &&& is_call(r3.pool@[n + 2int], Func::Load, seq![var.proxy.node])
        }),
{
    let n = r0.pool@.len();
    assert(r1.pool@.len() == n + 1);
    assert(r1.opened() == r1.scope_views());
    assert(r2.opened() == r2.scope_views());
    assert(r3.pool@.drop_last()[n + 1int] == r2.pool@[n + 1int]);
    assert(r3.pool@.drop_last()[n as int] == r2.pool@[n as int]);
    assert(r2.pool@.drop_last()[n as int] == r1.pool@[n as int]);
    assert(r1.block() == r0.block().push(NodeRef(n as usize)));
    assert(r2.block() == r1.block().push(NodeRef((n + 1) as usize)));
    assert(v.proxy.node == NodeRef((n + 2) as usize));
    assert(r3.opened() == r3.scope_views());
    assert(r3.block() == r2.block().push(NodeRef((n + 2) as usize)));
    assert(r3.block() =~= r0.block() + seq![
        NodeRef(n as usize),
        NodeRef((n + 1) as usize),
        NodeRef((n + 2) as usize),
    ]);
}

/// A value that can be chosen between two alternatives under a mask.
pub trait Selectable: Sized {
    fn select(rec: &mut Recorder, mask: Expr, lhs: Self, rhs: Self) -> Self
        requires
            old(rec).wf(),
            old(rec).pool@.len() < usize::MAX,
    ;
}

} // verus!
