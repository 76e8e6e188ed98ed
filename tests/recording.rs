use luisa_compute::ir::{Const, Func, Instruction, Node, NodeRef, Type};
use luisa_compute::kernel::{
    Binding, Buffer, BufferVar, Capture, KernelBuilder, ModuleKind, RecordError,
};
use luisa_compute::lang::{const_, Aggregate, Expr, PrimProxy, Proxy, Var};
use luisa_compute::recorder::{BufferBinding, Recorder};

fn call(f: Func, args: Vec<NodeRef>, ty: Type) -> Node {
    Node { instruction: Instruction::Call(f, args), ty }
}

fn begin(rec: &mut Recorder) -> KernelBuilder {
    KernelBuilder::new(rec).ok().expect("a session can begin on an idle context")
}

fn top_block(rec: &Recorder) -> Vec<NodeRef> {
    rec.scopes.last().unwrap().nodes.clone()
}

#[test]
fn capture_dedup_same_handle() {
    let mut rec = Recorder::new();
    let _kb = begin(&mut rec);
    let x = Buffer::new(7, 4096, Type::Float32);
    let alias = Buffer::new(7, 4096, Type::Float32);
    let a = BufferVar::new(&mut rec, &x);
    let b = BufferVar::new(&mut rec, &alias);
    let c = BufferVar::new(&mut rec, &x);
    assert_eq!(a.node, b.node);
    assert_eq!(a.node, c.node);
    assert_eq!(rec.pool.nodes.len(), 1);
    assert_eq!(rec.pool.nodes[0], Node { instruction: Instruction::Buffer, ty: Type::Float32 });
    assert_eq!(rec.captured_buffer.len(), 1);
    assert_eq!(
        rec.captured_buffer[0].binding,
        BufferBinding { handle: 7, size: 4096, offset: 0 }
    );
}

#[test]
fn capture_count_is_distinct_handles() {
    let mut rec = Recorder::new();
    let _kb = begin(&mut rec);
    let handles: [u64; 6] = [3, 5, 3, 9, 5, 3];
    for h in handles {
        BufferVar::new(&mut rec, &Buffer::new(h, 16, Type::Uint32));
    }
    let order: Vec<u64> = rec.captured_buffer.iter().map(|c| c.handle).collect();
    assert_eq!(order, vec![3, 5, 9]);
    assert_eq!(rec.pool.nodes.len(), 3);
}

#[test]
fn flatten_round_trip() {
    let p = PrimProxy { node: NodeRef(42) };
    let flat = p.to_vec_nodes();
    assert_eq!(flat, vec![NodeRef(42)]);
    let back = PrimProxy::from_vec_nodes(flat);
    assert_eq!(back, p);
    assert_eq!(PrimProxy::from_node(NodeRef(3)).node(), NodeRef(3));
    let e = Expr::from_node(NodeRef(11));
    assert_eq!(Expr::collect(&e.expand()), e);
}

#[test]
fn store_store_load_order() {
    let mut rec = Recorder::new();
    let _kb = begin(&mut rec);
    let v = Var::local(&mut rec, Type::Int32);
    let a = const_(&mut rec, &1i32);
    let b = const_(&mut rec, &2i32);
    v.store(&mut rec, &a);
    v.store(&mut rec, &b);
    let l = v.load(&mut rec);
    let block = top_block(&rec);
    assert_eq!(block, vec![NodeRef(1), NodeRef(2), NodeRef(3), NodeRef(4), NodeRef(5)]);
    let n = &rec.pool.nodes;
    assert_eq!(n[3], call(Func::Store, vec![v.proxy.node, a.node()], Type::Void));
    assert_eq!(n[4], call(Func::Store, vec![v.proxy.node, b.node()], Type::Void));
    assert_eq!(n[5], call(Func::Load, vec![v.proxy.node], Type::Int32));
    assert_eq!(l.node(), NodeRef(5));
}

#[test]
fn balanced_scope_builds() {
    let mut rec = Recorder::new();
    let kb = begin(&mut rec);
    const_(&mut rec, &true);
    const_(&mut rec, &5u64);
    const_(&mut rec, &-3i64);
    let m = kb.build(&mut rec).ok().expect("one open block builds");
    assert_eq!(m.module.entry.nodes.len(), 3);
    assert_eq!(m.module.kind, ModuleKind::Kernel);
    assert!(m.shared.is_empty());
    assert_eq!(m.nodes[1].instruction, Instruction::Const(Const::Uint64(5)));
    assert_eq!(m.nodes[2].instruction, Instruction::Const(Const::Int64(-3)));
    assert!(!rec.lock && rec.scopes.is_empty() && rec.pool.nodes.is_empty());
}

#[test]
fn unbalanced_scopes_fail() {
    let mut rec = Recorder::new();
    let kb = begin(&mut rec);
    const_(&mut rec, &1u32);
    luisa_compute::lang::current_scope(&mut rec);
    rec.scopes.push(luisa_compute::ir::IrBuilder::new());
    assert_eq!(kb.build(&mut rec).err(), Some(RecordError::UnbalancedScopes));
    assert!(!rec.lock && rec.scopes.is_empty() && rec.captured_buffer.is_empty());
}

#[test]
fn empty_body_has_no_scope() {
    let mut rec = Recorder::new();
    let kb = begin(&mut rec);
    assert_eq!(kb.build(&mut rec).err(), Some(RecordError::UnbalancedScopes));
}

#[test]
fn pop_scope_finishes_inner_block() {
    let mut rec = Recorder::new();
    let _kb = begin(&mut rec);
    const_(&mut rec, &1u32);
    rec.scopes.push(luisa_compute::ir::IrBuilder::new());
    const_(&mut rec, &2u32);
    let inner = luisa_compute::lang::pop_scope(&mut rec);
    assert_eq!(inner.nodes, vec![NodeRef(1)]);
    assert_eq!(top_block(&rec), vec![NodeRef(0)]);
}

#[test]
fn build_without_session_fails() {
    let mut rec = Recorder::new();
    let kb = begin(&mut rec);
    rec.reset();
    assert_eq!(kb.build(&mut rec).err(), Some(RecordError::NotRecording));
}

#[test]
fn reentrant_begin_fails() {
    let mut rec = Recorder::new();
    let mut kb = begin(&mut rec);
    let p = kb.buffer(&mut rec, Type::Float32);
    let c = const_(&mut rec, &4u32);
    let before_pool = rec.pool.nodes.clone();
    let before_block = top_block(&rec);
    assert_eq!(KernelBuilder::new(&mut rec).err(), Some(RecordError::ReentrantRecording));
    assert!(rec.lock);
    assert_eq!(rec.pool.nodes, before_pool);
    assert_eq!(top_block(&rec), before_block);
    p.write(&mut rec, &c, &c);
    let m = kb.build(&mut rec).ok().unwrap();
    assert_eq!(m.args, vec![p.node]);
    assert_eq!(m.module.entry.nodes.len(), 2);
}

#[test]
fn end_to_end_vecadd() {
    let mut rec = Recorder::new();
    let mut kb = begin(&mut rec);
    let z = kb.buffer(&mut rec, Type::Float32);
    let x_host = Buffer::new(100, 1024 * 4, Type::Float32);
    let y_host = Buffer::new(200, 1024 * 4, Type::Float32);
    let tid = Expr::from_node(
        rec.pool.new_node(Instruction::Argument, Type::Uint32),
    );
    let buf_x = BufferVar::new(&mut rec, &x_host);
    let buf_y = BufferVar::new(&mut rec, &y_host);
    let x = buf_x.read(&mut rec, &tid);
    let y = buf_y.read(&mut rec, &tid);
    let vx = Var::local(&mut rec, Type::Float32);
    let two = Expr::from_node(rec.const_(Const::Float32(2.0f32.to_bits())));
    vx.store(&mut rec, &two);
    let loaded = vx.load(&mut rec);
    let sum = Expr::from_node(rec.call(Func::Add, vec![loaded.node(), y.node()], Type::Float32));
    z.write(&mut rec, &tid, &sum);
    let m = kb.build(&mut rec).ok().expect("balanced body builds");

    assert_eq!(m.args.len(), 1);
    assert_eq!(m.args, vec![z.node]);
    assert_eq!(
        m.captures,
        vec![
            Capture {
                node: buf_x.node,
                binding: Binding::Buffer(BufferBinding { handle: 100, size: 4096, offset: 0 }),
            },
            Capture {
                node: buf_y.node,
                binding: Binding::Buffer(BufferBinding { handle: 200, size: 4096, offset: 0 }),
            },
        ]
    );
    let entry: Vec<Node> = m.module.entry.nodes.iter().map(|n| m.nodes[n.0].clone()).collect();
    assert_eq!(
        entry,
        vec![
            call(Func::BufferRead, vec![buf_x.node, tid.node()], Type::Float32),
            call(Func::BufferRead, vec![buf_y.node, tid.node()], Type::Float32),
            Node { instruction: Instruction::Const(Const::Float32(2.0f32.to_bits())), ty: Type::Float32 },
            call(Func::Store, vec![vx.proxy.node, two.node()], Type::Void),
            call(Func::Load, vec![vx.proxy.node], Type::Float32),
            call(Func::Add, vec![loaded.node(), y.node()], Type::Float32),
            call(Func::BufferWrite, vec![z.node, tid.node(), sum.node()], Type::Void),
        ]
    );
    assert_eq!(x.node(), m.module.entry.nodes[0]);
}
