use luisa_compute::ir::{Const, Func, Instruction, Node, NodeRef, Type};
use luisa_compute::kernel::{Buffer, BufferVar, KernelBuilder, RecordError};
use luisa_compute::lang::{__compose, __extract, const_, Expr};
use luisa_compute::recorder::Recorder;

fn session() -> (Recorder, KernelBuilder) {
    let mut rec = Recorder::new();
    let kb = KernelBuilder::new(&mut rec).ok().unwrap();
    (rec, kb)
}

#[test]
fn const_tags_follow_the_type() {
    let (mut rec, _kb) = session();
    const_(&mut rec, &true);
    const_(&mut rec, &-1i32);
    const_(&mut rec, &7u32);
    const_(&mut rec, &-9i64);
    const_(&mut rec, &u64::MAX);
    rec.const_(Const::Float64(1.5f64.to_bits()));
    rec.const_(Const::Generic(vec![1, 2, 3, 4], Type::Struct(3)));
    let got: Vec<(Instruction, Type)> =
        rec.pool.nodes.iter().map(|n| (n.instruction.clone(), n.ty)).collect();
    assert_eq!(
        got,
        vec![
            (Instruction::Const(Const::Bool(true)), Type::Bool),
            (Instruction::Const(Const::Int32(-1)), Type::Int32),
            (Instruction::Const(Const::Uint32(7)), Type::Uint32),
            (Instruction::Const(Const::Int64(-9)), Type::Int64),
            (Instruction::Const(Const::Uint64(u64::MAX)), Type::Uint64),
            (Instruction::Const(Const::Float64(1.5f64.to_bits())), Type::Float64),
            (Instruction::Const(Const::Generic(vec![1, 2, 3, 4], Type::Struct(3))), Type::Struct(3)),
        ]
    );
    assert_eq!(rec.scopes.len(), 1);
    assert_eq!(rec.scopes[0].nodes.len(), 7);
}

#[test]
fn extract_emits_index_then_element() {
    let (mut rec, _kb) = session();
    let s = rec.pool.new_node(Instruction::Local, Type::Struct(1));
    let r = __extract(&mut rec, s, 2, Type::Float32);
    assert_eq!(r, NodeRef(2));
    assert_eq!(rec.pool.nodes[1].instruction, Instruction::Const(Const::Int32(2)));
    assert_eq!(
        rec.pool.nodes[2],
        Node { instruction: Instruction::Call(Func::ExtractElement, vec![s, NodeRef(1)]), ty: Type::Float32 }
    );
    assert_eq!(rec.scopes[0].nodes, vec![NodeRef(1), NodeRef(2)]);
}

#[test]
fn compose_emits_one_struct_node() {
    let (mut rec, _kb) = session();
    let a = const_(&mut rec, &1u32).node();
    let b = const_(&mut rec, &2u32).node();
    let r = __compose(&mut rec, vec![a, b], Type::Struct(5));
    assert_eq!(
        rec.pool.nodes[r.0],
        Node { instruction: Instruction::Call(Func::Struct, vec![a, b]), ty: Type::Struct(5) }
    );
    assert_eq!(rec.scopes[0].nodes, vec![a, b, r]);
}

#[test]
fn bindless_reads_and_lengths() {
    let (mut rec, mut kb) = session();
    let arr = kb.bindless_array(&mut rec);
    assert_eq!(kb.args, vec![arr.node]);
    assert_eq!(rec.pool.nodes[0].instruction, Instruction::Bindless);
    let bi = const_(&mut rec, &0u32);
    let ei = const_(&mut rec, &3u32);
    let v = arr.buffer_read(&mut rec, &bi, &ei, Type::Int32);
    let l = arr.buffer_length(&mut rec, &bi);
    assert_eq!(
        rec.pool.nodes[v.node().0],
        Node {
            instruction: Instruction::Call(Func::BindlessBufferRead, vec![arr.node, bi.node(), ei.node()]),
            ty: Type::Int32,
        }
    );
    assert_eq!(
        rec.pool.nodes[l.node().0],
        Node {
            instruction: Instruction::Call(Func::BindlessBufferSize, vec![arr.node, bi.node()]),
            ty: Type::Uint32,
        }
    );
}

#[test]
fn buffer_len_query() {
    let (mut rec, _kb) = session();
    let b = BufferVar::new(&mut rec, &Buffer::new(1, 64, Type::Uint64));
    assert_eq!(b.handle, Some(1));
    let n = b.len(&mut rec);
    assert_eq!(
        rec.pool.nodes[n.node().0],
        Node { instruction: Instruction::Call(Func::BufferSize, vec![b.node]), ty: Type::Uint32 }
    );
}

#[test]
fn unimplemented_capabilities() {
    let (mut rec, mut kb) = session();
    let b = kb.buffer(&mut rec, Type::Uint32);
    let i = Expr::from_node(NodeRef(0));
    assert_eq!(b.atomic_exchange(&i, &i).err(), Some(RecordError::Unimplemented));
    assert!(matches!(kb.tex2d(Type::Float32), Err(RecordError::Unimplemented)));
    assert!(matches!(kb.tex3d(Type::Float32), Err(RecordError::Unimplemented)));
    assert_eq!(kb.args.len(), 1);
}

#[test]
fn reset_returns_to_idle() {
    let (mut rec, _kb) = session();
    BufferVar::new(&mut rec, &Buffer::new(4, 8, Type::Bool));
    const_(&mut rec, &false);
    rec.reset();
    assert!(!rec.lock);
    assert!(rec.scopes.is_empty());
    assert!(rec.captured_buffer.is_empty());
    assert!(rec.pool.nodes.is_empty());
    assert!(KernelBuilder::new(&mut rec).is_ok());
}
