use gcc_builder::builder::Builder;
use gcc_builder::context::CodegenCx;
use gcc_builder::graph::{Block, Builtin, Function, Instr, LValue, NodeKind, RValue, Scope};
use gcc_builder::layout::{
    Abi, Align, Layout, LoadMetadata, MemFlags, OperandRef, OperandValue, PlaceRef, Primitive,
    Scalar, Size, WrappingRange,
};
use gcc_builder::ops::{
    AtomicOrdering, AtomicRmwBinOp, BinaryOp, ComparisonOp, FetchOp, OverflowOp,
    SynchronizationScope, UnaryOp,
};
use gcc_builder::types::{Type, TypeKind};

fn begin() -> (Builder, Function) {
    let mut cx = CodegenCx::new(8);
    let ret = cx.i32_type;
    let f = cx.graph.new_function("f", vec![], ret);
    let entry = cx.graph.new_block(f, "entry");
    (Builder::build(cx, entry), f)
}

fn slot(bx: &mut Builder, f: Function, ty: Type, name: &str) -> LValue {
    bx.cx.graph.new_local(f, ty, name)
}

fn node(bx: &Builder, v: RValue) -> NodeKind {
    bx.cx.graph.nodes[v.id].kind
}

fn node_type(bx: &Builder, v: RValue) -> Type {
    bx.cx.graph.nodes[v.id].ty
}

fn type_kind(bx: &Builder, t: Type) -> TypeKind {
    bx.cx.graph.types.infos[t.id].kind
}

fn code(bx: &Builder, b: Block) -> Vec<Instr> {
    bx.cx.graph.blocks[b.id].instrs.clone()
}

fn name_of(bx: &Builder, v: RValue) -> String {
    match node(bx, v) {
        NodeKind::Var { var } => bx.cx.graph.vars[var].name.clone(),
        other => panic!("no variable: {:?}", other),
    }
}

fn call_of(bx: &Builder, v: RValue) -> (String, Option<Builtin>, Vec<RValue>) {
    match node(bx, v) {
        NodeKind::Call { func, args } => (
            bx.cx.graph.functions[func.id].name.clone(),
            bx.cx.graph.functions[func.id].builtin,
            bx.cx.graph.lists[args].clone(),
        ),
        other => panic!("no call: {:?}", other),
    }
}

fn nth(n: usize) -> RValue {
    RValue { id: n }
}

#[test]
fn a_load_goes_into_a_numbered_local() {
    let (mut bx, f) = begin();
    let i32_type = bx.cx.i32_type;
    let ptr = bx.cx.graph.make_pointer(i32_type);
    let p = slot(&mut bx, f, ptr, "p").to_rvalue();
    let n = bx.cx.graph.nodes.len();
    let first = bx.load(i32_type, p, Align { bytes: 4 });
    assert_eq!(node(&bx, nth(n)), NodeKind::Deref { ptr: p });
    assert_eq!(node_type(&bx, nth(n)), i32_type);
    assert_eq!(first, nth(n + 1));
    assert_eq!(name_of(&bx, first), "loadedValue1");
    assert_eq!(node_type(&bx, first), i32_type);
    let second = bx.load(i32_type, p, Align { bytes: 4 });
    assert_eq!(name_of(&bx, second), "loadedValue2");
    assert_eq!(
        code(&bx, bx.block),
        vec![
            Instr::Assign { target: LValue { id: n + 1 }, value: nth(n) },
            Instr::Assign { target: LValue { id: n + 3 }, value: nth(n + 2) },
        ]
    );
    assert_eq!(bx.cx.return_value_count, 2);
}

#[test]
fn names_count_in_decimal() {
    let (mut bx, f) = begin();
    let i32_type = bx.cx.i32_type;
    let ptr = bx.cx.graph.make_pointer(i32_type);
    let p = slot(&mut bx, f, ptr, "p").to_rvalue();
    let mut last = p;
    for _ in 0..12 {
        last = bx.load(i32_type, p, Align { bytes: 4 });
    }
    assert_eq!(name_of(&bx, last), "loadedValue12");
    assert_eq!(Builtin::AtomicLoad { bytes: 16 }.to_name(), "__atomic_load_16");
    assert_eq!(Builtin::AtomicStore { bytes: 1 }.to_name(), "__atomic_store_1");
    assert_eq!(
        Builtin::AtomicCompareExchange { bytes: 8 }.to_name(),
        "__atomic_compare_exchange_8"
    );
    assert_eq!(
        Builtin::AtomicFetch { op: FetchOp::Exchange, bytes: 4 }.to_name(),
        "__atomic_exchange_4"
    );
    assert_eq!(
        Builtin::AtomicFetch { op: FetchOp::Nand, bytes: 2 }.to_name(),
        "__atomic_fetch_nand_2"
    );
    assert_eq!(Builtin::Overflow { op: OverflowOp::Mul }.to_name(), "__builtin_mul_overflow");
    assert_eq!(Builtin::Memmove.to_name(), "memmove");
}

#[test]
fn a_volatile_load_reads_through_a_volatile_pointer_into_a_local() {
    let (mut bx, f) = begin();
    let i32_type = bx.cx.i32_type;
    let ptr = bx.cx.graph.make_pointer(i32_type);
    let p = slot(&mut bx, f, ptr, "p").to_rvalue();
    let n = bx.cx.graph.nodes.len();
    let r = bx.volatile_load(i32_type, p);
    assert_eq!(node(&bx, nth(n)), NodeKind::Cast { value: p });
    assert_eq!(type_kind(&bx, node_type(&bx, nth(n))), TypeKind::Volatile { inner: ptr });
    assert_eq!(node(&bx, nth(n + 1)), NodeKind::Deref { ptr: nth(n) });
    assert_eq!(node_type(&bx, nth(n + 1)), i32_type);
    assert_eq!(r, nth(n + 2));
    assert_eq!(name_of(&bx, r), "loadedValue1");
    assert_eq!(node_type(&bx, r), i32_type);
    assert_eq!(
        code(&bx, bx.block),
        vec![Instr::Assign { target: LValue { id: n + 2 }, value: nth(n + 1) }]
    );
    assert_eq!(bx.cx.return_value_count, 1);
}

#[test]
fn a_stack_slot_is_an_aligned_numbered_local() {
    let (mut bx, _) = begin();
    let i32_type = bx.cx.i32_type;
    let n = bx.cx.graph.nodes.len();
    let r = bx.alloca(i32_type, Align { bytes: 16 });
    assert_eq!(name_of(&bx, nth(n)), "stack_var_1");
    assert_eq!(
        type_kind(&bx, node_type(&bx, nth(n))),
        TypeKind::Aligned { inner: i32_type, align: 16 }
    );
    assert_eq!(node(&bx, r), NodeKind::AddressOf { lvalue: LValue { id: n } });
    assert_eq!(type_kind(&bx, node_type(&bx, r)), TypeKind::Pointer { pointee: node_type(&bx, nth(n)) });
    let u128_type = bx.cx.u128_type;
    let r = bx.alloca(u128_type, Align { bytes: 16 });
    assert_eq!(name_of(&bx, nth(r.id - 1)), "stack_var_2");
    assert_eq!(node_type(&bx, nth(r.id - 1)), u128_type);
    let i128_type = bx.cx.i128_type;
    let r = bx.alloca(i128_type, Align { bytes: 8 });
    assert_eq!(node_type(&bx, nth(r.id - 1)), i128_type);
    assert_eq!(bx.stack_var_count, 3);
    assert_eq!(bx.cx.graph.vars[0].scope, Scope::Local { func: Function { id: 0 } });
}

#[test]
fn a_store_assigns_through_an_aligned_pointer() {
    let (mut bx, f) = begin();
    let i32_type = bx.cx.i32_type;
    let u8_type = bx.cx.u8_type;
    let ptr = bx.cx.graph.make_pointer(u8_type);
    let p = slot(&mut bx, f, ptr, "p").to_rvalue();
    let v = slot(&mut bx, f, i32_type, "v").to_rvalue();
    let n = bx.cx.graph.nodes.len();
    let r = bx.store(v, p, Align { bytes: 2 });
    let p32 = node_type(&bx, nth(n));
    assert_eq!(node(&bx, nth(n)), NodeKind::Bitcast { value: p });
    assert_eq!(type_kind(&bx, p32), TypeKind::Pointer { pointee: i32_type });
    assert_eq!(node(&bx, nth(n + 1)), NodeKind::Deref { ptr: nth(n) });
    assert_eq!(node(&bx, nth(n + 2)), NodeKind::Bitcast { value: nth(n) });
    let aligned = match type_kind(&bx, node_type(&bx, nth(n + 2))) {
        TypeKind::Pointer { pointee } => pointee,
        other => panic!("no pointer: {:?}", other),
    };
    assert_eq!(type_kind(&bx, aligned), TypeKind::Aligned { inner: i32_type, align: 2 });
    assert_eq!(node(&bx, nth(n + 3)), NodeKind::Deref { ptr: nth(n + 2) });
    assert_eq!(node_type(&bx, nth(n + 3)), aligned);
    assert_eq!(r, nth(n + 4));
    assert_eq!(node(&bx, r), NodeKind::Const { bits: 0 });
    assert_eq!(node_type(&bx, r), i32_type);
    assert_eq!(
        code(&bx, bx.block),
        vec![Instr::Assign { target: LValue { id: n + 3 }, value: v }]
    );
    let r2 = bx.store_with_flags(
        v,
        p,
        Align { bytes: 2 },
        MemFlags { volatile: true, nontemporal: false, unaligned: false },
    );
    assert_eq!(r2.id, r.id + 5);
}

#[test]
fn addresses_are_computed_step_by_step() {
    let (mut bx, f) = begin();
    let i32_type = bx.cx.i32_type;
    let u64_type = bx.cx.u64_type;
    let ptr = bx.cx.graph.make_pointer(i32_type);
    let p = slot(&mut bx, f, ptr, "p").to_rvalue();
    let i = slot(&mut bx, f, u64_type, "i").to_rvalue();
    let j = slot(&mut bx, f, u64_type, "j").to_rvalue();
    let n = bx.cx.graph.nodes.len();
    assert_eq!(bx.gep(i32_type, p, &[]), p);
    let r = bx.gep(i32_type, p, &[i, j]);
    assert_eq!(node(&bx, nth(n)), NodeKind::ArrayAccess { base: p, index: i });
    assert_eq!(node(&bx, nth(n + 1)), NodeKind::AddressOf { lvalue: LValue { id: n } });
    assert_eq!(node(&bx, nth(n + 2)), NodeKind::ArrayAccess { base: nth(n + 1), index: j });
    assert_eq!(r, nth(n + 3));
    assert_eq!(node(&bx, r), NodeKind::AddressOf { lvalue: LValue { id: n + 2 } });
    assert_eq!(node_type(&bx, r), ptr);
    let array = bx.cx.graph.new_array_type(i32_type, 4);
    let parray = bx.cx.graph.make_pointer(array);
    let q = slot(&mut bx, f, parray, "q").to_rvalue();
    let n = bx.cx.graph.nodes.len();
    let r = bx.inbounds_gep(array, q, &[i, j]);
    assert_eq!(node(&bx, nth(n)), NodeKind::Deref { ptr: q });
    assert_eq!(node(&bx, nth(n + 1)), NodeKind::ArrayAccess { base: nth(n), index: j });
    assert_eq!(node(&bx, r), NodeKind::AddressOf { lvalue: LValue { id: n + 1 } });
    assert_eq!(node_type(&bx, r), ptr);
    let n = bx.cx.graph.nodes.len();
    let r = bx.inbounds_gep(i32_type, p, &[i]);
    assert_eq!(node(&bx, nth(n)), NodeKind::ArrayAccess { base: p, index: i });
    assert_eq!(r, nth(n + 1));
}

#[test]
fn members_of_the_three_shapes_are_addressed() {
    let (mut bx, f) = begin();
    let i32_type = bx.cx.i32_type;
    let u8_type = bx.cx.u8_type;
    let array = bx.cx.graph.new_array_type(i32_type, 4);
    let vector = bx.cx.graph.new_vector_type(i32_type, 4);
    let record = bx.cx.graph.new_struct_type("s", vec![u8_type, i32_type]);
    let pi32 = bx.cx.graph.make_pointer(i32_type);
    let parray = bx.cx.graph.make_pointer(array);
    let pvector = bx.cx.graph.make_pointer(vector);
    let precord = bx.cx.graph.make_pointer(record);
    let a = slot(&mut bx, f, parray, "a").to_rvalue();
    let v = slot(&mut bx, f, pvector, "v").to_rvalue();
    let s = slot(&mut bx, f, precord, "s").to_rvalue();

    let n = bx.cx.graph.nodes.len();
    let r = bx.struct_gep(array, a, 2);
    assert_eq!(node(&bx, nth(n)), NodeKind::Deref { ptr: a });
    assert_eq!(node(&bx, nth(n + 1)), NodeKind::Const { bits: 2 });
    assert_eq!(node_type(&bx, nth(n + 1)), bx.cx.u64_type);
    assert_eq!(node(&bx, nth(n + 2)), NodeKind::ArrayAccess { base: nth(n), index: nth(n + 1) });
    assert_eq!(node_type(&bx, nth(n + 2)), i32_type);
    assert_eq!(node(&bx, r), NodeKind::AddressOf { lvalue: LValue { id: n + 2 } });
    assert_eq!(node_type(&bx, r), pi32);

    let n = bx.cx.graph.nodes.len();
    let r = bx.struct_gep(vector, v, 3);
    assert_eq!(node(&bx, nth(n)), NodeKind::Deref { ptr: v });
    assert_eq!(node(&bx, nth(n + 1)), NodeKind::Bitcast { value: v });
    assert_eq!(node_type(&bx, nth(n + 1)), pi32);
    assert_eq!(node(&bx, nth(n + 2)), NodeKind::Const { bits: 3 });
    assert_eq!(node(&bx, nth(n + 3)), NodeKind::ArrayAccess { base: nth(n + 1), index: nth(n + 2) });
    assert_eq!(node(&bx, r), NodeKind::AddressOf { lvalue: LValue { id: n + 3 } });
    assert_eq!(node_type(&bx, r), pi32);

    let n = bx.cx.graph.nodes.len();
    let r = bx.struct_gep(record, s, 1);
    assert_eq!(node(&bx, nth(n)), NodeKind::Deref { ptr: s });
    assert_eq!(node(&bx, nth(n + 1)), NodeKind::DerefField { ptr: s, field: 1 });
    assert_eq!(node_type(&bx, nth(n + 1)), i32_type);
    assert_eq!(node(&bx, r), NodeKind::AddressOf { lvalue: LValue { id: n + 1 } });
    assert_eq!(node_type(&bx, r), pi32);
}

#[test]
fn members_are_extracted_and_inserted() {
    let (mut bx, f) = begin();
    let i32_type = bx.cx.i32_type;
    let u8_type = bx.cx.u8_type;
    let array = bx.cx.graph.new_array_type(i32_type, 4);
    let record = bx.cx.graph.new_struct_type("s", vec![u8_type, i32_type]);
    let precord = bx.cx.graph.make_pointer(record);
    let a = slot(&mut bx, f, array, "a").to_rvalue();
    let s = slot(&mut bx, f, record, "s").to_rvalue();
    let p = slot(&mut bx, f, precord, "p").to_rvalue();
    let x = slot(&mut bx, f, i32_type, "x").to_rvalue();
    let y = slot(&mut bx, f, u8_type, "y").to_rvalue();

    let r = bx.extract_value(s, 1);
    assert_eq!(node(&bx, r), NodeKind::FieldOf { aggregate: s, field: 1 });
    assert_eq!(node_type(&bx, r), i32_type);
    let r = bx.extract_value(p, 0);
    assert_eq!(node(&bx, r), NodeKind::DerefField { ptr: p, field: 0 });
    assert_eq!(node_type(&bx, r), u8_type);
    let n = bx.cx.graph.nodes.len();
    let r = bx.extract_value(a, 3);
    assert_eq!(node(&bx, nth(n)), NodeKind::Const { bits: 3 });
    assert_eq!(node(&bx, nth(n + 1)), NodeKind::ArrayAccess { base: a, index: nth(n) });
    assert_eq!(node(&bx, r), NodeKind::AddressOf { lvalue: LValue { id: n + 1 } });

    let n = bx.cx.graph.nodes.len();
    assert_eq!(bx.insert_value(p, x, 1), p);
    assert_eq!(node(&bx, nth(n)), NodeKind::DerefField { ptr: p, field: 1 });
    assert_eq!(bx.cx.graph.nodes.len(), n + 1);
    assert_eq!(
        code(&bx, bx.block),
        vec![Instr::Assign { target: LValue { id: n }, value: x }]
    );
    let n = bx.cx.graph.nodes.len();
    assert_eq!(bx.insert_value(a, y, 2), a);
    assert_eq!(node(&bx, nth(n)), NodeKind::Const { bits: 2 });
    assert_eq!(node(&bx, nth(n + 1)), NodeKind::ArrayAccess { base: a, index: nth(n) });
    assert_eq!(node(&bx, nth(n + 2)), NodeKind::Cast { value: y });
    assert_eq!(node_type(&bx, nth(n + 2)), i32_type);
    assert_eq!(
        code(&bx, bx.block)[1],
        Instr::Assign { target: LValue { id: n + 1 }, value: nth(n + 2) }
    );
}

fn callee(bx: &mut Builder, name: &str, params: Vec<Type>, ret: Type, defined: bool) -> RValue {
    let g = bx.cx.graph.new_function(name, params, ret);
    if defined {
        bx.cx.register_function(g);
    }
    bx.cx.graph.function_address(g)
}

#[test]
fn a_call_that_returns_a_value_is_bound_to_a_local() {
    let (mut bx, f) = begin();
    let i32_type = bx.cx.i32_type;
    let i64_type = bx.cx.i64_type;
    let g = callee(&mut bx, "g", vec![i32_type, i64_type], i64_type, true);
    assert!(bx.cx.is_registered(Function { id: 1 }));
    assert!(!bx.cx.is_registered(Function { id: 0 }));
    let a = slot(&mut bx, f, i32_type, "a").to_rvalue();
    let b = slot(&mut bx, f, i64_type, "b").to_rvalue();
    let n = bx.cx.graph.nodes.len();
    let r = bx.call(i64_type, g, &[a, b]);
    assert_eq!(r, nth(n));
    assert_eq!(name_of(&bx, r), "returnValue1");
    assert_eq!(node_type(&bx, r), i64_type);
    let (name, builtin, args) = call_of(&bx, nth(n + 1));
    assert_eq!(name, "g");
    assert_eq!(builtin, None);
    assert_eq!(args, vec![a, b]);
    assert_eq!(node_type(&bx, nth(n + 1)), i64_type);
    assert_eq!(
        code(&bx, bx.block),
        vec![Instr::Assign { target: LValue { id: n }, value: nth(n + 1) }]
    );
}

#[test]
fn a_call_that_returns_nothing_is_evaluated_and_gives_a_zero() {
    let (mut bx, f) = begin();
    let i32_type = bx.cx.i32_type;
    let void_type = bx.cx.void_type;
    let g = callee(&mut bx, "g", vec![i32_type], void_type, true);
    let a = slot(&mut bx, f, i32_type, "a").to_rvalue();
    let n = bx.cx.graph.nodes.len();
    let vars = bx.cx.graph.vars.len();
    let r = bx.call(void_type, g, &[a]);
    let (name, _, args) = call_of(&bx, nth(n));
    assert_eq!(name, "g");
    assert_eq!(args, vec![a]);
    assert_eq!(r, nth(n + 1));
    assert_eq!(node(&bx, r), NodeKind::Const { bits: 0 });
    assert_eq!(node_type(&bx, r), bx.cx.isize_type);
    assert_eq!(code(&bx, bx.block), vec![Instr::Eval { value: nth(n) }]);
    assert_eq!(bx.cx.graph.vars.len(), vars);
    assert_eq!(bx.cx.graph.nodes.len(), n + 2);
    assert_eq!(bx.cx.return_value_count, 0);
}

#[test]
fn arguments_of_a_defined_routine_are_converted_to_fit() {
    let (mut bx, f) = begin();
    let i32_type = bx.cx.i32_type;
    let u32_type = bx.cx.u32_type;
    let i64_type = bx.cx.i64_type;
    let g = callee(&mut bx, "g", vec![i32_type, i64_type], i32_type, true);
    let a = slot(&mut bx, f, u32_type, "a").to_rvalue();
    let b = slot(&mut bx, f, i64_type, "b").to_rvalue();
    let extra = slot(&mut bx, f, i64_type, "extra").to_rvalue();
    let n = bx.cx.graph.nodes.len();
    let r = bx.call(i32_type, g, &[a, b, extra]);
    assert_eq!(node(&bx, nth(n)), NodeKind::Cast { value: a });
    assert_eq!(node_type(&bx, nth(n)), i32_type);
    assert_eq!(r, nth(n + 1));
    let (_, _, args) = call_of(&bx, nth(n + 2));
    assert_eq!(args, vec![nth(n), b]);
    let n = bx.cx.graph.nodes.len();
    let a2 = slot(&mut bx, f, i32_type, "a2").to_rvalue();
    bx.call(i32_type, g, &[a2, b, extra]);
    let (_, _, args) = call_of(&bx, nth(n + 2));
    assert_eq!(args, vec![a2, b, extra]);
    let float_type = bx.cx.float_type;
    let x = slot(&mut bx, f, float_type, "x").to_rvalue();
    let n = bx.cx.graph.nodes.len();
    bx.call(i32_type, g, &[x, b]);
    assert_eq!(node(&bx, nth(n)), NodeKind::Bitcast { value: x });
    assert_eq!(node_type(&bx, nth(n)), i32_type);
}

#[test]
fn a_call_through_a_pointer_fits_its_arguments_in_three_ways() {
    let (mut bx, f) = begin();
    let i32_type = bx.cx.i32_type;
    let u32_type = bx.cx.u32_type;
    let i64_type = bx.cx.i64_type;
    let float_type = bx.cx.float_type;
    let record = bx.cx.graph.new_struct_type("s", vec![i32_type]);
    let precord = bx.cx.graph.make_pointer(record);
    let g = callee(&mut bx, "g", vec![i32_type, record, i32_type, i64_type], i64_type, false);
    let signature = match type_kind(&bx, node_type(&bx, g)) {
        TypeKind::FunctionPtr { index } => index,
        other => panic!("no function pointer: {:?}", other),
    };
    assert!(!bx.cx.is_on_stack(signature, 1));
    bx.cx.mark_on_stack(signature, 1);
    assert!(bx.cx.is_on_stack(signature, 1));
    assert!(!bx.cx.is_on_stack(signature, 0));
    let a = slot(&mut bx, f, u32_type, "a").to_rvalue();
    let b = slot(&mut bx, f, precord, "b").to_rvalue();
    let c = slot(&mut bx, f, float_type, "c").to_rvalue();
    let d = slot(&mut bx, f, i64_type, "d").to_rvalue();
    let n = bx.cx.graph.nodes.len();
    let r = bx.call(i64_type, g, &[a, b, c, d]);
    assert_eq!(node(&bx, nth(n)), NodeKind::Cast { value: a });
    assert_eq!(node_type(&bx, nth(n)), i32_type);
    assert_eq!(node(&bx, nth(n + 1)), NodeKind::Deref { ptr: b });
    assert_eq!(node_type(&bx, nth(n + 1)), record);
    assert_eq!(node(&bx, nth(n + 2)), NodeKind::Bitcast { value: c });
    assert_eq!(node_type(&bx, nth(n + 2)), i32_type);
    assert_eq!(r, nth(n + 3));
    assert_eq!(name_of(&bx, r), "ptrReturnValue1");
    match node(&bx, nth(n + 4)) {
        NodeKind::CallThroughPtr { ptr, args } => {
            assert_eq!(ptr, g);
            assert_eq!(bx.cx.graph.lists[args], vec![nth(n), nth(n + 1), nth(n + 2), d]);
        }
        other => panic!("no call: {:?}", other),
    }
    assert_eq!(
        code(&bx, bx.block),
        vec![Instr::Assign { target: LValue { id: n + 3 }, value: nth(n + 4) }]
    );
}

#[test]
fn integers_of_different_widths_are_reinterpreted_for_a_pointer_call() {
    let (mut bx, f) = begin();
    let i32_type = bx.cx.i32_type;
    let i64_type = bx.cx.i64_type;
    let g = callee(&mut bx, "g", vec![i32_type], i32_type, false);
    let a = slot(&mut bx, f, i64_type, "a").to_rvalue();
    let n = bx.cx.graph.nodes.len();
    bx.call(i32_type, g, &[a]);
    assert_eq!(node(&bx, nth(n)), NodeKind::Bitcast { value: a });
}

#[test]
fn a_pointer_call_that_returns_nothing_gives_a_local_that_holds_zero() {
    let (mut bx, _) = begin();
    let void_type = bx.cx.void_type;
    let g = callee(&mut bx, "g", vec![], void_type, false);
    let n = bx.cx.graph.nodes.len();
    let r = bx.call(void_type, g, &[]);
    assert!(matches!(node(&bx, nth(n)), NodeKind::CallThroughPtr { .. }));
    assert_eq!(r, nth(n + 1));
    assert_eq!(name_of(&bx, r), "dummyValueThatShouldNeverBeUsed");
    assert_eq!(node_type(&bx, r), bx.cx.isize_type);
    assert_eq!(node(&bx, nth(n + 2)), NodeKind::Const { bits: 0 });
    assert_eq!(
        code(&bx, bx.block),
        vec![
            Instr::Eval { value: nth(n) },
            Instr::Assign { target: LValue { id: n + 1 }, value: nth(n + 2) },
        ]
    );
}

#[test]
fn an_overflow_call_is_bound_to_a_boolean_local() {
    let (mut bx, f) = begin();
    let i32_type = bx.cx.i32_type;
    let a = slot(&mut bx, f, i32_type, "a").to_rvalue();
    let b = slot(&mut bx, f, i32_type, "b").to_rvalue();
    let n = bx.cx.graph.nodes.len();
    let (result, overflow) = bx.checked_binop(OverflowOp::Add, a, b);
    assert_eq!(result, nth(n));
    assert_eq!(name_of(&bx, result), "binopResult");
    assert_eq!(node(&bx, nth(n + 1)), NodeKind::AddressOf { lvalue: LValue { id: n } });
    assert_eq!(overflow, nth(n + 2));
    assert_eq!(name_of(&bx, overflow), "overflowReturnValue1");
    assert_eq!(node_type(&bx, overflow), bx.cx.bool_type);
    let (name, builtin, args) = call_of(&bx, nth(n + 3));
    assert_eq!(name, "__builtin_add_overflow");
    assert_eq!(builtin, Some(Builtin::Overflow { op: OverflowOp::Add }));
    assert_eq!(args, vec![a, b, nth(n + 1)]);
    assert_eq!(
        code(&bx, bx.block),
        vec![Instr::Assign { target: LValue { id: n + 2 }, value: nth(n + 3) }]
    );
}

#[test]
fn invoke_calls_and_goes_on_normally() {
    let (mut bx, f) = begin();
    let i32_type = bx.cx.i32_type;
    let g = callee(&mut bx, "g", vec![], i32_type, true);
    let then = bx.cx.graph.new_block(f, "then");
    let catch = bx.cx.graph.new_block(f, "catch");
    let r = bx.invoke(i32_type, g, &[], then, catch);
    assert_eq!(name_of(&bx, r), "returnValue1");
    let cond = nth(bx.cx.graph.nodes.len() - 1);
    assert_eq!(node(&bx, cond), NodeKind::Const { bits: 1 });
    assert_eq!(node_type(&bx, cond), bx.cx.bool_type);
    assert_eq!(
        code(&bx, bx.block)[1],
        Instr::Conditional { cond, on_true: then, on_false: catch }
    );
}

#[test]
fn select_builds_three_blocks_and_moves_the_cursor() {
    let (mut bx, f) = begin();
    let i32_type = bx.cx.i32_type;
    let i64_type = bx.cx.i64_type;
    let bool_type = bx.cx.bool_type;
    let c = slot(&mut bx, f, bool_type, "c").to_rvalue();
    let a = slot(&mut bx, f, i32_type, "a").to_rvalue();
    let b = slot(&mut bx, f, i64_type, "b").to_rvalue();
    let n = bx.cx.graph.nodes.len();
    let r = bx.select(c, a, b);
    assert_eq!(r, nth(n));
    assert_eq!(name_of(&bx, r), "selectVar");
    assert_eq!(node_type(&bx, r), i32_type);
    assert_eq!(node(&bx, nth(n + 1)), NodeKind::Cast { value: b });
    assert_eq!(node_type(&bx, nth(n + 1)), i32_type);
    let (then, other, after) = (Block { id: 1 }, Block { id: 2 }, Block { id: 3 });
    assert_eq!(
        code(&bx, Block { id: 0 }),
        vec![Instr::Conditional { cond: c, on_true: then, on_false: other }]
    );
    assert_eq!(
        code(&bx, then),
        vec![Instr::Assign { target: LValue { id: n }, value: a }, Instr::Jump { dest: after }]
    );
    assert_eq!(
        code(&bx, other),
        vec![
            Instr::Assign { target: LValue { id: n }, value: nth(n + 1) },
            Instr::Jump { dest: after },
        ]
    );
    assert!(code(&bx, after).is_empty());
    assert_eq!(bx.block, after);
    assert_eq!(bx.cx.graph.blocks[1].name, "then");
    assert_eq!(bx.cx.graph.blocks[2].name, "else");
    assert_eq!(bx.cx.graph.blocks[3].name, "after");
    let n = bx.cx.graph.nodes.len();
    let r = bx.select(c, a, a);
    assert_eq!(bx.cx.graph.nodes.len(), n + 1);
    assert_eq!(code(&bx, Block { id: 5 })[0], Instr::Assign { target: LValue { id: r.id }, value: a });
}

#[test]
fn atomic_loads_and_stores_call_the_sized_builtins() {
    let (mut bx, f) = begin();
    let u32_type = bx.cx.u32_type;
    let ptr = bx.cx.graph.make_pointer(u32_type);
    let p = slot(&mut bx, f, ptr, "p").to_rvalue();
    let v = slot(&mut bx, f, u32_type, "v").to_rvalue();
    let n = bx.cx.graph.nodes.len();
    let r = bx.atomic_load(u32_type, p, AtomicOrdering::Acquire, Size { bytes: 4 });
    assert_eq!(node(&bx, nth(n)), NodeKind::Const { bits: 2 });
    assert_eq!(node_type(&bx, nth(n)), bx.cx.i32_type);
    assert_eq!(node(&bx, nth(n + 1)), NodeKind::Cast { value: p });
    let (name, builtin, args) = call_of(&bx, r);
    assert_eq!(name, "__atomic_load_4");
    assert_eq!(builtin, Some(Builtin::AtomicLoad { bytes: 4 }));
    assert_eq!(args, vec![nth(n + 1), nth(n)]);
    assert_eq!(node_type(&bx, r), u32_type);
    assert!(code(&bx, bx.block).is_empty());

    let n = bx.cx.graph.nodes.len();
    bx.atomic_store(v, p, AtomicOrdering::Release, Size { bytes: 4 });
    assert_eq!(node(&bx, nth(n)), NodeKind::Const { bits: 3 });
    assert_eq!(node(&bx, nth(n + 1)), NodeKind::Cast { value: p });
    assert_eq!(node(&bx, nth(n + 2)), NodeKind::Cast { value: v });
    assert_eq!(node_type(&bx, nth(n + 2)), u32_type);
    let (name, _, args) = call_of(&bx, nth(n + 3));
    assert_eq!(name, "__atomic_store_4");
    assert_eq!(args, vec![nth(n + 1), nth(n + 2), nth(n)]);
    assert_eq!(code(&bx, bx.block), vec![Instr::Eval { value: nth(n + 3) }]);
}

#[test]
fn fences_call_the_fence_builtins() {
    let (mut bx, _) = begin();
    bx.atomic_fence(AtomicOrdering::SequentiallyConsistent, SynchronizationScope::CrossThread);
    let n = bx.cx.graph.nodes.len();
    let (name, _, args) = call_of(&bx, nth(n - 1));
    assert_eq!(name, "__atomic_thread_fence");
    assert_eq!(args, vec![nth(n - 2)]);
    assert_eq!(node(&bx, nth(n - 2)), NodeKind::Const { bits: 5 });
    bx.atomic_fence(AtomicOrdering::Monotonic, SynchronizationScope::SingleThread);
    let n = bx.cx.graph.nodes.len();
    let (name, _, _) = call_of(&bx, nth(n - 1));
    assert_eq!(name, "__atomic_signal_fence");
    assert_eq!(node(&bx, nth(n - 2)), NodeKind::Const { bits: 0 });
    assert_eq!(code(&bx, bx.block).len(), 2);
}

#[test]
fn read_modify_write_calls_the_builtin_of_the_operation() {
    let ops = [
        (AtomicRmwBinOp::AtomicXchg, "__atomic_exchange_8"),
        (AtomicRmwBinOp::AtomicAdd, "__atomic_fetch_add_8"),
        (AtomicRmwBinOp::AtomicSub, "__atomic_fetch_sub_8"),
        (AtomicRmwBinOp::AtomicAnd, "__atomic_fetch_and_8"),
        (AtomicRmwBinOp::AtomicNand, "__atomic_fetch_nand_8"),
        (AtomicRmwBinOp::AtomicOr, "__atomic_fetch_or_8"),
        (AtomicRmwBinOp::AtomicXor, "__atomic_fetch_xor_8"),
    ];
    for (op, expected) in ops {
        let (mut bx, f) = begin();
        let i64_type = bx.cx.i64_type;
        let ptr = bx.cx.graph.make_pointer(i64_type);
        let p = slot(&mut bx, f, ptr, "p").to_rvalue();
        let v = slot(&mut bx, f, i64_type, "v").to_rvalue();
        let n = bx.cx.graph.nodes.len();
        let r = bx.atomic_rmw(op, p, v, AtomicOrdering::AcquireRelease);
        assert_eq!(node(&bx, nth(n)), NodeKind::Const { bits: 4 });
        assert_eq!(node(&bx, nth(n + 1)), NodeKind::Cast { value: p });
        assert_eq!(node(&bx, nth(n + 2)), NodeKind::Cast { value: v });
        assert_eq!(node_type(&bx, nth(n + 2)), bx.cx.u64_type);
        let (name, _, args) = call_of(&bx, nth(n + 3));
        assert_eq!(name, expected);
        assert_eq!(args, vec![nth(n + 1), nth(n + 2), nth(n)]);
        assert_eq!(r, nth(n + 4));
        assert_eq!(node(&bx, r), NodeKind::Cast { value: nth(n + 3) });
        assert_eq!(node_type(&bx, r), bx.cx.u64_type);
        assert_eq!(bx.block, Block { id: 0 });
    }
}

#[test]
fn an_extremum_is_a_retry_loop() {
    for (op, test) in [
        (AtomicRmwBinOp::AtomicMax, ComparisonOp::LessThan),
        (AtomicRmwBinOp::AtomicUMax, ComparisonOp::LessThan),
        (AtomicRmwBinOp::AtomicMin, ComparisonOp::GreaterThan),
        (AtomicRmwBinOp::AtomicUMin, ComparisonOp::GreaterThan),
    ] {
        let (mut bx, f) = begin();
        let i32_type = bx.cx.i32_type;
        let ptr = bx.cx.graph.make_pointer(i32_type);
        let p = slot(&mut bx, f, ptr, "p").to_rvalue();
        let v = slot(&mut bx, f, i32_type, "v").to_rvalue();
        let n = bx.cx.graph.nodes.len();
        let r = bx.atomic_rmw(op, p, v, AtomicOrdering::Release);
        let (name, _, _) = call_of(&bx, nth(n + 2));
        assert_eq!(name, "__atomic_load_4");
        assert_eq!(node(&bx, nth(n)), NodeKind::Const { bits: 2 });
        assert_eq!(name_of(&bx, nth(n + 3)), "previous_value");
        assert_eq!(name_of(&bx, nth(n + 4)), "return_value");
        assert_eq!(r, nth(n + 4));
        let signed = matches!(op, AtomicRmwBinOp::AtomicMax | AtomicRmwBinOp::AtomicMin);
        if signed {
            assert_eq!(node(&bx, nth(n + 5)), NodeKind::Cast { value: nth(n + 3) });
            assert_eq!(node_type(&bx, nth(n + 5)), i32_type);
            assert_eq!(
                node(&bx, nth(n + 6)),
                NodeKind::Comparison { op: test, lhs: nth(n + 5), rhs: v }
            );
        } else {
            assert_eq!(node(&bx, nth(n + 5)), NodeKind::Cast { value: v });
            assert_eq!(node_type(&bx, nth(n + 5)), bx.cx.u32_type);
            assert_eq!(
                node(&bx, nth(n + 6)),
                NodeKind::Comparison { op: test, lhs: nth(n + 3), rhs: nth(n + 5) }
            );
        }
        assert_eq!(node(&bx, nth(n + 7)), NodeKind::Const { bits: 3 });
        assert_eq!(node(&bx, nth(n + 8)), NodeKind::Const { bits: 2 });
        assert_eq!(node(&bx, nth(n + 9)), NodeKind::Const { bits: 0 });
        assert_eq!(node(&bx, nth(n + 11)), NodeKind::AddressOf { lvalue: LValue { id: n + 3 } });
        let (name, _, args) = call_of(&bx, nth(n + 14));
        assert_eq!(name, "__atomic_compare_exchange_4");
        assert_eq!(args, vec![nth(n + 10), nth(n + 12), nth(n + 13), nth(n + 9), nth(n + 7), nth(n + 8)]);
        assert_eq!(
            node(&bx, nth(n + 15)),
            NodeKind::Unary { op: UnaryOp::LogicalNegate, operand: nth(n + 14) }
        );
        assert_eq!(
            node(&bx, nth(n + 16)),
            NodeKind::Binary { op: BinaryOp::LogicalAnd, lhs: nth(n + 6), rhs: nth(n + 15) }
        );
        let (looping, after) = (Block { id: 1 }, Block { id: 2 });
        assert_eq!(
            code(&bx, Block { id: 0 }),
            vec![
                Instr::Assign { target: LValue { id: n + 3 }, value: nth(n + 2) },
                Instr::Assign { target: LValue { id: n + 4 }, value: nth(n + 3) },
                Instr::Jump { dest: looping },
            ]
        );
        assert_eq!(
            code(&bx, looping),
            vec![Instr::Conditional { cond: nth(n + 16), on_true: looping, on_false: after }]
        );
        assert!(code(&bx, after).is_empty());
        assert_eq!(bx.block, after);
        assert_eq!(bx.cx.graph.blocks[1].name, "while");
        assert_eq!(bx.cx.graph.blocks[2].name, "after_while");
    }
}

#[test]
fn bulk_operations_call_their_builtins() {
    let (mut bx, f) = begin();
    let i32_type = bx.cx.i32_type;
    let u8_type = bx.cx.u8_type;
    let u64_type = bx.cx.u64_type;
    let ptr = bx.cx.graph.make_pointer(i32_type);
    let d = slot(&mut bx, f, ptr, "d").to_rvalue();
    let s = slot(&mut bx, f, ptr, "s").to_rvalue();
    let size = slot(&mut bx, f, u64_type, "size").to_rvalue();
    let byte = slot(&mut bx, f, u8_type, "byte").to_rvalue();
    let none = MemFlags::empty();
    let a = Align { bytes: 4 };

    let n = bx.cx.graph.nodes.len();
    bx.memcpy(d, a, s, a, size, none);
    assert_eq!(node(&bx, nth(n)), NodeKind::Cast { value: size });
    assert_eq!(node_type(&bx, nth(n)), bx.cx.usize_type);
    assert_eq!(node(&bx, nth(n + 1)), NodeKind::Cast { value: d });
    assert_eq!(type_kind(&bx, node_type(&bx, nth(n + 1))), TypeKind::Pointer { pointee: bx.cx.i8_type });
    assert_eq!(node(&bx, nth(n + 2)), NodeKind::Cast { value: s });
    assert_eq!(type_kind(&bx, node_type(&bx, nth(n + 2))), TypeKind::Pointer { pointee: bx.cx.void_type });
    let (name, _, args) = call_of(&bx, nth(n + 3));
    assert_eq!(name, "memcpy");
    assert_eq!(args, vec![nth(n + 1), nth(n + 2), nth(n)]);
    assert_eq!(code(&bx, bx.block), vec![Instr::Eval { value: nth(n + 3) }]);

    let n = bx.cx.graph.nodes.len();
    bx.memmove(d, a, s, a, size, none);
    let (name, _, args) = call_of(&bx, nth(n + 3));
    assert_eq!(name, "memmove");
    assert_eq!(args, vec![nth(n + 1), nth(n + 2), nth(n)]);

    let n = bx.cx.graph.nodes.len();
    bx.memset(d, byte, size, a, none);
    assert_eq!(node(&bx, nth(n)), NodeKind::Cast { value: d });
    assert_eq!(node(&bx, nth(n + 1)), NodeKind::Cast { value: byte });
    assert_eq!(node_type(&bx, nth(n + 1)), i32_type);
    assert_eq!(node(&bx, nth(n + 2)), NodeKind::Cast { value: size });
    let (name, _, args) = call_of(&bx, nth(n + 3));
    assert_eq!(name, "memset");
    assert_eq!(args, vec![nth(n), nth(n + 1), nth(n + 2)]);
    assert_eq!(code(&bx, bx.block).len(), 3);
}

#[test]
fn a_move_that_is_to_bypass_the_caches_loads_and_stores() {
    let (mut bx, f) = begin();
    let i32_type = bx.cx.i32_type;
    let u64_type = bx.cx.u64_type;
    let ptr = bx.cx.graph.make_pointer(i32_type);
    let d = slot(&mut bx, f, ptr, "d").to_rvalue();
    let s = slot(&mut bx, f, ptr, "s").to_rvalue();
    let size = slot(&mut bx, f, u64_type, "size").to_rvalue();
    let n = bx.cx.graph.nodes.len();
    let functions = bx.cx.graph.functions.len();
    bx.memmove(
        d,
        Align { bytes: 4 },
        s,
        Align { bytes: 4 },
        size,
        MemFlags { volatile: false, nontemporal: true, unaligned: false },
    );
    assert_eq!(bx.cx.graph.functions.len(), functions);
    assert_eq!(node(&bx, nth(n)), NodeKind::Deref { ptr: s });
    let loaded = nth(n + 1);
    assert_eq!(name_of(&bx, loaded), "loadedValue1");
    assert_eq!(node(&bx, nth(n + 2)), NodeKind::Cast { value: d });
    let all = code(&bx, bx.block);
    assert_eq!(all.len(), 2);
    assert_eq!(all[0], Instr::Assign { target: LValue { id: n + 1 }, value: nth(n) });
    match all[1] {
        Instr::Assign { value, .. } => assert_eq!(value, loaded),
        other => panic!("no assignment: {:?}", other),
    }
}

#[test]
fn floating_remainder_calls_the_builtin_of_the_precision() {
    let (mut bx, f) = begin();
    let float_type = bx.cx.float_type;
    let double_type = bx.cx.double_type;
    let a = slot(&mut bx, f, float_type, "a").to_rvalue();
    let b = slot(&mut bx, f, double_type, "b").to_rvalue();
    let r = bx.frem(a, a);
    let (name, builtin, args) = call_of(&bx, r);
    assert_eq!((name.as_str(), builtin), ("fmodf", Some(Builtin::Fmodf)));
    assert_eq!(args, vec![a, a]);
    assert_eq!(node_type(&bx, r), float_type);
    let r = bx.frem(b, b);
    let (name, _, _) = call_of(&bx, r);
    assert_eq!(name, "fmod");
    assert_eq!(node_type(&bx, r), double_type);
}

#[test]
fn a_landing_pad_is_a_local_of_a_struct() {
    let (mut bx, _) = begin();
    let t = bx.cx.i32_type;
    let r = bx.cleanup_landing_pad(t, RValue { id: 0 });
    assert_eq!(name_of(&bx, r), "landing_pad");
    match type_kind(&bx, node_type(&bx, r)) {
        TypeKind::Struct { index } => {
            let def = &bx.cx.graph.types.structs[index];
            assert_eq!(def.name, "landing_pad");
            assert_eq!(def.fields.len(), 2);
            assert_eq!(type_kind(&bx, def.fields[0]), TypeKind::Pointer { pointee: bx.cx.u8_type });
            assert_eq!(def.fields[1], bx.cx.i32_type);
        }
        other => panic!("no struct: {:?}", other),
    }
}

#[test]
fn a_shuffle_of_as_many_units_as_the_mask_has_indices_is_one_permutation() {
    let (mut bx, f) = begin();
    let i32_type = bx.cx.i32_type;
    let vector = bx.cx.graph.new_vector_type(i32_type, 2);
    let mask_type = bx.cx.graph.new_struct_type("mask", vec![i32_type, i32_type]);
    let v1 = slot(&mut bx, f, vector, "v1").to_rvalue();
    let v2 = slot(&mut bx, f, vector, "v2").to_rvalue();
    let mask = slot(&mut bx, f, mask_type, "mask").to_rvalue();
    let n = bx.cx.graph.nodes.len();
    let r = bx.shuffle_vector(v1, v2, mask);
    assert_eq!(node(&bx, nth(n)), NodeKind::FieldOf { aggregate: mask, field: 0 });
    assert_eq!(node(&bx, nth(n + 1)), NodeKind::Cast { value: nth(n) });
    assert_eq!(node(&bx, nth(n + 2)), NodeKind::FieldOf { aggregate: mask, field: 1 });
    assert_eq!(node(&bx, nth(n + 3)), NodeKind::Cast { value: nth(n + 2) });
    match node(&bx, nth(n + 4)) {
        NodeKind::VectorLiteral { elements } => {
            assert_eq!(bx.cx.graph.lists[elements], vec![nth(n + 1), nth(n + 3)]);
        }
        other => panic!("no vector: {:?}", other),
    }
    assert_eq!(r, nth(n + 5));
    assert_eq!(node(&bx, r), NodeKind::VectorPerm { first: v1, second: v2, mask: nth(n + 4) });
    assert_eq!(node_type(&bx, r), vector);
    assert_eq!(bx.cx.graph.nodes.len(), n + 6);
}

#[test]
fn a_shuffle_with_a_shorter_mask_pads_the_mask_and_takes_the_first_units() {
    let (mut bx, f) = begin();
    let float_type = bx.cx.float_type;
    let i32_type = bx.cx.i32_type;
    let vector = bx.cx.graph.new_vector_type(float_type, 4);
    let mask_type = bx.cx.graph.new_struct_type("mask", vec![i32_type, i32_type]);
    let v1 = slot(&mut bx, f, vector, "v1").to_rvalue();
    let v2 = slot(&mut bx, f, vector, "v2").to_rvalue();
    let mask = slot(&mut bx, f, mask_type, "mask").to_rvalue();
    let n = bx.cx.graph.nodes.len();
    let r = bx.shuffle_vector(v1, v2, mask);
    assert_eq!(node_type(&bx, nth(n + 1)), bx.cx.int_type);
    assert_eq!(node(&bx, nth(n + 4)), NodeKind::Const { bits: 0 });
    assert_eq!(node(&bx, nth(n + 5)), NodeKind::Const { bits: 0 });
    match node(&bx, nth(n + 6)) {
        NodeKind::VectorLiteral { elements } => {
            assert_eq!(bx.cx.graph.lists[elements], vec![nth(n + 1), nth(n + 3), nth(n + 4), nth(n + 5)]);
        }
        other => panic!("no vector: {:?}", other),
    }
    assert_eq!(
        type_kind(&bx, node_type(&bx, nth(n + 6))),
        TypeKind::Vector { element: bx.cx.int_type, len: 4 }
    );
    assert_eq!(node(&bx, nth(n + 7)), NodeKind::VectorPerm { first: v1, second: v2, mask: nth(n + 6) });
    assert_eq!(node(&bx, nth(n + 8)), NodeKind::Bitcast { value: nth(n + 7) });
    assert_eq!(type_kind(&bx, node_type(&bx, nth(n + 8))), TypeKind::Array { element: float_type, len: 4 });
    assert_eq!(node(&bx, nth(n + 9)), NodeKind::Const { bits: 0 });
    assert_eq!(node(&bx, nth(n + 10)), NodeKind::ArrayAccess { base: nth(n + 8), index: nth(n + 9) });
    assert_eq!(node(&bx, nth(n + 11)), NodeKind::Const { bits: 1 });
    assert_eq!(r, nth(n + 13));
    match node(&bx, r) {
        NodeKind::VectorLiteral { elements } => {
            assert_eq!(bx.cx.graph.lists[elements], vec![nth(n + 10), nth(n + 12)]);
        }
        other => panic!("no vector: {:?}", other),
    }
    assert_eq!(type_kind(&bx, node_type(&bx, r)), TypeKind::Vector { element: float_type, len: 2 });
}

#[test]
fn a_shuffle_with_a_longer_mask_joins_the_operands() {
    let (mut bx, f) = begin();
    let i32_type = bx.cx.i32_type;
    let vector = bx.cx.graph.new_vector_type(i32_type, 1);
    let mask_type = bx.cx.graph.new_struct_type("mask", vec![i32_type, i32_type]);
    let v1 = slot(&mut bx, f, vector, "v1").to_rvalue();
    let v2 = slot(&mut bx, f, vector, "v2").to_rvalue();
    let mask = slot(&mut bx, f, mask_type, "mask").to_rvalue();
    let n = bx.cx.graph.nodes.len();
    let r = bx.shuffle_vector(v1, v2, mask);
    let join = n + 4;
    assert_eq!(node(&bx, nth(join)), NodeKind::Bitcast { value: v1 });
    assert_eq!(node(&bx, nth(join + 2)), NodeKind::ArrayAccess { base: nth(join), index: nth(join + 1) });
    assert_eq!(node(&bx, nth(join + 3)), NodeKind::Bitcast { value: v2 });
    match node(&bx, nth(join + 6)) {
        NodeKind::VectorLiteral { elements } => {
            assert_eq!(bx.cx.graph.lists[elements], vec![nth(join + 2), nth(join + 5)]);
        }
        other => panic!("no vector: {:?}", other),
    }
    assert_eq!(node(&bx, nth(join + 7)), NodeKind::Const { bits: 0 });
    match node(&bx, nth(join + 8)) {
        NodeKind::VectorLiteral { elements } => {
            assert_eq!(bx.cx.graph.lists[elements], vec![nth(join + 7), nth(join + 7)]);
        }
        other => panic!("no vector: {:?}", other),
    }
    let perm = join + 9;
    assert_eq!(
        node(&bx, nth(perm + 1)),
        NodeKind::VectorPerm { first: nth(join + 6), second: nth(join + 8), mask: nth(perm) }
    );
    assert_eq!(node(&bx, nth(perm + 2)), NodeKind::Bitcast { value: nth(perm + 1) });
    assert_eq!(r.id, bx.cx.graph.nodes.len() - 1);
    assert!(matches!(node(&bx, r), NodeKind::VectorLiteral { .. }));
}

fn scalar(bytes: u8, start: u128, end: u128) -> Scalar {
    Scalar {
        value: Primitive::Int { bytes, signed: false },
        valid_range: WrappingRange { start, end },
        size: Size { bytes: bytes as u64 },
        align: Align { bytes: bytes as u64 },
    }
}

#[test]
fn operands_are_loaded_as_their_layout_says() {
    let (mut bx, f) = begin();
    let u8_type = bx.cx.u8_type;
    let i32_type = bx.cx.i32_type;
    let pair = bx.cx.graph.new_struct_type("pair", vec![u8_type, i32_type]);
    let pu8 = bx.cx.graph.make_pointer(u8_type);
    let ppair = bx.cx.graph.make_pointer(pair);
    let p = slot(&mut bx, f, pu8, "p").to_rvalue();
    let q = slot(&mut bx, f, ppair, "q").to_rvalue();
    let extra = slot(&mut bx, f, i32_type, "extra").to_rvalue();
    let a = Align { bytes: 8 };

    let zst = Layout { abi: Abi::Aggregate { sized: true }, size: Size { bytes: 0 }, gcc_type: u8_type };
    let place = PlaceRef { llval: p, llextra: None, layout: zst, align: a };
    assert_eq!(bx.load_operand(place), OperandRef { val: OperandValue::ZeroSized, layout: zst });

    let unsized_ = Layout { abi: Abi::Aggregate { sized: false }, size: Size { bytes: 4 }, gcc_type: u8_type };
    let place = PlaceRef { llval: p, llextra: Some(extra), layout: unsized_, align: a };
    assert_eq!(
        bx.load_operand(place).val,
        OperandValue::Ref { ptr: p, extra: Some(extra), align: a }
    );

    let in_memory = Layout { abi: Abi::Aggregate { sized: true }, size: Size { bytes: 12 }, gcc_type: u8_type };
    let place = PlaceRef { llval: p, llextra: None, layout: in_memory, align: a };
    assert_eq!(bx.load_operand(place).val, OperandValue::Ref { ptr: p, extra: None, align: a });
    assert!(code(&bx, bx.block).is_empty());

    let boolean = Layout { abi: Abi::Scalar { scalar: scalar(1, 0, 1) }, size: Size { bytes: 1 }, gcc_type: u8_type };
    let place = PlaceRef { llval: p, llextra: None, layout: boolean, align: a };
    let n = bx.cx.graph.nodes.len();
    match bx.load_operand(place).val {
        OperandValue::Immediate { value } => {
            assert_eq!(value, nth(n + 2));
            assert_eq!(node(&bx, value), NodeKind::Cast { value: nth(n + 1) });
            assert_eq!(node_type(&bx, value), bx.cx.bool_type);
            assert_eq!(name_of(&bx, nth(n + 1)), "loadedValue1");
        }
        other => panic!("no immediate: {:?}", other),
    }

    let byte = Layout { abi: Abi::Scalar { scalar: scalar(1, 0, 255) }, size: Size { bytes: 1 }, gcc_type: u8_type };
    let place = PlaceRef { llval: p, llextra: None, layout: byte, align: a };
    let n = bx.cx.graph.nodes.len();
    assert_eq!(bx.load_operand(place).val, OperandValue::Immediate { value: nth(n + 1) });

    let two = Layout {
        abi: Abi::ScalarPair { first: scalar(1, 0, 1), second: scalar(4, 0, 0xffff_ffff) },
        size: Size { bytes: 8 },
        gcc_type: pair,
    };
    let place = PlaceRef { llval: q, llextra: None, layout: two, align: a };
    let n = bx.cx.graph.nodes.len();
    match bx.load_operand(place).val {
        OperandValue::Pair { first, second } => {
            assert_eq!(node(&bx, nth(n + 1)), NodeKind::DerefField { ptr: q, field: 0 });
            assert_eq!(node(&bx, nth(n + 3)), NodeKind::Deref { ptr: nth(n + 2) });
            assert_eq!(first, nth(n + 5));
            assert_eq!(node(&bx, first), NodeKind::Cast { value: nth(n + 4) });
            assert_eq!(node(&bx, nth(n + 7)), NodeKind::DerefField { ptr: q, field: 1 });
            assert_eq!(second, nth(n + 10));
            assert_eq!(name_of(&bx, second), "loadedValue4");
        }
        other => panic!("no pair: {:?}", other),
    }
}

#[test]
fn a_value_is_written_to_every_element_by_a_loop() {
    let (mut bx, f) = begin();
    let i32_type = bx.cx.i32_type;
    let array = bx.cx.graph.new_array_type(i32_type, 3);
    let parray = bx.cx.graph.make_pointer(array);
    let pi32 = bx.cx.graph.make_pointer(i32_type);
    let dest = slot(&mut bx, f, parray, "dest").to_rvalue();
    let v = slot(&mut bx, f, i32_type, "v").to_rvalue();
    let layout = Layout {
        abi: Abi::Scalar { scalar: scalar(4, 0, 0xffff_ffff) },
        size: Size { bytes: 4 },
        gcc_type: i32_type,
    };
    let place = PlaceRef { llval: dest, llextra: None, layout, align: Align { bytes: 8 } };
    let n = bx.cx.graph.nodes.len();
    bx.write_operand_repeatedly(
        OperandRef { val: OperandValue::Immediate { value: v }, layout },
        3,
        place,
    );
    assert_eq!(node(&bx, nth(n)), NodeKind::Const { bits: 0 });
    assert_eq!(node(&bx, nth(n + 1)), NodeKind::Const { bits: 3 });
    assert_eq!(node_type(&bx, nth(n + 1)), bx.cx.usize_type);
    assert_eq!(node(&bx, nth(n + 3)), NodeKind::Deref { ptr: dest });
    assert_eq!(node(&bx, nth(n + 4)), NodeKind::ArrayAccess { base: nth(n + 3), index: nth(n) });
    assert_eq!(node(&bx, nth(n + 8)), NodeKind::ArrayAccess { base: nth(n + 7), index: nth(n + 1) });
    let current = nth(n + 10);
    assert_eq!(name_of(&bx, current), "loop_var");
    assert_eq!(node_type(&bx, current), pi32);
    assert_eq!(
        node(&bx, nth(n + 11)),
        NodeKind::Comparison { op: ComparisonOp::NotEquals, lhs: current, rhs: nth(n + 9) }
    );
    let (header, body, next) = (Block { id: 1 }, Block { id: 2 }, Block { id: 3 });
    assert_eq!(
        code(&bx, Block { id: 0 }),
        vec![
            Instr::Assign { target: LValue { id: n + 10 }, value: nth(n + 5) },
            Instr::Jump { dest: header },
        ]
    );
    assert_eq!(
        code(&bx, header),
        vec![Instr::Conditional { cond: nth(n + 11), on_true: body, on_false: next }]
    );
    let in_body = code(&bx, body);
    assert_eq!(in_body.len(), 3);
    match in_body[0] {
        Instr::Assign { value, .. } => assert_eq!(value, v),
        other => panic!("no assignment: {:?}", other),
    }
    let last = bx.cx.graph.nodes.len() - 1;
    assert_eq!(node(&bx, nth(last - 2)), NodeKind::Const { bits: 1 });
    assert_eq!(node(&bx, nth(last - 1)), NodeKind::ArrayAccess { base: current, index: nth(last - 2) });
    assert_eq!(in_body[1], Instr::Assign { target: LValue { id: n + 10 }, value: nth(last) });
    assert_eq!(in_body[2], Instr::Jump { dest: header });
    assert!(code(&bx, next).is_empty());
    assert_eq!(bx.block, next);
    assert_eq!(bx.cx.graph.blocks[1].name, "repeat_loop_header");
    assert_eq!(bx.cx.graph.blocks[2].name, "repeat_loop_body");
    assert_eq!(bx.cx.graph.blocks[3].name, "repeat_loop_next");
}

#[test]
fn loaded_scalars_are_narrowed_where_they_are_booleans() {
    let (mut bx, f) = begin();
    let u8_type = bx.cx.u8_type;
    let v = slot(&mut bx, f, u8_type, "v").to_rvalue();
    let n = bx.cx.graph.nodes.len();
    assert_eq!(bx.to_immediate_scalar(v, scalar(1, 0, 255)), v);
    assert_eq!(bx.cx.graph.nodes.len(), n);
    let r = bx.to_immediate_scalar(v, scalar(1, 0, 1));
    assert_eq!(node(&bx, r), NodeKind::Cast { value: v });
    assert_eq!(node_type(&bx, r), bx.cx.bool_type);
}

#[test]
fn the_layout_oracle_answers() {
    assert!(scalar(1, 0, 1).is_bool());
    assert!(!scalar(1, 0, 2).is_bool());
    assert!(!scalar(2, 0, 1).is_bool());
    assert!(scalar(1, 0, 255).is_always_valid());
    assert!(scalar(1, 7, 6).is_always_valid());
    assert!(!scalar(1, 0, 1).is_always_valid());
    assert!(scalar(16, 0, u128::MAX).is_always_valid());
    assert!(scalar(16, 5, 4).is_always_valid());
    assert!(!scalar(3, 0, 255).is_always_valid());
    assert_eq!(scalar(4, 0, 0xffff_ffff).to_load_metadata(), LoadMetadata::Nothing);
    assert_eq!(
        scalar(4, 1, 9).to_load_metadata(),
        LoadMetadata::Range { range: WrappingRange { start: 1, end: 9 } }
    );
    let pointer = |start, end| Scalar {
        value: Primitive::Pointer,
        valid_range: WrappingRange { start, end },
        size: Size { bytes: 8 },
        align: Align { bytes: 8 },
    };
    assert_eq!(pointer(1, u64::MAX as u128).to_load_metadata(), LoadMetadata::NonNull);
    assert_eq!(pointer(0, u64::MAX as u128).to_load_metadata(), LoadMetadata::Nothing);
    assert_eq!(pointer(9, 3).to_load_metadata(), LoadMetadata::Nothing);
    let float = Scalar { value: Primitive::Float, ..scalar(4, 1, 2) };
    assert_eq!(float.to_load_metadata(), LoadMetadata::Nothing);
    assert!(WrappingRange { start: 250, end: 3 }.contains(255));
    assert!(WrappingRange { start: 250, end: 3 }.contains(2));
    assert!(!WrappingRange { start: 250, end: 3 }.contains(100));
    assert!(WrappingRange { start: 2, end: 5 }.contains(5));
    assert!(!WrappingRange { start: 2, end: 5 }.contains(6));
    assert_eq!(Align { bytes: 8 }.restrict_for_offset(Size { bytes: 4 }), Align { bytes: 4 });
    assert_eq!(Align { bytes: 8 }.restrict_for_offset(Size { bytes: 16 }), Align { bytes: 8 });
    assert_eq!(Align { bytes: 8 }.restrict_for_offset(Size { bytes: 0 }), Align { bytes: 8 });
    assert_eq!(Align { bytes: 8 }.restrict_for_offset(Size { bytes: 3 }), Align { bytes: 1 });
    assert_eq!(Align { bytes: 16 }.bytes(), 16);
    assert_eq!(Size { bytes: 5 }.align_to(Align { bytes: 4 }), Size { bytes: 8 });
    assert_eq!(Size { bytes: 8 }.align_to(Align { bytes: 4 }), Size { bytes: 8 });
    assert_eq!(Size::from_bytes(3).bytes(), 3);
    let sized = |abi, bytes| Layout { abi, size: Size { bytes }, gcc_type: Type { id: 0 } };
    assert!(sized(Abi::Aggregate { sized: true }, 0).is_zst());
    assert!(!sized(Abi::Aggregate { sized: false }, 0).is_zst());
    assert!(sized(Abi::Uninhabited, 0).is_zst());
    assert!(!sized(Abi::Vector, 0).is_zst());
    assert!(sized(Abi::Aggregate { sized: false }, 4).is_unsized());
    assert!(!sized(Abi::Aggregate { sized: true }, 4).is_unsized());
    assert!(sized(Abi::Vector, 16).is_gcc_immediate());
    assert!(sized(Abi::Scalar { scalar: scalar(1, 0, 1) }, 1).is_gcc_immediate());
    assert!(!sized(Abi::ScalarPair { first: scalar(1, 0, 1), second: scalar(1, 0, 1) }, 2).is_gcc_immediate());
    assert!(sized(Abi::Aggregate { sized: true }, 0).is_gcc_immediate());
    assert!(!sized(Abi::Aggregate { sized: true }, 4).is_gcc_immediate());
}

#[test]
fn types_that_have_the_same_structure_have_the_same_handle() {
    let mut cx = CodegenCx::new(4);
    let i32_type = cx.i32_type;
    assert_eq!(cx.graph.new_int_type(4, true), i32_type);
    assert_eq!(cx.int_type, i32_type);
    assert_eq!(cx.isize_type, i32_type);
    assert_ne!(cx.usize_type, i32_type);
    let p = cx.graph.make_pointer(i32_type);
    assert_eq!(cx.graph.make_pointer(i32_type), p);
    let pp = cx.graph.make_pointer(p);
    assert_ne!(pp, p);
    let c = cx.graph.make_const(p);
    let v = cx.graph.make_volatile(c);
    let a = cx.graph.get_aligned(v, 16);
    assert_eq!(cx.graph.types.unqualified(a), p);
    assert!(cx.graph.types.is_compatible_with(a, p));
    assert!(!cx.graph.types.is_compatible_with(a, pp));
    assert!(cx.graph.types.type_is_pointer(a));
    assert_eq!(cx.graph.types.get_pointee(a), Some(i32_type));
    assert_eq!(cx.graph.types.get_pointee(i32_type), None);
    assert_eq!(cx.graph.types.get_size(a), 4);
    assert_eq!(cx.graph.types.get_size(cx.u128_type), 16);
    assert_eq!(cx.graph.types.get_size(cx.bool_type), 1);
    assert_eq!(cx.graph.types.get_size(cx.double_type), 8);
    assert!(cx.graph.types.is_integral(cx.bool_type));
    assert!(cx.graph.types.is_integral(cx.u16_type));
    assert!(!cx.graph.types.is_integral(cx.float_type));
    assert!(cx.graph.types.is_bool(cx.bool_type));
    let u16_type = cx.u16_type;
    assert_eq!(cx.graph.to_signed(u16_type), cx.i16_type);
    let s1 = cx.graph.new_struct_type("s", vec![i32_type, p]);
    let s2 = cx.graph.new_struct_type("s", vec![i32_type, p]);
    assert_ne!(s1, s2);
    assert_eq!(cx.graph.types.is_struct(s1), Some(0));
    assert_eq!(cx.graph.get_field_count(s2), 2);
    assert_eq!(cx.graph.get_field_type(s1, 1), p);
    let array = cx.graph.new_array_type(s1, 3);
    assert_eq!(cx.graph.types.dyncast_array(array), Some(s1));
    assert_eq!(cx.graph.types.infos[array.id].slots, 6);
    assert_eq!(cx.graph.types.structs[0].offsets, vec![0, 1]);
    let vector = cx.graph.new_vector_type(i32_type, 8);
    assert_eq!(cx.graph.types.dyncast_vector(vector), Some((i32_type, 8)));
    assert!(cx.graph.types.is_vector(vector));
    let fp = cx.graph.new_function_pointer_type(vec![i32_type], p);
    assert_eq!(cx.graph.types.dyncast_function_ptr_type(fp), Some(0));
    assert_eq!(cx.graph.types.dyncast_function_ptr_type(p), None);
}
