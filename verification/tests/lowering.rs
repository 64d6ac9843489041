use gcc_builder::builder::{Builder, Unsupported};
use gcc_builder::context::CodegenCx;
use gcc_builder::graph::{Block, Builtin, Case, Function, Instr, LValue, NodeKind, RValue, Scope};
use gcc_builder::layout::{Align, MemFlags};
use gcc_builder::ops::{
    AtomicOrdering, BinaryOp, ComparisonOp, IntPredicate, MemOrdering, RealPredicate, ToGccComp,
    UnaryOp,
};
use gcc_builder::types::{Type, TypeKind};

fn start_with(ret: fn(&CodegenCx) -> Type) -> (Builder, Function) {
    let mut cx = CodegenCx::new(8);
    let ret = ret(&cx);
    let f = cx.graph.new_function("f", vec![], ret);
    let entry = cx.graph.new_block(f, "entry");
    (Builder::build(cx, entry), f)
}

fn start() -> (Builder, Function) {
    start_with(|cx| cx.i32_type)
}

fn local(bx: &mut Builder, f: Function, ty: Type, name: &str) -> LValue {
    bx.cx.graph.new_local(f, ty, name)
}

fn kind(bx: &Builder, v: RValue) -> NodeKind {
    bx.cx.graph.nodes[v.id].kind
}

fn ty(bx: &Builder, v: RValue) -> Type {
    bx.cx.graph.nodes[v.id].ty
}

fn instrs(bx: &Builder, b: Block) -> Vec<Instr> {
    bx.cx.graph.blocks[b.id].instrs.clone()
}

fn var_name(bx: &Builder, v: RValue) -> String {
    match kind(bx, v) {
        NodeKind::Var { var } => bx.cx.graph.vars[var].name.clone(),
        other => panic!("no variable: {:?}", other),
    }
}

#[test]
fn add_is_one_plus_node_of_the_operand_type() {
    let (mut bx, f) = start();
    let t = bx.cx.i32_type;
    let a = local(&mut bx, f, t, "a").to_rvalue();
    let b = local(&mut bx, f, t, "b").to_rvalue();
    let before = bx.cx.graph.nodes.len();
    let r = bx.add(a, b);
    assert_eq!(r.id, before);
    assert_eq!(bx.cx.graph.nodes.len(), before + 1);
    assert_eq!(kind(&bx, r), NodeKind::Binary { op: BinaryOp::Plus, lhs: a, rhs: b });
    assert_eq!(ty(&bx, r), bx.cx.i32_type);
    assert_eq!(bx.block, Block { id: 0 });
    assert!(instrs(&bx, bx.block).is_empty());
}

#[test]
fn each_arithmetic_request_has_its_operator() {
    let (mut bx, f) = start();
    let t = bx.cx.u64_type;
    let a = local(&mut bx, f, t, "a").to_rvalue();
    let b = local(&mut bx, f, t, "b").to_rvalue();
    let op = |bx: &Builder, v: RValue| match kind(bx, v) {
        NodeKind::Binary { op, lhs, rhs } => {
            assert_eq!((lhs, rhs), (a, b));
            op
        }
        other => panic!("no operator: {:?}", other),
    };
    let r = bx.sub(a, b);
    assert_eq!(op(&bx, r), BinaryOp::Minus);
    let r = bx.mul(a, b);
    assert_eq!(op(&bx, r), BinaryOp::Mult);
    let r = bx.udiv(a, b);
    assert_eq!(op(&bx, r), BinaryOp::Divide);
    let r = bx.sdiv(a, b);
    assert_eq!(op(&bx, r), BinaryOp::Divide);
    let r = bx.exactudiv(a, b);
    assert_eq!(op(&bx, r), BinaryOp::Divide);
    let r = bx.fdiv(a, b);
    assert_eq!(op(&bx, r), BinaryOp::Divide);
    let r = bx.urem(a, b);
    assert_eq!(op(&bx, r), BinaryOp::Modulo);
    let r = bx.srem(a, b);
    assert_eq!(op(&bx, r), BinaryOp::Modulo);
    let r = bx.shl(a, b);
    assert_eq!(op(&bx, r), BinaryOp::LShift);
    let r = bx.lshr(a, b);
    assert_eq!(op(&bx, r), BinaryOp::RShift);
    let r = bx.ashr(a, b);
    assert_eq!(op(&bx, r), BinaryOp::RShift);
    let r = bx.and(a, b);
    assert_eq!(op(&bx, r), BinaryOp::BitwiseAnd);
    let r = bx.or(a, b);
    assert_eq!(op(&bx, r), BinaryOp::BitwiseOr);
    let r = bx.xor(a, b);
    assert_eq!(op(&bx, r), BinaryOp::BitwiseXor);
    let r = bx.fadd(a, b);
    assert_eq!(op(&bx, r), BinaryOp::Plus);
    let r = bx.fsub(a, b);
    assert_eq!(op(&bx, r), BinaryOp::Minus);
    let r = bx.fmul(a, b);
    assert_eq!(op(&bx, r), BinaryOp::Mult);
    let r = bx.unchecked_sadd(a, b);
    assert_eq!(op(&bx, r), BinaryOp::Plus);
    let r = bx.unchecked_uadd(a, b);
    assert_eq!(op(&bx, r), BinaryOp::Plus);
    let r = bx.unchecked_ssub(a, b);
    assert_eq!(op(&bx, r), BinaryOp::Minus);
    let r = bx.unchecked_usub(a, b);
    assert_eq!(op(&bx, r), BinaryOp::Minus);
    let r = bx.unchecked_smul(a, b);
    assert_eq!(op(&bx, r), BinaryOp::Mult);
    let r = bx.unchecked_umul(a, b);
    assert_eq!(op(&bx, r), BinaryOp::Mult);
}

#[test]
fn exact_signed_division_converts_the_divisor_to_the_signed_type() {
    let (mut bx, f) = start();
    let u32_type = bx.cx.u32_type;
    let a = local(&mut bx, f, u32_type, "a").to_rvalue();
    let b = local(&mut bx, f, u32_type, "b").to_rvalue();
    let r = bx.exactsdiv(a, b);
    let divisor = RValue { id: r.id - 1 };
    assert_eq!(kind(&bx, divisor), NodeKind::Cast { value: b });
    assert_eq!(ty(&bx, divisor), bx.cx.i32_type);
    assert_eq!(kind(&bx, r), NodeKind::Binary { op: BinaryOp::Divide, lhs: a, rhs: divisor });
    assert_eq!(ty(&bx, r), bx.cx.i32_type);
}

#[test]
fn inversion_is_logical_for_a_boolean_and_bitwise_otherwise() {
    let (mut bx, f) = start();
    let bool_type = bx.cx.bool_type;
    let i8_type = bx.cx.i8_type;
    let flag = local(&mut bx, f, bool_type, "flag").to_rvalue();
    let byte = local(&mut bx, f, i8_type, "byte").to_rvalue();
    let r = bx.not(flag);
    assert_eq!(kind(&bx, r), NodeKind::Unary { op: UnaryOp::LogicalNegate, operand: flag });
    let r = bx.not(byte);
    assert_eq!(kind(&bx, r), NodeKind::Unary { op: UnaryOp::BitwiseNegate, operand: byte });
    let r = bx.neg(byte);
    assert_eq!(kind(&bx, r), NodeKind::Unary { op: UnaryOp::Minus, operand: byte });
    let r = bx.fneg(byte);
    assert_eq!(kind(&bx, r), NodeKind::Unary { op: UnaryOp::Minus, operand: byte });
}

#[test]
fn every_coercion_has_the_type_asked_for() {
    let (mut bx, f) = start();
    let u8_type = bx.cx.u8_type;
    let ptr = bx.cx.graph.make_pointer(u8_type);
    let types = vec![
        bx.cx.i8_type,
        bx.cx.i16_type,
        bx.cx.i32_type,
        bx.cx.i64_type,
        bx.cx.i128_type,
        bx.cx.u8_type,
        bx.cx.u16_type,
        bx.cx.u32_type,
        bx.cx.u64_type,
        bx.cx.u128_type,
        bx.cx.float_type,
        bx.cx.double_type,
        ptr,
    ];
    for &from in &types {
        let v = local(&mut bx, f, from, "v").to_rvalue();
        for &to in &types {
            let r = bx.intcast(v, to, false);
            assert_eq!(ty(&bx, r), to);
            let r = bx.trunc(v, to);
            assert_eq!(ty(&bx, r), to);
            let r = bx.sext(v, to);
            assert_eq!(ty(&bx, r), to);
            let r = bx.zext(v, to);
            assert_eq!(ty(&bx, r), to);
            let r = bx.bitcast(v, to);
            assert_eq!(ty(&bx, r), to);
            let r = bx.fptoui(v, to);
            assert_eq!(ty(&bx, r), to);
            let r = bx.fptosi(v, to);
            assert_eq!(ty(&bx, r), to);
            let r = bx.uitofp(v, to);
            assert_eq!(ty(&bx, r), to);
            let r = bx.sitofp(v, to);
            assert_eq!(ty(&bx, r), to);
            let r = bx.fptrunc(v, to);
            assert_eq!(ty(&bx, r), to);
            let r = bx.fpext(v, to);
            assert_eq!(ty(&bx, r), to);
            let r = bx.ptrtoint(v, to);
            assert_eq!(ty(&bx, r), to);
            let r = bx.inttoptr(v, to);
            assert_eq!(ty(&bx, r), to);
            let from_pointer = bx.cx.graph.types.type_is_pointer(from);
            let to_pointer = bx.cx.graph.types.type_is_pointer(to);
            if !(from_pointer && !to_pointer) {
                let r = bx.pointercast(v, to);
                assert_eq!(ty(&bx, r), to);
            }
        }
    }
}

#[test]
fn a_same_type_coercion_is_still_a_value_of_that_type() {
    let (mut bx, f) = start();
    let t = bx.cx.i64_type;
    let v = local(&mut bx, f, t, "v").to_rvalue();
    let r = bx.intcast(v, t, true);
    assert_eq!(kind(&bx, r), NodeKind::Cast { value: v });
    assert_eq!(ty(&bx, r), t);
}

#[test]
fn widening_a_boolean_to_its_storage_type_returns_it() {
    let (mut bx, f) = start();
    let bool_type = bx.cx.bool_type;
    let i8_type = bx.cx.i8_type;
    let flag = local(&mut bx, f, bool_type, "flag").to_rvalue();
    let before = bx.cx.graph.nodes.len();
    assert_eq!(bx.zext(flag, i8_type), flag);
    assert_eq!(bx.from_immediate(flag), flag);
    assert_eq!(bx.cx.graph.nodes.len(), before);
    let i16_type = bx.cx.i16_type;
    let r = bx.zext(flag, i16_type);
    assert_eq!(kind(&bx, r), NodeKind::Cast { value: flag });
}

#[test]
fn sign_extension_to_a_vector_type_returns_the_value() {
    let (mut bx, f) = start();
    let i32_type = bx.cx.i32_type;
    let vector = bx.cx.graph.new_vector_type(i32_type, 4);
    let v = local(&mut bx, f, vector, "v").to_rvalue();
    let before = bx.cx.graph.nodes.len();
    assert_eq!(bx.sext(v, vector), v);
    assert_eq!(bx.cx.graph.nodes.len(), before);
}

#[test]
fn pointer_to_integer_goes_through_the_pointer_sized_integer() {
    let (mut bx, f) = start();
    let u8_type = bx.cx.u8_type;
    let ptr = bx.cx.graph.make_pointer(u8_type);
    let p = local(&mut bx, f, ptr, "p").to_rvalue();
    let u32_type = bx.cx.u32_type;
    let r = bx.ptrtoint(p, u32_type);
    let via = RValue { id: r.id - 1 };
    assert_eq!(kind(&bx, via), NodeKind::Bitcast { value: p });
    assert_eq!(ty(&bx, via), bx.cx.isize_type);
    assert_eq!(kind(&bx, r), NodeKind::Cast { value: via });
    let i = local(&mut bx, f, u32_type, "i").to_rvalue();
    let r = bx.inttoptr(i, ptr);
    let via = RValue { id: r.id - 1 };
    assert_eq!(kind(&bx, via), NodeKind::Cast { value: i });
    assert_eq!(ty(&bx, via), bx.cx.isize_type);
    assert_eq!(kind(&bx, r), NodeKind::Bitcast { value: via });
}

#[test]
fn pointercast_picks_by_what_is_a_pointer() {
    let (mut bx, f) = start();
    let u8_type = bx.cx.u8_type;
    let i32_type = bx.cx.i32_type;
    let u32_type = bx.cx.u32_type;
    let p8 = bx.cx.graph.make_pointer(u8_type);
    let p32 = bx.cx.graph.make_pointer(i32_type);
    let p = local(&mut bx, f, p8, "p").to_rvalue();
    let i = local(&mut bx, f, i32_type, "i").to_rvalue();
    let r = bx.pointercast(p, p32);
    assert_eq!(kind(&bx, r), NodeKind::Cast { value: p });
    let r = bx.pointercast(i, u32_type);
    assert_eq!(kind(&bx, r), NodeKind::Bitcast { value: i });
    let before = bx.cx.graph.nodes.len();
    let r = bx.pointercast(i, p8);
    assert_eq!(r.id, before + 2);
    assert_eq!(kind(&bx, RValue { id: before }), NodeKind::Cast { value: i });
    assert_eq!(ty(&bx, RValue { id: before }), bx.cx.isize_type);
    assert_eq!(kind(&bx, RValue { id: before + 1 }), NodeKind::Bitcast { value: RValue { id: before } });
    assert_eq!(
        bx.cx.graph.types.infos[ty(&bx, RValue { id: before + 1 }).id].kind,
        TypeKind::Pointer { pointee: i32_type }
    );
    assert_eq!(kind(&bx, r), NodeKind::Cast { value: RValue { id: before + 1 } });
    assert_eq!(ty(&bx, r), p8);
    let before = bx.cx.graph.nodes.len();
    let r = bx.pointercast(p, u32_type);
    assert_eq!(r.id, before + 1);
    assert_eq!(kind(&bx, RValue { id: before }), NodeKind::Bitcast { value: p });
    assert_eq!(ty(&bx, RValue { id: before }), bx.cx.isize_type);
    assert_eq!(kind(&bx, r), NodeKind::Cast { value: RValue { id: before } });
    assert_eq!(ty(&bx, r), u32_type);
}

#[test]
fn integer_predicates_lose_their_signedness() {
    let all = [
        (IntPredicate::IntEQ, ComparisonOp::Equals),
        (IntPredicate::IntNE, ComparisonOp::NotEquals),
        (IntPredicate::IntUGT, ComparisonOp::GreaterThan),
        (IntPredicate::IntUGE, ComparisonOp::GreaterThanEquals),
        (IntPredicate::IntULT, ComparisonOp::LessThan),
        (IntPredicate::IntULE, ComparisonOp::LessThanEquals),
        (IntPredicate::IntSGT, ComparisonOp::GreaterThan),
        (IntPredicate::IntSGE, ComparisonOp::GreaterThanEquals),
        (IntPredicate::IntSLT, ComparisonOp::LessThan),
        (IntPredicate::IntSLE, ComparisonOp::LessThanEquals),
    ];
    for (p, c) in all {
        assert_eq!(p.to_gcc_comparison(), c);
    }
}

#[test]
fn real_predicates_lose_their_ordering() {
    let all = [
        (RealPredicate::RealOEQ, ComparisonOp::Equals),
        (RealPredicate::RealOGT, ComparisonOp::GreaterThan),
        (RealPredicate::RealOGE, ComparisonOp::GreaterThanEquals),
        (RealPredicate::RealOLT, ComparisonOp::LessThan),
        (RealPredicate::RealOLE, ComparisonOp::LessThanEquals),
        (RealPredicate::RealONE, ComparisonOp::NotEquals),
        (RealPredicate::RealUEQ, ComparisonOp::Equals),
        (RealPredicate::RealUGT, ComparisonOp::GreaterThan),
        (RealPredicate::RealUGE, ComparisonOp::GreaterThanEquals),
        (RealPredicate::RealULT, ComparisonOp::LessThan),
        (RealPredicate::RealULE, ComparisonOp::LessThanEquals),
        (RealPredicate::RealUNE, ComparisonOp::NotEquals),
    ];
    for (p, c) in all {
        assert_eq!(p.to_gcc_comparison(), c);
    }
}

#[test]
fn comparisons_are_booleans() {
    let (mut bx, f) = start();
    let t = bx.cx.i32_type;
    let a = local(&mut bx, f, t, "a").to_rvalue();
    let b = local(&mut bx, f, t, "b").to_rvalue();
    let r = bx.icmp(IntPredicate::IntSLT, a, b);
    assert_eq!(kind(&bx, r), NodeKind::Comparison { op: ComparisonOp::LessThan, lhs: a, rhs: b });
    assert_eq!(ty(&bx, r), bx.cx.bool_type);
    let r = bx.fcmp(RealPredicate::RealUGE, a, b);
    assert_eq!(
        kind(&bx, r),
        NodeKind::Comparison { op: ComparisonOp::GreaterThanEquals, lhs: a, rhs: b }
    );
    assert_eq!(ty(&bx, r), bx.cx.bool_type);
}

#[test]
fn orderings_collapse_to_the_codes_of_the_builtins() {
    assert_eq!(AtomicOrdering::NotAtomic.to_gcc(), 0);
    assert_eq!(AtomicOrdering::Unordered.to_gcc(), 0);
    assert_eq!(AtomicOrdering::Monotonic.to_gcc(), 0);
    assert_eq!(AtomicOrdering::Acquire.to_gcc(), 2);
    assert_eq!(AtomicOrdering::Release.to_gcc(), 3);
    assert_eq!(AtomicOrdering::AcquireRelease.to_gcc(), 4);
    assert_eq!(AtomicOrdering::SequentiallyConsistent.to_gcc(), 5);
    assert_eq!(MemOrdering::Consume.to_code(), 1);
    assert_eq!(AtomicOrdering::Release.to_load_ordering(), AtomicOrdering::Acquire);
    assert_eq!(AtomicOrdering::AcquireRelease.to_load_ordering(), AtomicOrdering::Acquire);
    assert_eq!(
        AtomicOrdering::SequentiallyConsistent.to_load_ordering(),
        AtomicOrdering::SequentiallyConsistent
    );
    assert_eq!(AtomicOrdering::Monotonic.to_load_ordering(), AtomicOrdering::Monotonic);
}

#[test]
fn ret_closes_the_block() {
    let (mut bx, f) = start();
    let t = bx.cx.i32_type;
    let a = local(&mut bx, f, t, "a").to_rvalue();
    bx.ret(a);
    assert_eq!(instrs(&bx, bx.block), vec![Instr::Return { value: a }]);
    assert!(bx.cx.graph.is_closed(bx.block));
}

#[test]
fn ret_of_a_struct_that_is_a_pointer_returns_what_it_points_to() {
    let (mut bx, f) = start();
    let i32_type = bx.cx.i32_type;
    let s = bx.cx.graph.new_struct_type("s", vec![i32_type]);
    let ps = bx.cx.graph.make_pointer(s);
    let p = local(&mut bx, f, ps, "p").to_rvalue();
    assert!(!bx.cx.is_struct_as_pointer(p));
    bx.cx.mark_struct_as_pointer(p);
    assert!(bx.cx.is_struct_as_pointer(p));
    let before = bx.cx.graph.nodes.len();
    bx.ret(p);
    let d = RValue { id: before };
    assert_eq!(kind(&bx, d), NodeKind::Deref { ptr: p });
    assert_eq!(ty(&bx, d), s);
    assert_eq!(instrs(&bx, bx.block), vec![Instr::Return { value: d }]);
}

#[test]
fn branches_end_the_block() {
    let (mut bx, f) = start();
    let bool_type = bx.cx.bool_type;
    let c = local(&mut bx, f, bool_type, "c").to_rvalue();
    let then = bx.append_sibling_block("then");
    let other = bx.append_sibling_block("else");
    assert_eq!(bx.llbb(), Block { id: 0 });
    assert_eq!(bx.current_func(), f);
    bx.cond_br(c, then, other);
    assert_eq!(
        instrs(&bx, Block { id: 0 }),
        vec![Instr::Conditional { cond: c, on_true: then, on_false: other }]
    );
    bx.switch_to_block(then);
    bx.br(other);
    assert_eq!(instrs(&bx, then), vec![Instr::Jump { dest: other }]);
    bx.switch_to_block(other);
    bx.ret_void();
    assert_eq!(instrs(&bx, other), vec![Instr::VoidReturn]);
    assert_eq!(bx.cx.graph.blocks[then.id].name, "then");
    assert_eq!(bx.cx.graph.blocks[other.id].func, f);
}

#[test]
fn append_block_takes_the_routine_by_its_address() {
    let (mut bx, f) = start();
    let address = bx.cx.graph.function_address(f);
    let b = Builder::append_block(&mut bx.cx, address, "more");
    assert_eq!(bx.cx.graph.blocks[b.id].func, f);
    assert_eq!(bx.cx.graph.blocks[b.id].name, "more");
    assert!(instrs(&bx, b).is_empty());
}

#[test]
fn switch_keeps_one_entry_for_each_value() {
    let (mut bx, f) = start();
    let t = bx.cx.u8_type;
    let v = local(&mut bx, f, t, "v").to_rvalue();
    let one = bx.append_sibling_block("one");
    let rest = bx.append_sibling_block("rest");
    let before = bx.cx.graph.nodes.len();
    bx.switch(v, rest, vec![(1, one), (2, one), (7, rest)]);
    let c = |k: usize| RValue { id: before + k };
    assert_eq!(kind(&bx, c(0)), NodeKind::Const { bits: 1 });
    assert_eq!(kind(&bx, c(1)), NodeKind::Const { bits: 2 });
    assert_eq!(kind(&bx, c(2)), NodeKind::Const { bits: 7 });
    assert_eq!(ty(&bx, c(1)), t);
    assert_eq!(instrs(&bx, bx.block), vec![Instr::Switch { value: v, default: rest, cases: 0 }]);
    assert_eq!(
        bx.cx.graph.case_lists[0],
        vec![
            Case { low: c(0), high: c(0), target: one },
            Case { low: c(1), high: c(1), target: one },
            Case { low: c(2), high: c(2), target: rest },
        ]
    );
    assert!(bx.cx.graph.is_closed(bx.block));
}

#[test]
fn unreachable_returns_nothing_from_a_routine_that_returns_nothing() {
    let (mut bx, _) = start_with(|cx| cx.void_type);
    bx.unreachable();
    let call = RValue { id: bx.cx.graph.nodes.len() - 1 };
    match kind(&bx, call) {
        NodeKind::Call { func, args } => {
            assert_eq!(bx.cx.graph.functions[func.id].name, "__builtin_unreachable");
            assert_eq!(bx.cx.graph.functions[func.id].builtin, Some(Builtin::Unreachable));
            assert!(bx.cx.graph.lists[args].is_empty());
        }
        other => panic!("no call: {:?}", other),
    }
    assert_eq!(instrs(&bx, bx.block), vec![Instr::Eval { value: call }, Instr::VoidReturn]);
}

#[test]
fn unreachable_returns_a_local_from_a_routine_that_returns_a_value() {
    let (mut bx, _) = start();
    bx.resume(RValue { id: 0 });
    let n = bx.cx.graph.nodes.len();
    let value = RValue { id: n - 1 };
    assert_eq!(var_name(&bx, value), "unreachableReturn");
    assert_eq!(ty(&bx, value), bx.cx.i32_type);
    assert_eq!(
        instrs(&bx, bx.block),
        vec![Instr::Eval { value: RValue { id: n - 2 } }, Instr::Return { value }]
    );
}

#[test]
fn assign_appends_an_assignment() {
    let (mut bx, f) = start();
    let t = bx.cx.i32_type;
    let a = local(&mut bx, f, t, "a");
    let b = local(&mut bx, f, t, "b").to_rvalue();
    bx.assign(a, b);
    assert_eq!(instrs(&bx, bx.block), vec![Instr::Assign { target: a, value: b }]);
    assert!(!bx.cx.graph.is_closed(bx.block));
}

#[test]
fn every_block_holds_at_most_one_terminator_and_that_last() {
    let (mut bx, f) = start();
    let t = bx.cx.i32_type;
    let bool_type = bx.cx.bool_type;
    let a = local(&mut bx, f, t, "a").to_rvalue();
    let b = local(&mut bx, f, t, "b").to_rvalue();
    let c = local(&mut bx, f, bool_type, "c").to_rvalue();
    let p = bx.alloca(t, Align { bytes: 4 });
    bx.store(a, p, Align { bytes: 4 });
    let x = bx.select(c, a, b);
    let y = bx.atomic_rmw(
        gcc_builder::ops::AtomicRmwBinOp::AtomicMax,
        p,
        x,
        AtomicOrdering::SequentiallyConsistent,
    );
    let z = bx.load(t, p, Align { bytes: 4 });
    let sum = bx.add(y, z);
    bx.ret(sum);
    for block in &bx.cx.graph.blocks {
        let terminators = block
            .instrs
            .iter()
            .filter(|i| !matches!(i, Instr::Eval { .. } | Instr::Assign { .. }))
            .count();
        assert_eq!(terminators, 1, "block {}", block.name);
        assert!(!matches!(
            block.instrs.last().unwrap(),
            Instr::Eval { .. } | Instr::Assign { .. }
        ));
    }
}

#[test]
fn requests_without_a_lowering_are_refused_and_emit_nothing() {
    let (mut bx, f) = start();
    let t = bx.cx.i32_type;
    let a = local(&mut bx, f, t, "a").to_rvalue();
    let nodes = bx.cx.graph.nodes.len();
    assert_eq!(bx.extract_element(a, a), Err(Unsupported::VectorElement));
    assert_eq!(bx.vector_splat(4, a), Err(Unsupported::VectorElement));
    assert_eq!(bx.cleanup_ret(None), Err(Unsupported::Unwinding));
    assert_eq!(bx.catch_switch(None, None, &[]), Err(Unsupported::Unwinding));
    assert_eq!(bx.instrprof_increment(a, a, a, a), Err(Unsupported::InstrProf));
    assert_eq!(bx.cx.graph.nodes.len(), nodes);
    assert!(instrs(&bx, bx.block).is_empty());
}

#[test]
fn saturating_conversions_are_left_to_the_caller() {
    let (mut bx, f) = start();
    let t = bx.cx.i32_type;
    let a = local(&mut bx, f, t, "a").to_rvalue();
    let nodes = bx.cx.graph.nodes.len();
    assert_eq!(bx.fptoui_sat(a, t), None);
    assert_eq!(bx.fptosi_sat(a, t), None);
    assert_eq!(bx.cx.graph.nodes.len(), nodes);
    assert!(instrs(&bx, bx.block).is_empty());
}

#[test]
fn hooks_emit_nothing() {
    let (mut bx, f) = start();
    let t = bx.cx.i32_type;
    let a = local(&mut bx, f, t, "a").to_rvalue();
    let nodes = bx.cx.graph.nodes.len();
    bx.type_metadata(a, String::from("id"));
    bx.lifetime_start(a, gcc_builder::layout::Size { bytes: 4 });
    bx.lifetime_end(a, gcc_builder::layout::Size { bytes: 4 });
    bx.do_not_inline(a);
    bx.set_span(rustc_span::DUMMY_SP);
    bx.set_personality_fn(a);
    bx.set_invariant_load(a);
    assert_eq!(bx.cx.graph.nodes.len(), nodes);
    assert!(bx.cx.normal_function_addresses.contains(&a.id));
    let r = bx.typeid_metadata(String::from("id"));
    assert_eq!(kind(&bx, r), NodeKind::Const { bits: 0 });
    assert_eq!(ty(&bx, r), bx.cx.int_type);
}

#[test]
fn a_static_is_given_by_its_address() {
    let (mut bx, _) = start();
    let t = bx.cx.u64_type;
    let g = bx.cx.graph.new_global(t, "counter");
    let index = bx.cx.declare_static(g);
    let r = bx.get_static(index);
    assert_eq!(kind(&bx, r), NodeKind::AddressOf { lvalue: g });
    assert_eq!(bx.cx.graph.types.infos[ty(&bx, r).id].kind, TypeKind::Pointer { pointee: t });
    assert_eq!(bx.cx.graph.vars[0].scope, Scope::Global);
}

#[test]
fn memory_flags_start_empty() {
    assert_eq!(
        MemFlags::empty(),
        MemFlags { volatile: false, nontemporal: false, unaligned: false }
    );
}
