use gcc_builder::builder::Builder;
use gcc_builder::context::CodegenCx;
use gcc_builder::graph::{Block, Builtin, Function, Graph, Instr, LValue, NodeKind, RValue};
use gcc_builder::layout::{Abi, Align, Layout, OperandRef, OperandValue, PlaceRef, Primitive, Scalar, Size, WrappingRange};
use gcc_builder::ops::{
    AtomicOrdering, AtomicRmwBinOp, BinaryOp, ComparisonOp, FetchOp, IntPredicate, UnaryOp,
};
use gcc_builder::semantics::{Addr, Val};
use gcc_builder::types::{Type, TypeKind};

type Cells = Vec<Vec<Val>>;

struct Outcome {
    block: Block,
    pc: usize,
    result: Option<Val>,
}

fn num(value: i128) -> Val {
    Val::Int { value }
}

fn flag(b: bool) -> Val {
    num(if b { 1 } else { 0 })
}

fn held(s: &Cells, a: Addr) -> Val {
    match s.get(a.region).and_then(|r| r.get(a.offset)) {
        Some(v) => *v,
        None => Val::Undef,
    }
}

fn hold(s: &mut Cells, a: Addr, v: Val) {
    if let Some(cell) = s.get_mut(a.region).and_then(|r| r.get_mut(a.offset)) {
        *cell = v;
    }
}

fn held_through(s: &Cells, p: Val) -> Val {
    match p {
        Val::Ptr { addr } => held(s, addr),
        _ => Val::Undef,
    }
}

fn hold_through(s: &mut Cells, p: Val, v: Val) {
    if let Val::Ptr { addr } = p {
        hold(s, addr, v);
    }
}

fn moved(p: Val, cells: i128) -> Val {
    match p {
        Val::Ptr { addr } => {
            let to = addr.offset as i128 + cells;
            if 0 <= to && to <= usize::MAX as i128 {
                Val::Ptr { addr: Addr { region: addr.region, offset: to as usize } }
            } else {
                Val::Undef
            }
        }
        _ => Val::Undef,
    }
}

fn is_true(v: Val) -> bool {
    matches!(v, Val::Int { value } if value != 0)
}

fn wrap(bytes: u8, signed: bool, x: i128) -> Val {
    if bytes == 1 || bytes == 2 || bytes == 4 || bytes == 8 {
        let values = 1i128 << (8 * bytes as u32);
        let m = x.rem_euclid(values);
        if signed && 2 * m >= values {
            num(m - values)
        } else {
            num(m)
        }
    } else {
        Val::Undef
    }
}

fn of_type(g: &Graph, ty: Type, x: i128) -> Val {
    match g.types.shape_of(ty) {
        TypeKind::Int { bytes, signed } => wrap(bytes, signed, x),
        TypeKind::Bool => flag(x != 0),
        _ => Val::Undef,
    }
}

fn convert(g: &Graph, v: Val, to: Type) -> Val {
    match v {
        Val::Int { value } => of_type(g, to, value),
        Val::Ptr { .. } => {
            if matches!(g.types.shape_of(to), TypeKind::Pointer { .. }) {
                v
            } else {
                Val::Undef
            }
        }
        Val::Undef => Val::Undef,
    }
}

fn compare(op: ComparisonOp, a: Val, b: Val) -> Val {
    match (a, b) {
        (Val::Int { value: x }, Val::Int { value: y }) => match op {
            ComparisonOp::Equals => flag(x == y),
            ComparisonOp::NotEquals => flag(x != y),
            ComparisonOp::LessThan => flag(x < y),
            ComparisonOp::LessThanEquals => flag(x <= y),
            ComparisonOp::GreaterThan => flag(x > y),
            ComparisonOp::GreaterThanEquals => flag(x >= y),
        },
        (Val::Ptr { addr: p }, Val::Ptr { addr: q }) => match op {
            ComparisonOp::Equals => flag(p == q),
            ComparisonOp::NotEquals => flag(p != q),
            _ => Val::Undef,
        },
        _ => Val::Undef,
    }
}

fn combine(g: &Graph, op: BinaryOp, ty: Type, a: Val, b: Val) -> Val {
    match (a, b) {
        (Val::Int { value: x }, Val::Int { value: y }) => match op {
            BinaryOp::Plus => of_type(g, ty, x + y),
            BinaryOp::Minus => of_type(g, ty, x - y),
            BinaryOp::Mult => of_type(g, ty, x * y),
            BinaryOp::Divide if y != 0 => of_type(g, ty, x / y),
            BinaryOp::Modulo if y != 0 => of_type(g, ty, x % y),
            _ => Val::Undef,
        },
        _ => Val::Undef,
    }
}

fn invert(g: &Graph, op: UnaryOp, ty: Type, a: Val) -> Val {
    match a {
        Val::Int { value } => match op {
            UnaryOp::Minus => of_type(g, ty, -value),
            UnaryOp::LogicalNegate => flag(value == 0),
            UnaryOp::Abs => of_type(g, ty, value.abs()),
            UnaryOp::BitwiseNegate => Val::Undef,
        },
        _ => Val::Undef,
    }
}

fn apply(b: Builtin, args: &[Val], s: &mut Cells) -> Val {
    match b {
        Builtin::AtomicLoad { .. } if args.len() == 2 => held_through(s, args[0]),
        Builtin::AtomicStore { .. } if args.len() == 3 => {
            hold_through(s, args[0], args[1]);
            Val::Undef
        }
        Builtin::AtomicCompareExchange { .. } if args.len() == 6 => {
            let found = held_through(s, args[0]);
            if found == held_through(s, args[1]) {
                hold_through(s, args[0], args[2]);
                flag(true)
            } else {
                hold_through(s, args[1], found);
                flag(false)
            }
        }
        Builtin::AtomicFetch { op, bytes } if args.len() == 3 => {
            let found = held_through(s, args[0]);
            match (op, found, args[1]) {
                (FetchOp::Exchange, _, _) => {
                    hold_through(s, args[0], args[1]);
                    found
                }
                (FetchOp::Add, Val::Int { value: x }, Val::Int { value: y }) => {
                    hold_through(s, args[0], wrap(bytes, false, x + y));
                    found
                }
                (FetchOp::Sub, Val::Int { value: x }, Val::Int { value: y }) => {
                    hold_through(s, args[0], wrap(bytes, false, x - y));
                    found
                }
                _ => Val::Undef,
            }
        }
        _ => Val::Undef,
    }
}

fn value_of(g: &Graph, id: usize, s: &mut Cells) -> Val {
    let n = g.nodes[id];
    match n.kind {
        NodeKind::Const { bits } => of_type(g, n.ty, bits as i128),
        NodeKind::Cast { value } | NodeKind::Bitcast { value } => {
            let v = value_of(g, value.id, s);
            convert(g, v, n.ty)
        }
        NodeKind::Unary { op, operand } => {
            let v = value_of(g, operand.id, s);
            invert(g, op, n.ty, v)
        }
        NodeKind::Binary { op, lhs, rhs } => {
            let a = value_of(g, lhs.id, s);
            match op {
                BinaryOp::LogicalAnd => {
                    if is_true(a) {
                        let b = value_of(g, rhs.id, s);
                        flag(is_true(b))
                    } else {
                        flag(false)
                    }
                }
                BinaryOp::LogicalOr => {
                    if is_true(a) {
                        flag(true)
                    } else {
                        let b = value_of(g, rhs.id, s);
                        flag(is_true(b))
                    }
                }
                _ => {
                    let b = value_of(g, rhs.id, s);
                    combine(g, op, n.ty, a, b)
                }
            }
        }
        NodeKind::Comparison { op, lhs, rhs } => {
            let a = value_of(g, lhs.id, s);
            let b = value_of(g, rhs.id, s);
            compare(op, a, b)
        }
        NodeKind::Call { func, args } => {
            let mut values = Vec::new();
            for a in &g.lists[args] {
                values.push(value_of(g, a.id, s));
            }
            match g.functions[func.id].builtin {
                Some(b) => apply(b, &values, s),
                None => Val::Undef,
            }
        }
        NodeKind::AddressOf { lvalue } => place_of(g, lvalue.id, s),
        NodeKind::Var { .. }
        | NodeKind::Deref { .. }
        | NodeKind::ArrayAccess { .. }
        | NodeKind::DerefField { .. }
        | NodeKind::FieldAccess { .. } => {
            let p = place_of(g, id, s);
            held_through(s, p)
        }
        _ => Val::Undef,
    }
}

fn offset_of(g: &Graph, t: Type, field: usize) -> i128 {
    match g.types.shape_of(t) {
        TypeKind::Struct { index } => g.types.structs[index].offsets[field] as i128,
        other => panic!("no struct: {:?}", other),
    }
}

fn place_of(g: &Graph, id: usize, s: &mut Cells) -> Val {
    let n = g.nodes[id];
    match n.kind {
        NodeKind::Var { var } => Val::Ptr { addr: Addr { region: var, offset: 0 } },
        NodeKind::Deref { ptr } => value_of(g, ptr.id, s),
        NodeKind::ArrayAccess { base, index } => {
            let p = if g.types.type_is_pointer(g.nodes[base.id].ty) {
                value_of(g, base.id, s)
            } else {
                place_of(g, base.id, s)
            };
            match value_of(g, index.id, s) {
                Val::Int { value } => moved(p, value * g.types.infos[n.ty.id].slots as i128),
                _ => Val::Undef,
            }
        }
        NodeKind::DerefField { ptr, field } => {
            let p = value_of(g, ptr.id, s);
            let record = g.types.get_pointee(g.nodes[ptr.id].ty).unwrap();
            moved(p, offset_of(g, record, field))
        }
        NodeKind::FieldAccess { storage, field } => {
            let p = place_of(g, storage.id, s);
            moved(p, offset_of(g, g.nodes[storage.id].ty, field))
        }
        _ => Val::Undef,
    }
}

fn go(g: &Graph, from: Block, s: &mut Cells, jumps: usize) -> Outcome {
    let mut block = from;
    let mut left = jumps;
    loop {
        let instrs = &g.blocks[block.id].instrs;
        let mut next = None;
        for (pc, instr) in instrs.iter().enumerate() {
            let target = match *instr {
                Instr::Eval { value } => {
                    value_of(g, value.id, s);
                    continue;
                }
                Instr::Assign { target, value } => {
                    let v = value_of(g, value.id, s);
                    let p = place_of(g, target.id, s);
                    hold_through(s, p, v);
                    continue;
                }
                Instr::Return { value } => {
                    let v = value_of(g, value.id, s);
                    return Outcome { block, pc, result: Some(v) };
                }
                Instr::VoidReturn => return Outcome { block, pc, result: None },
                Instr::Jump { dest } => dest,
                Instr::Conditional { cond, on_true, on_false } => {
                    if left == 0 {
                        return Outcome { block, pc, result: None };
                    }
                    if is_true(value_of(g, cond.id, s)) {
                        on_true
                    } else {
                        on_false
                    }
                }
                Instr::Switch { value, default, cases } => {
                    if left == 0 {
                        return Outcome { block, pc, result: None };
                    }
                    let v = value_of(g, value.id, s);
                    let mut target = default;
                    for case in &g.case_lists[cases] {
                        let low = value_of(g, case.low.id, s);
                        let high = value_of(g, case.high.id, s);
                        if is_true(compare(ComparisonOp::LessThanEquals, low, v))
                            && is_true(compare(ComparisonOp::LessThanEquals, v, high))
                        {
                            target = case.target;
                            break;
                        }
                    }
                    target
                }
            };
            if left == 0 {
                return Outcome { block, pc, result: None };
            }
            next = Some(target);
            break;
        }
        match next {
            Some(target) => {
                left -= 1;
                block = target;
            }
            None => return Outcome { block, pc: instrs.len(), result: None },
        }
    }
}

fn machine() -> (Builder, Function, Block) {
    let mut cx = CodegenCx::new(8);
    let ret = cx.i32_type;
    let f = cx.graph.new_function("f", vec![], ret);
    let entry = cx.graph.new_block(f, "entry");
    (Builder::build(cx, entry), f, entry)
}

fn cells(g: &Graph) -> Cells {
    g.vars.iter().map(|v| vec![Val::Undef; g.types.infos[v.ty.id].slots]).collect()
}

fn region(g: &Graph, v: RValue) -> usize {
    match g.nodes[v.id].kind {
        NodeKind::Var { var } => var,
        other => panic!("no variable: {:?}", other),
    }
}

fn variable(bx: &mut Builder, f: Function, ty: Type, name: &str) -> LValue {
    bx.cx.graph.new_local(f, ty, name)
}

fn sum_of(a: i128, b: i128) -> Option<Val> {
    let (mut bx, f, entry) = machine();
    let i32_type = bx.cx.i32_type;
    let x = variable(&mut bx, f, i32_type, "a").to_rvalue();
    let y = variable(&mut bx, f, i32_type, "b").to_rvalue();
    let sum = bx.add(x, y);
    bx.ret(sum);
    let g = &bx.cx.graph;
    let mut s = cells(g);
    s[region(g, x)][0] = num(a);
    s[region(g, y)][0] = num(b);
    go(g, entry, &mut s, 0).result
}

#[test]
fn the_sum_of_two_locals_is_returned() {
    assert_eq!(sum_of(7, 35), Some(num(42)));
    assert_eq!(sum_of(-5, 3), Some(num(-2)));
    assert_eq!(sum_of(0, 0), Some(num(0)));
}

#[test]
fn a_sum_wraps_round_at_the_width_of_its_type() {
    assert_eq!(sum_of(2147483647, 1), Some(num(-2147483648)));
    assert_eq!(sum_of(-2147483648, -1), Some(num(2147483647)));
}

#[test]
fn arithmetic_follows_the_type_of_the_left_operand() {
    let (mut bx, f, _) = machine();
    let u8_type = bx.cx.u8_type;
    let i64_type = bx.cx.i64_type;
    let a = variable(&mut bx, f, u8_type, "a").to_rvalue();
    let b = variable(&mut bx, f, i64_type, "b").to_rvalue();
    let product = bx.mul(a, b);
    let difference = bx.sub(a, b);
    let quotient = bx.udiv(a, b);
    let rest = bx.urem(a, b);
    let negative = bx.neg(b);
    let g = &bx.cx.graph;
    let mut s = cells(g);
    s[region(g, a)][0] = num(200);
    s[region(g, b)][0] = num(3);
    assert_eq!(value_of(g, product.id, &mut s), num(600 - 512));
    assert_eq!(value_of(g, difference.id, &mut s), num(197));
    assert_eq!(value_of(g, quotient.id, &mut s), num(66));
    assert_eq!(value_of(g, rest.id, &mut s), num(2));
    assert_eq!(value_of(g, negative.id, &mut s), num(-3));
    s[region(g, b)][0] = num(201);
    assert_eq!(value_of(g, difference.id, &mut s), num(255));
}

#[test]
fn division_rounds_towards_zero() {
    let (mut bx, f, _) = machine();
    let i32_type = bx.cx.i32_type;
    let u32_type = bx.cx.u32_type;
    let a = variable(&mut bx, f, i32_type, "a").to_rvalue();
    let b = variable(&mut bx, f, u32_type, "b").to_rvalue();
    let quotient = bx.sdiv(a, b);
    let rest = bx.srem(a, b);
    let exact = bx.exactsdiv(a, b);
    let g = &bx.cx.graph;
    let mut s = cells(g);
    for (x, y, q, r) in [(-7, 2, -3, -1), (7, 2, 3, 1), (-8, 2, -4, 0), (0, 5, 0, 0)] {
        s[region(g, a)][0] = num(x);
        s[region(g, b)][0] = num(y);
        assert_eq!(value_of(g, quotient.id, &mut s), num(q));
        assert_eq!(value_of(g, rest.id, &mut s), num(r));
        assert_eq!(value_of(g, exact.id, &mut s), num(q));
    }
    s[region(g, a)][0] = num(-7);
    s[region(g, b)][0] = num(0xffff_fffe);
    assert_eq!(value_of(g, quotient.id, &mut s), num(0));
    assert_eq!(value_of(g, exact.id, &mut s), num(3));
    s[region(g, b)][0] = num(0);
    assert_eq!(value_of(g, quotient.id, &mut s), Val::Undef);
    assert_eq!(value_of(g, rest.id, &mut s), Val::Undef);
}

#[test]
fn comparisons_and_conversions_evaluate() {
    let (mut bx, f, _) = machine();
    let i32_type = bx.cx.i32_type;
    let i8_type = bx.cx.i8_type;
    let u16_type = bx.cx.u16_type;
    let bool_type = bx.cx.bool_type;
    let a = variable(&mut bx, f, i32_type, "a").to_rvalue();
    let b = variable(&mut bx, f, i32_type, "b").to_rvalue();
    let less = bx.icmp(IntPredicate::IntSLT, a, b);
    let equal = bx.icmp(IntPredicate::IntEQ, a, b);
    let at_least = bx.icmp(IntPredicate::IntUGE, a, b);
    let narrow = bx.trunc(a, i8_type);
    let unsigned = bx.intcast(a, u16_type, false);
    let truth = bx.trunc(a, bool_type);
    let untruth = bx.not(truth);
    let g = &bx.cx.graph;
    let mut s = cells(g);
    s[region(g, a)][0] = num(-2);
    s[region(g, b)][0] = num(300);
    assert_eq!(value_of(g, less.id, &mut s), num(1));
    assert_eq!(value_of(g, equal.id, &mut s), num(0));
    assert_eq!(value_of(g, at_least.id, &mut s), num(0));
    assert_eq!(value_of(g, narrow.id, &mut s), num(-2));
    assert_eq!(value_of(g, unsigned.id, &mut s), num(65534));
    assert_eq!(value_of(g, truth.id, &mut s), num(1));
    assert_eq!(value_of(g, untruth.id, &mut s), num(0));
    s[region(g, a)][0] = num(300);
    assert_eq!(value_of(g, narrow.id, &mut s), num(44));
    assert_eq!(value_of(g, equal.id, &mut s), num(1));
}

fn chosen_by(cond: i128, then_val: i128, else_val: i128) -> Val {
    let (mut bx, f, entry) = machine();
    let i32_type = bx.cx.i32_type;
    let bool_type = bx.cx.bool_type;
    let c = variable(&mut bx, f, bool_type, "c").to_rvalue();
    let a = variable(&mut bx, f, i32_type, "a").to_rvalue();
    let b = variable(&mut bx, f, i32_type, "b").to_rvalue();
    let r = bx.select(c, a, b);
    let after = bx.block;
    let g = &bx.cx.graph;
    let mut s = cells(g);
    s[region(g, c)][0] = num(cond);
    s[region(g, a)][0] = num(then_val);
    s[region(g, b)][0] = num(else_val);
    let before = s.clone();
    let out = go(g, entry, &mut s, 2);
    assert_eq!(out.block, after);
    assert_eq!(out.pc, 0);
    for k in 0..s.len() {
        if k != region(g, r) {
            assert_eq!(s[k], before[k]);
        }
    }
    s[region(g, r)][0]
}

#[test]
fn select_gives_the_value_that_the_condition_chooses() {
    assert_eq!(chosen_by(1, 11, 22), num(11));
    assert_eq!(chosen_by(0, 11, 22), num(22));
    assert_eq!(chosen_by(1, -4, -4), num(-4));
    assert_eq!(chosen_by(0, i32::MIN as i128, i32::MAX as i128), num(i32::MAX as i128));
}

#[test]
fn select_converts_the_second_value_to_the_type_of_the_first() {
    for (cond, expected) in [(1, 5), (0, 0x2345_6789)] {
        let (mut bx, f, entry) = machine();
        let i32_type = bx.cx.i32_type;
        let i64_type = bx.cx.i64_type;
        let bool_type = bx.cx.bool_type;
        let c = variable(&mut bx, f, bool_type, "c").to_rvalue();
        let a = variable(&mut bx, f, i32_type, "a").to_rvalue();
        let b = variable(&mut bx, f, i64_type, "b").to_rvalue();
        let r = bx.select(c, a, b);
        let g = &bx.cx.graph;
        let mut s = cells(g);
        s[region(g, c)][0] = num(cond);
        s[region(g, a)][0] = num(5);
        s[region(g, b)][0] = num(0x1_2345_6789);
        go(g, entry, &mut s, 2);
        assert_eq!(s[region(g, r)][0], num(expected));
    }
}

#[test]
fn select_chooses_between_pointers() {
    for cond in [0, 1] {
        let (mut bx, f, entry) = machine();
        let i32_type = bx.cx.i32_type;
        let bool_type = bx.cx.bool_type;
        let c = variable(&mut bx, f, bool_type, "c").to_rvalue();
        let a = variable(&mut bx, f, i32_type, "a");
        let b = variable(&mut bx, f, i32_type, "b");
        let pa = bx.cx.graph.get_address(a);
        let pb = bx.cx.graph.get_address(b);
        let r = bx.select(c, pa, pb);
        let g = &bx.cx.graph;
        let mut s = cells(g);
        s[region(g, c)][0] = num(cond);
        go(g, entry, &mut s, 2);
        let chosen = if cond == 1 { a } else { b };
        assert_eq!(
            s[region(g, r)][0],
            Val::Ptr { addr: Addr { region: region(g, chosen.to_rvalue()), offset: 0 } }
        );
    }
}

fn swapped(held_before: i128, wanted: i64, new: i64) -> (Val, Val, Val) {
    let (mut bx, f, entry) = machine();
    let i64_type = bx.cx.i64_type;
    let x = variable(&mut bx, f, i64_type, "x");
    let p = bx.cx.graph.get_address(x);
    let wanted = bx.cx.graph.new_rvalue_from_long(i64_type, wanted);
    let new = bx.cx.graph.new_rvalue_from_long(i64_type, new);
    let r = bx.atomic_cmpxchg(
        p,
        wanted,
        new,
        AtomicOrdering::SequentiallyConsistent,
        AtomicOrdering::SequentiallyConsistent,
        false,
    );
    let g = &bx.cx.graph;
    let mut s = cells(g);
    s[region(g, x.to_rvalue())][0] = num(held_before);
    let out = go(g, entry, &mut s, 0);
    assert_eq!(out.block, entry);
    assert_eq!(out.pc, g.blocks[entry.id].instrs.len());
    let pair = &s[region(g, r)];
    assert_eq!(pair.len(), 2);
    (s[region(g, x.to_rvalue())][0], pair[0], pair[1])
}

#[test]
fn compare_and_exchange_replaces_what_it_expected() {
    assert_eq!(swapped(10, 10, 20), (num(20), num(10), num(1)));
    assert_eq!(swapped(-1, -1, 0), (num(0), num(-1), num(1)));
}

#[test]
fn compare_and_exchange_reports_what_it_found_instead() {
    assert_eq!(swapped(20, 10, 20), (num(20), num(20), num(0)));
    assert_eq!(swapped(7, 10, 20), (num(7), num(7), num(0)));
}

#[test]
fn a_second_exchange_with_the_same_expectation_fails() {
    let (mut bx, f, entry) = machine();
    let i64_type = bx.cx.i64_type;
    let x = variable(&mut bx, f, i64_type, "x");
    let p = bx.cx.graph.get_address(x);
    let ten = bx.cx.graph.new_rvalue_from_long(i64_type, 10);
    let twenty = bx.cx.graph.new_rvalue_from_long(i64_type, 20);
    let order = AtomicOrdering::SequentiallyConsistent;
    let first = bx.atomic_cmpxchg(p, ten, twenty, order, order, false);
    let second = bx.atomic_cmpxchg(p, ten, twenty, order, order, false);
    let g = &bx.cx.graph;
    let mut s = cells(g);
    s[region(g, x.to_rvalue())][0] = num(10);
    go(g, entry, &mut s, 0);
    assert_eq!(s[region(g, x.to_rvalue())][0], num(20));
    assert_eq!(s[region(g, first)], vec![num(10), num(1)]);
    assert_eq!(s[region(g, second)], vec![num(20), num(0)]);
}

fn extremum(op: AtomicRmwBinOp, held_before: i128, operand: i128) -> (Val, Val, usize) {
    let (mut bx, f, entry) = machine();
    let i32_type = bx.cx.i32_type;
    let x = variable(&mut bx, f, i32_type, "x");
    let v = variable(&mut bx, f, i32_type, "v").to_rvalue();
    let p = bx.cx.graph.get_address(x);
    let r = bx.atomic_rmw(op, p, v, AtomicOrdering::SequentiallyConsistent);
    let after = bx.block;
    let g = &bx.cx.graph;
    let mut s = cells(g);
    s[region(g, x.to_rvalue())][0] = num(held_before);
    s[region(g, v)][0] = num(operand);
    let out = go(g, entry, &mut s, 2);
    assert_eq!(out.block, after);
    assert_eq!(out.pc, 0);
    let mut short = cells(g);
    short[region(g, x.to_rvalue())][0] = num(held_before);
    short[region(g, v)][0] = num(operand);
    let stopped = go(g, entry, &mut short, 1);
    (s[region(g, x.to_rvalue())][0], s[region(g, r)][0], stopped.block.id)
}

#[test]
fn an_uncontended_maximum_holds_the_larger_and_returns_what_was_held() {
    let (held, returned, _) = extremum(AtomicRmwBinOp::AtomicMax, 3, 9);
    assert_eq!((held, returned), (num(9), num(3)));
    let (held, returned, _) = extremum(AtomicRmwBinOp::AtomicMax, 9, 3);
    assert_eq!((held, returned), (num(9), num(9)));
    let (held, returned, _) = extremum(AtomicRmwBinOp::AtomicUMax, 4, 4);
    assert_eq!((held, returned), (num(4), num(4)));
}

#[test]
fn an_uncontended_minimum_holds_the_smaller_and_returns_what_was_held() {
    let (held, returned, _) = extremum(AtomicRmwBinOp::AtomicMin, 9, 3);
    assert_eq!((held, returned), (num(3), num(9)));
    let (held, returned, _) = extremum(AtomicRmwBinOp::AtomicMin, 3, 9);
    assert_eq!((held, returned), (num(3), num(3)));
    let (held, returned, _) = extremum(AtomicRmwBinOp::AtomicUMin, 0, 0);
    assert_eq!((held, returned), (num(0), num(0)));
}

#[test]
fn a_signed_extremum_compares_as_signed() {
    let (held, returned, _) = extremum(AtomicRmwBinOp::AtomicMax, 5, -3);
    assert_eq!((held, returned), (num(5), num(5)));
    let (held, returned, _) = extremum(AtomicRmwBinOp::AtomicMax, -5, 3);
    assert_eq!((held, returned), (num(3), num(-5)));
    let (held, returned, _) = extremum(AtomicRmwBinOp::AtomicMin, -5, 3);
    assert_eq!((held, returned), (num(-5), num(-5)));
    let (held, returned, _) = extremum(AtomicRmwBinOp::AtomicMin, 5, -3);
    assert_eq!((held, returned), (num(0xffff_fffd), num(5)));
    let (held, returned, _) = extremum(AtomicRmwBinOp::AtomicUMax, 5, 0xffff_fffd);
    assert_eq!((held, returned), (num(0xffff_fffd), num(5)));
    let (held, returned, _) = extremum(AtomicRmwBinOp::AtomicUMin, 5, 0xffff_fffd);
    assert_eq!((held, returned), (num(5), num(5)));
}

#[test]
fn read_modify_write_changes_the_cell_and_gives_what_it_held() {
    for (op, expected) in [
        (AtomicRmwBinOp::AtomicXchg, 3),
        (AtomicRmwBinOp::AtomicAdd, 13),
        (AtomicRmwBinOp::AtomicSub, 7),
    ] {
        let (mut bx, f, _) = machine();
        let u32_type = bx.cx.u32_type;
        let x = variable(&mut bx, f, u32_type, "x");
        let v = variable(&mut bx, f, u32_type, "v").to_rvalue();
        let p = bx.cx.graph.get_address(x);
        let r = bx.atomic_rmw(op, p, v, AtomicOrdering::Monotonic);
        let g = &bx.cx.graph;
        let mut s = cells(g);
        s[region(g, x.to_rvalue())][0] = num(10);
        s[region(g, v)][0] = num(3);
        assert_eq!(value_of(g, r.id, &mut s), num(10));
        assert_eq!(s[region(g, x.to_rvalue())][0], num(expected));
    }
}

#[test]
fn an_atomic_addition_wraps_round() {
    let (mut bx, f, _) = machine();
    let u8_type = bx.cx.u8_type;
    let x = variable(&mut bx, f, u8_type, "x");
    let v = variable(&mut bx, f, u8_type, "v").to_rvalue();
    let p = bx.cx.graph.get_address(x);
    let r = bx.atomic_rmw(AtomicRmwBinOp::AtomicAdd, p, v, AtomicOrdering::Monotonic);
    let g = &bx.cx.graph;
    let mut s = cells(g);
    s[region(g, x.to_rvalue())][0] = num(250);
    s[region(g, v)][0] = num(10);
    assert_eq!(value_of(g, r.id, &mut s), num(250));
    assert_eq!(s[region(g, x.to_rvalue())][0], num(4));
}

#[test]
fn an_atomic_store_is_read_by_an_atomic_load() {
    let (mut bx, f, entry) = machine();
    let i16_type = bx.cx.i16_type;
    let x = variable(&mut bx, f, i16_type, "x");
    let v = variable(&mut bx, f, i16_type, "v").to_rvalue();
    let p = bx.cx.graph.get_address(x);
    bx.atomic_store(v, p, AtomicOrdering::Release, Size { bytes: 2 });
    let r = bx.atomic_load(i16_type, p, AtomicOrdering::Acquire, Size { bytes: 2 });
    let g = &bx.cx.graph;
    let mut s = cells(g);
    s[region(g, v)][0] = num(77);
    go(g, entry, &mut s, 0);
    assert_eq!(s[region(g, x.to_rvalue())][0], num(77));
    assert_eq!(value_of(g, r.id, &mut s), num(77));
}

fn round_trip(shape: usize, idx: u64) -> (Vec<Val>, Val) {
    let (mut bx, f, entry) = machine();
    let i32_type = bx.cx.i32_type;
    let i64_type = bx.cx.i64_type;
    let ty = match shape {
        0 => bx.cx.graph.new_array_type(i32_type, 4),
        1 => bx.cx.graph.new_vector_type(i32_type, 4),
        _ => bx.cx.graph.new_struct_type("s", vec![i64_type, i32_type, i32_type, i32_type]),
    };
    let whole = variable(&mut bx, f, ty, "whole");
    let v = variable(&mut bx, f, i32_type, "v").to_rvalue();
    let p = bx.cx.graph.get_address(whole);
    let member = bx.struct_gep(ty, p, idx);
    bx.store(v, member, Align { bytes: 4 });
    let member = bx.struct_gep(ty, p, idx);
    let read = bx.load(i32_type, member, Align { bytes: 4 });
    let g = &bx.cx.graph;
    let mut s = cells(g);
    s[region(g, v)][0] = num(1234);
    for cell in s[region(g, whole.to_rvalue())].iter_mut() {
        *cell = num(0);
    }
    go(g, entry, &mut s, 0);
    (s[region(g, whole.to_rvalue())].clone(), s[region(g, read)][0])
}

#[test]
fn what_is_stored_to_a_member_is_loaded_from_it() {
    for shape in 0..3 {
        for idx in 1..4 {
            let (whole, read) = round_trip(shape, idx);
            assert_eq!(read, num(1234));
            let mut expected = vec![num(0); 4];
            expected[idx as usize] = num(1234);
            assert_eq!(whole, expected);
        }
    }
}

#[test]
fn members_of_nested_aggregates_lie_after_one_another() {
    let (mut bx, f, _) = machine();
    let i32_type = bx.cx.i32_type;
    let u64_type = bx.cx.u64_type;
    let pair = bx.cx.graph.new_struct_type("pair", vec![i32_type, i32_type]);
    let row = bx.cx.graph.new_array_type(pair, 3);
    let whole = variable(&mut bx, f, row, "whole");
    let p = bx.cx.graph.get_address(whole);
    let second = bx.struct_gep(row, p, 2);
    let field = bx.struct_gep(pair, second, 1);
    let one = bx.cx.graph.new_rvalue_from_long(u64_type, 1);
    let stepped = bx.gep(pair, second, &[one]);
    let g = &bx.cx.graph;
    let mut s = cells(g);
    let r = region(g, whole.to_rvalue());
    assert_eq!(s[r].len(), 6);
    assert_eq!(value_of(g, second.id, &mut s), Val::Ptr { addr: Addr { region: r, offset: 4 } });
    assert_eq!(value_of(g, field.id, &mut s), Val::Ptr { addr: Addr { region: r, offset: 5 } });
    assert_eq!(value_of(g, stepped.id, &mut s), Val::Ptr { addr: Addr { region: r, offset: 6 } });
}

#[test]
fn a_member_is_inserted_and_extracted_through_a_pointer() {
    let (mut bx, f, entry) = machine();
    let i32_type = bx.cx.i32_type;
    let u8_type = bx.cx.u8_type;
    let record = bx.cx.graph.new_struct_type("s", vec![u8_type, i32_type]);
    let whole = variable(&mut bx, f, record, "whole");
    let x = variable(&mut bx, f, i32_type, "x").to_rvalue();
    let p = bx.cx.graph.get_address(whole);
    bx.insert_value(p, x, 1);
    bx.insert_value(p, x, 0);
    let first = bx.extract_value(p, 0);
    let second = bx.extract_value(p, 1);
    let g = &bx.cx.graph;
    let mut s = cells(g);
    s[region(g, x)][0] = num(0x1ff);
    go(g, entry, &mut s, 0);
    assert_eq!(s[region(g, whole.to_rvalue())], vec![num(0xff), num(0x1ff)]);
    assert_eq!(value_of(g, first.id, &mut s), num(0xff));
    assert_eq!(value_of(g, second.id, &mut s), num(0x1ff));
}

#[test]
fn a_stack_slot_holds_what_is_stored_to_it() {
    let (mut bx, f, entry) = machine();
    let i64_type = bx.cx.i64_type;
    let v = variable(&mut bx, f, i64_type, "v").to_rvalue();
    let slot = bx.alloca(i64_type, Align { bytes: 8 });
    bx.store(v, slot, Align { bytes: 8 });
    let read = bx.load(i64_type, slot, Align { bytes: 8 });
    let volatile = bx.volatile_load(i64_type, slot);
    bx.ret(read);
    let g = &bx.cx.graph;
    let mut s = cells(g);
    s[region(g, v)][0] = num(-99);
    let out = go(g, entry, &mut s, 0);
    assert_eq!(out.result, Some(num(-99)));
    assert_eq!(value_of(g, volatile.id, &mut s), num(-99));
}

#[test]
fn a_switch_goes_to_the_block_of_the_value() {
    for (value, expected) in [(1, 10), (5, 50), (7, 70), (2, 0), (-1, 0)] {
        let (mut bx, f, entry) = machine();
        let i32_type = bx.cx.i32_type;
        let v = variable(&mut bx, f, i32_type, "v").to_rvalue();
        let out = variable(&mut bx, f, i32_type, "out");
        let default = bx.append_sibling_block("default");
        let mut cases = Vec::new();
        let mut blocks = vec![(default, 0)];
        for k in [1u128, 5, 7] {
            let b = bx.append_sibling_block("case");
            cases.push((k, b));
            blocks.push((b, 10 * k as i64));
        }
        let end = bx.append_sibling_block("end");
        bx.switch(v, default, cases);
        for (b, n) in blocks {
            bx.switch_to_block(b);
            let c = bx.cx.graph.new_rvalue_from_long(i32_type, n);
            bx.assign(out, c);
            bx.br(end);
        }
        let g = &bx.cx.graph;
        let mut s = cells(g);
        s[region(g, v)][0] = num(value);
        let stop = go(g, entry, &mut s, 5);
        assert_eq!(stop.block, end);
        assert_eq!(s[region(g, out.to_rvalue())][0], num(expected));
    }
}

#[test]
fn a_conditional_branch_takes_the_side_of_its_condition() {
    for (a, b, expected) in [(1, 2, 1), (2, 1, 0), (2, 2, 0)] {
        let (mut bx, f, entry) = machine();
        let i32_type = bx.cx.i32_type;
        let x = variable(&mut bx, f, i32_type, "x").to_rvalue();
        let y = variable(&mut bx, f, i32_type, "y").to_rvalue();
        let yes = bx.append_sibling_block("yes");
        let no = bx.append_sibling_block("no");
        let less = bx.icmp(IntPredicate::IntULT, x, y);
        bx.cond_br(less, yes, no);
        bx.switch_to_block(yes);
        let one = bx.cx.graph.new_rvalue_from_long(i32_type, 1);
        bx.ret(one);
        bx.switch_to_block(no);
        let zero = bx.cx.graph.new_rvalue_from_long(i32_type, 0);
        bx.ret(zero);
        let g = &bx.cx.graph;
        let mut s = cells(g);
        s[region(g, x)][0] = num(a);
        s[region(g, y)][0] = num(b);
        assert_eq!(go(g, entry, &mut s, 1).result, Some(num(expected)));
        let held_back = go(g, entry, &mut s, 0);
        assert_eq!((held_back.block, held_back.pc, held_back.result), (entry, 0, None));
    }
}

#[test]
fn a_repeated_write_fills_every_element() {
    for count in [0u64, 1, 3] {
        let (mut bx, f, entry) = machine();
        let i32_type = bx.cx.i32_type;
        let array = bx.cx.graph.new_array_type(i32_type, 3);
        let whole = variable(&mut bx, f, array, "whole");
        let v = variable(&mut bx, f, i32_type, "v").to_rvalue();
        let dest = bx.cx.graph.get_address(whole);
        let layout = Layout {
            abi: Abi::Scalar {
                scalar: Scalar {
                    value: Primitive::Int { bytes: 4, signed: true },
                    valid_range: WrappingRange { start: 0, end: 0xffff_ffff },
                    size: Size { bytes: 4 },
                    align: Align { bytes: 4 },
                },
            },
            size: Size { bytes: 4 },
            gcc_type: i32_type,
        };
        bx.write_operand_repeatedly(
            OperandRef { val: OperandValue::Immediate { value: v }, layout },
            count,
            PlaceRef { llval: dest, llextra: None, layout, align: Align { bytes: 4 } },
        );
        let next = bx.block;
        let g = &bx.cx.graph;
        let mut s = cells(g);
        s[region(g, v)][0] = num(9);
        for cell in s[region(g, whole.to_rvalue())].iter_mut() {
            *cell = num(0);
        }
        let out = go(g, entry, &mut s, 20);
        assert_eq!(out.block, next);
        let mut expected = vec![num(0); 3];
        for k in 0..count as usize {
            expected[k] = num(9);
        }
        assert_eq!(s[region(g, whole.to_rvalue())], expected);
    }
}

#[test]
fn a_repeated_write_of_a_pair_fills_both_fields_of_every_element() {
    let (mut bx, f, entry) = machine();
    let i32_type = bx.cx.i32_type;
    let u8_type = bx.cx.u8_type;
    let pair = bx.cx.graph.new_struct_type("pair", vec![u8_type, i32_type]);
    let array = bx.cx.graph.new_array_type(pair, 2);
    let whole = variable(&mut bx, f, array, "whole");
    let a = variable(&mut bx, f, u8_type, "a").to_rvalue();
    let b = variable(&mut bx, f, i32_type, "b").to_rvalue();
    let dest = bx.cx.graph.get_address(whole);
    let scalar = |bytes: u8| Scalar {
        value: Primitive::Int { bytes, signed: false },
        valid_range: WrappingRange { start: 0, end: 0xff },
        size: Size { bytes: bytes as u64 },
        align: Align { bytes: bytes as u64 },
    };
    let layout = Layout {
        abi: Abi::ScalarPair { first: scalar(1), second: scalar(4) },
        size: Size { bytes: 8 },
        gcc_type: pair,
    };
    bx.write_operand_repeatedly(
        OperandRef { val: OperandValue::Pair { first: a, second: b }, layout },
        2,
        PlaceRef { llval: dest, llextra: None, layout, align: Align { bytes: 8 } },
    );
    let next = bx.block;
    let body = instrs_of(&bx, Block { id: next.id - 1 });
    assert_eq!(body.len(), 4);
    let g = &bx.cx.graph;
    let mut s = cells(g);
    s[region(g, a)][0] = num(7);
    s[region(g, b)][0] = num(-9);
    for cell in s[region(g, whole.to_rvalue())].iter_mut() {
        *cell = num(0);
    }
    let out = go(g, entry, &mut s, 20);
    assert_eq!(out.block, next);
    assert_eq!(s[region(g, whole.to_rvalue())], vec![num(7), num(-9), num(7), num(-9)]);
}

#[test]
fn an_operand_is_stored_as_it_is_held() {
    let (mut bx, f, entry) = machine();
    let i32_type = bx.cx.i32_type;
    let pair = bx.cx.graph.new_struct_type("pair", vec![i32_type, i32_type]);
    let whole = variable(&mut bx, f, pair, "whole");
    let other = variable(&mut bx, f, pair, "other");
    let single = variable(&mut bx, f, i32_type, "single");
    let a = variable(&mut bx, f, i32_type, "a").to_rvalue();
    let b = variable(&mut bx, f, i32_type, "b").to_rvalue();
    let p = bx.cx.graph.get_address(whole);
    let q = bx.cx.graph.get_address(other);
    let r = bx.cx.graph.get_address(single);
    let scalar = Scalar {
        value: Primitive::Int { bytes: 4, signed: true },
        valid_range: WrappingRange { start: 0, end: 0xffff_ffff },
        size: Size { bytes: 4 },
        align: Align { bytes: 4 },
    };
    let two = Layout {
        abi: Abi::ScalarPair { first: scalar, second: scalar },
        size: Size { bytes: 8 },
        gcc_type: pair,
    };
    let one = Layout { abi: Abi::Scalar { scalar }, size: Size { bytes: 4 }, gcc_type: i32_type };
    let at = |llval, layout| PlaceRef { llval, llextra: None, layout, align: Align { bytes: 8 } };

    let nodes = bx.cx.graph.nodes.len();
    bx.store_operand(OperandValue::ZeroSized, at(p, two));
    assert_eq!(bx.cx.graph.nodes.len(), nodes);
    assert!(instrs_of(&bx, entry).is_empty());

    bx.store_operand(OperandValue::Immediate { value: a }, at(r, one));
    assert_eq!(instrs_of(&bx, entry).len(), 1);
    bx.store_operand(OperandValue::Pair { first: a, second: b }, at(p, two));
    assert_eq!(instrs_of(&bx, entry).len(), 3);

    let n = bx.cx.graph.nodes.len();
    bx.store_operand(
        OperandValue::Ref { ptr: p, extra: None, align: Align { bytes: 8 } },
        at(q, two),
    );
    assert_eq!(bx.cx.graph.nodes[n].kind, NodeKind::Const { bits: 8 });
    assert_eq!(bx.cx.graph.nodes[n].ty, bx.cx.usize_type);
    let last = bx.cx.graph.nodes.len() - 1;
    match bx.cx.graph.nodes[last].kind {
        NodeKind::Call { func, args } => {
            assert_eq!(bx.cx.graph.functions[func.id].name, "memcpy");
            assert_eq!(bx.cx.graph.lists[args].len(), 3);
            assert_eq!(
                bx.cx.graph.nodes[bx.cx.graph.lists[args][2].id].kind,
                NodeKind::Cast { value: RValue { id: n } }
            );
        }
        other => panic!("no call: {:?}", other),
    }
    assert_eq!(instrs_of(&bx, entry)[3], Instr::Eval { value: RValue { id: last } });
    let empty = Layout { abi: Abi::Aggregate { sized: true }, size: Size { bytes: 0 }, gcc_type: pair };
    let n = bx.cx.graph.nodes.len();
    bx.store_operand(
        OperandValue::Ref { ptr: p, extra: None, align: Align { bytes: 8 } },
        at(q, empty),
    );
    assert_eq!(bx.cx.graph.nodes.len(), n);

    let g = &bx.cx.graph;
    let mut s = cells(g);
    s[region(g, a)][0] = num(11);
    s[region(g, b)][0] = num(22);
    go(g, entry, &mut s, 0);
    assert_eq!(s[region(g, single.to_rvalue())], vec![num(11)]);
    assert_eq!(s[region(g, whole.to_rvalue())], vec![num(11), num(22)]);
}

fn instrs_of(bx: &Builder, b: Block) -> Vec<Instr> {
    bx.cx.graph.blocks[b.id].instrs.clone()
}

#[test]
fn nothing_is_known_of_what_a_routine_of_the_program_returns() {
    let (mut bx, f, entry) = machine();
    let i32_type = bx.cx.i32_type;
    let callee = bx.cx.graph.new_function("g", vec![i32_type], i32_type);
    bx.cx.register_function(callee);
    let address = bx.cx.graph.function_address(callee);
    let a = variable(&mut bx, f, i32_type, "a").to_rvalue();
    let r = bx.call(i32_type, address, &[a]);
    let doubled = bx.add(r, r);
    let g = &bx.cx.graph;
    let mut s = cells(g);
    s[region(g, a)][0] = num(1);
    s[region(g, r)][0] = num(5);
    assert_eq!(value_of(g, doubled.id, &mut s), num(10));
    go(g, entry, &mut s, 0);
    assert_eq!(s[region(g, r)][0], Val::Undef);
    assert_eq!(s[region(g, a)][0], num(1));
}
