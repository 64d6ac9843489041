//! What a program graph computes: a reference semantics of nodes,
//! instructions and blocks over a memory of cells. It covers integers of
//! up to eight bytes, booleans, pointers, variables, members of arrays
//! and structs, and the atomic builtins; anything else evaluates to a
//! value of which nothing is known.

use vstd::prelude::*;
use crate::graph::{Block, Builtin, Case, Graph, Instr, NodeKind, RValue};
use crate::layout::values_of;
use crate::ops::{BinaryOp, ComparisonOp, FetchOp, UnaryOp};
use crate::types::{Type, TypeKind, TypeTable};

verus! {

/// A cell of memory: cell `offset` of the region `region`. Every variable
/// has a region of its own, whose number is that of the variable.
#[derive(Clone, Copy, PartialEq, Eq, Structural, Debug)]
pub struct Addr {
    pub region: usize,
    pub offset: usize,
}

/// A value: an integer, a pointer, or a value of which nothing is known.
#[derive(Clone, Copy, PartialEq, Eq, Structural, Debug)]
pub enum Val {
    Undef,
    Int { value: i128 },
    Ptr { addr: Addr },
}

/// The cells of each region.
pub type Memory = Seq<Seq<Val>>;

/// Where evaluation stands: in the block `block`, before the instruction
/// `pc`, with the memory `memory`.
pub struct Config {
    pub block: Block,
    pub pc: int,
    pub memory: Memory,
}

pub open spec fn in_memory(s: Memory, a: Addr) -> bool {
    a.region < s.len() && a.offset < s[a.region as int].len()
}

/// What the cell `a` holds; nothing is known of a cell that does not exist.
pub open spec fn fetch(s: Memory, a: Addr) -> Val {
    if in_memory(s, a) {
        s[a.region as int][a.offset as int]
    } else {
        Val::Undef
    }
}

/// The memory after `v` was written to the cell `a`; a write to a cell
/// that does not exist changes nothing.
pub open spec fn put(s: Memory, a: Addr, v: Val) -> Memory {
    if in_memory(s, a) {
        s.update(a.region as int, s[a.region as int].update(a.offset as int, v))
    } else {
        s
    }
}

pub open spec fn fetch_through(s: Memory, p: Val) -> Val {
    match p {
        Val::Ptr { addr } => fetch(s, addr),
        _ => Val::Undef,
    }
}

pub open spec fn put_through(s: Memory, p: Val, v: Val) -> Memory {
    match p {
        Val::Ptr { addr } => put(s, addr, v),
        _ => s,
    }
}

/// The address `cells` cells after the one `p` points to.
pub open spec fn advanced(p: Val, cells: int) -> Val {
    match p {
        Val::Ptr { addr } => if 0 <= addr.offset + cells <= usize::MAX {
            Val::Ptr { addr: Addr { region: addr.region, offset: (addr.offset + cells) as usize } }
        } else {
            Val::Undef
        },
        _ => Val::Undef,
    }
}

/// Whether a value counts as true: an integer other than zero.
pub open spec fn truthy(v: Val) -> bool {
    v matches Val::Int { value } && value != 0
}

pub open spec fn flag(b: bool) -> Val {
    Val::Int {
        value: if b {
            1
        } else {
            0
        },
    }
}

/// The integer `x` as a value of the integer type of `bytes` bytes: it
/// wraps round. Widths over eight bytes are not covered.
pub open spec fn wrapped(bytes: u8, signed: bool, x: int) -> Val {
    if bytes == 1 || bytes == 2 || bytes == 4 || bytes == 8 {
        let m = x % values_of(bytes as int);
        if signed && 2 * m >= values_of(bytes as int) {
            Val::Int { value: (m - values_of(bytes as int)) as i128 }
        } else {
            Val::Int { value: m as i128 }
        }
    } else {
        Val::Undef
    }
}

/// The integer `x` as a value of the type `ty`.
pub open spec fn sized(types: &TypeTable, ty: Type, x: int) -> Val {
    match types.shape(ty) {
        TypeKind::Int { bytes, signed } => wrapped(bytes, signed, x),
        TypeKind::Bool => flag(x != 0),
        _ => Val::Undef,
    }
}

/// The value `v` converted to the type `to`: an integer wraps round, a
/// pointer stays what it is where `to` is a pointer type.
pub open spec fn converted(types: &TypeTable, v: Val, to: Type) -> Val {
    match v {
        Val::Int { value } => sized(types, to, value as int),
        Val::Ptr { addr } => if types.shape(to) is Pointer {
            v
        } else {
            Val::Undef
        },
        Val::Undef => Val::Undef,
    }
}

/// The comparison `op` of two values: of two integers, or of two
/// pointers for equality.
pub open spec fn compared(op: ComparisonOp, a: Val, b: Val) -> Val {
    match (a, b) {
        (Val::Int { value: x }, Val::Int { value: y }) => match op {
            ComparisonOp::Equals => flag(x == y),
            ComparisonOp::NotEquals => flag(x != y),
            ComparisonOp::LessThan => flag(x < y),
            ComparisonOp::LessThanEquals => flag(x <= y),
            ComparisonOp::GreaterThan => flag(x > y),
            ComparisonOp::GreaterThanEquals => flag(x >= y),
        },
        (Val::Ptr { addr: p }, Val::Ptr { addr: q }) => match op {
            ComparisonOp::Equals => flag(p == q),
            ComparisonOp::NotEquals => flag(p != q),
            _ => Val::Undef,
        },
        _ => Val::Undef,
    }
}

/// The quotient of `x` by `y`, which is not zero, rounded towards zero.
pub open spec fn quotient(x: int, y: int) -> int {
    if x >= 0 && y > 0 {
        x / y
    } else if x < 0 && y > 0 {
        -((-x) / y)
    } else if x >= 0 {
        -(x / (-y))
    } else {
        (-x) / (-y)
    }
}

/// The operator `op` on two integers, as a value of the type `ty`.
/// Division rounds towards zero, and the remainder is what it leaves; by
/// zero there is none. The bitwise operators and the shifts are not
/// covered. The logical operators are not handled here: they do not
/// always evaluate both operands.
pub open spec fn combined(types: &TypeTable, op: BinaryOp, ty: Type, a: Val, b: Val) -> Val {
    match (a, b) {
        (Val::Int { value: x }, Val::Int { value: y }) => match op {
            BinaryOp::Plus => sized(types, ty, x + y),
            BinaryOp::Minus => sized(types, ty, x - y),
            BinaryOp::Mult => sized(types, ty, x * y),
            BinaryOp::Divide => if y != 0 {
                sized(types, ty, quotient(x as int, y as int))
            } else {
                Val::Undef
            },
            BinaryOp::Modulo => if y != 0 {
                sized(types, ty, x - y * quotient(x as int, y as int))
            } else {
                Val::Undef
            },
            _ => Val::Undef,
        },
        _ => Val::Undef,
    }
}

/// The operator `op` on one value, as a value of the type `ty`.
pub open spec fn inverted(types: &TypeTable, op: UnaryOp, ty: Type, a: Val) -> Val {
    match a {
        Val::Int { value } => match op {
            UnaryOp::Minus => sized(types, ty, -value),
            UnaryOp::LogicalNegate => flag(value == 0),
            UnaryOp::Abs => sized(
                types,
                ty,
                if value < 0 {
                    -value
                } else {
                    value as int
                },
            ),
            UnaryOp::BitwiseNegate => Val::Undef,
        },
        _ => Val::Undef,
    }
}

/// What the builtin `b` does on the arguments `args` in the memory `s`:
/// the value of the call and the memory after it. The atomic loads,
/// stores, exchanges, additions and subtractions and the
/// compare-and-exchange are covered, as one thread performs them.
pub open spec fn applied(b: Builtin, args: Seq<Val>, s: Memory) -> (Val, Memory) {
    match b {
        Builtin::AtomicLoad { .. } => if args.len() == 2 {
            (fetch_through(s, args[0]), s)
        } else {
            (Val::Undef, s)
        },
        Builtin::AtomicStore { .. } => if args.len() == 3 {
            (Val::Undef, put_through(s, args[0], args[1]))
        } else {
            (Val::Undef, s)
        },
        Builtin::AtomicCompareExchange { .. } => if args.len() == 6 {
            let found = fetch_through(s, args[0]);
            if found == fetch_through(s, args[1]) {
                (flag(true), put_through(s, args[0], args[2]))
            } else {
                (flag(false), put_through(s, args[1], found))
            }
        } else {
            (Val::Undef, s)
        },
        Builtin::AtomicFetch { op, bytes } => if args.len() == 3 {
            let found = fetch_through(s, args[0]);
            match op {
                FetchOp::Exchange => (found, put_through(s, args[0], args[1])),
                FetchOp::Add => match (found, args[1]) {
                    (Val::Int { value: x }, Val::Int { value: y }) => (
                        found,
                        put_through(s, args[0], wrapped(bytes, false, x + y)),
                    ),
                    _ => (Val::Undef, s),
                },
                FetchOp::Sub => match (found, args[1]) {
                    (Val::Int { value: x }, Val::Int { value: y }) => (
                        found,
                        put_through(s, args[0], wrapped(bytes, false, x - y)),
                    ),
                    _ => (Val::Undef, s),
                },
                _ => (Val::Undef, s),
            }
        } else {
            (Val::Undef, s)
        },
        _ => (Val::Undef, s),
    }
}

impl Graph {
    /// Cells between one element of the type `t` and the next.
    pub open spec fn stride(&self, t: Type) -> int {
        self.types.slots(t)
    }

    /// Cells from the start of a struct of type `t` to its field `field`.
    pub open spec fn field_offset(&self, t: Type, field: usize) -> int {
        self.types.structs@[self.types.shape(t)->Struct_index as int].offsets@[field as int] as int
    }

    /// The value of the node `id` in the memory `s`, and the memory after
    /// its evaluation. Storage evaluates to what it holds.
    #[verifier::opaque]
    pub open spec fn eval(&self, id: int, s: Memory) -> (Val, Memory)
        decreases id, 1int, 0int,
    {
        if id < 0 || id >= self.nodes@.len() || !self.nodes@[id].kind.operands_below(id) {
            (Val::Undef, s)
        } else {
            let node = self.nodes@[id];
            match node.kind {
                NodeKind::Const { bits } => (sized(&self.types, node.ty, bits as int), s),
                NodeKind::Cast { value } => {
                    let (v, s1) = self.eval(value.id as int, s);
                    (converted(&self.types, v, node.ty), s1)
                },
                NodeKind::Bitcast { value } => {
                    let (v, s1) = self.eval(value.id as int, s);
                    (converted(&self.types, v, node.ty), s1)
                },
                NodeKind::Unary { op, operand } => {
                    let (v, s1) = self.eval(operand.id as int, s);
                    (inverted(&self.types, op, node.ty, v), s1)
                },
                NodeKind::Binary { op, lhs, rhs } => {
                    let (a, s1) = self.eval(lhs.id as int, s);
                    match op {
                        BinaryOp::LogicalAnd => if truthy(a) {
                            let (b, s2) = self.eval(rhs.id as int, s1);
                            (flag(truthy(b)), s2)
                        } else {
                            (flag(false), s1)
                        },
                        BinaryOp::LogicalOr => if truthy(a) {
                            (flag(true), s1)
                        } else {
                            let (b, s2) = self.eval(rhs.id as int, s1);
                            (flag(truthy(b)), s2)
                        },
                        _ => {
                            let (b, s2) = self.eval(rhs.id as int, s1);
                            (combined(&self.types, op, node.ty, a, b), s2)
                        },
                    }
                },
                NodeKind::Comparison { op, lhs, rhs } => {
                    let (a, s1) = self.eval(lhs.id as int, s);
                    let (b, s2) = self.eval(rhs.id as int, s1);
                    (compared(op, a, b), s2)
                },
                NodeKind::Call { func, args } => if args < self.lists@.len() && func.id
                    < self.functions@.len() {
                    let list = self.lists@[args as int]@;
                    let (values, s1) = self.eval_list(list, list.len() as int, id, s);
                    match self.functions@[func.id as int].builtin {
                        Some(b) => applied(b, values, s1),
                        None => (Val::Undef, s1),
                    }
                } else {
                    (Val::Undef, s)
                },
                NodeKind::AddressOf { lvalue } => self.place(lvalue.id as int, s),
                NodeKind::Var { .. } => {
                    let (p, s1) = self.place(id, s);
                    (fetch_through(s1, p), s1)
                },
                NodeKind::Deref { .. } => {
                    let (p, s1) = self.place(id, s);
                    (fetch_through(s1, p), s1)
                },
                NodeKind::ArrayAccess { .. } => {
                    let (p, s1) = self.place(id, s);
                    (fetch_through(s1, p), s1)
                },
                NodeKind::DerefField { .. } => {
                    let (p, s1) = self.place(id, s);
                    (fetch_through(s1, p), s1)
                },
                NodeKind::FieldAccess { .. } => {
                    let (p, s1) = self.place(id, s);
                    (fetch_through(s1, p), s1)
                },
                _ => (Val::Undef, s),
            }
        }
    }

    /// The values of the first `n` nodes of `list`, evaluated in order,
    /// and the memory after them. The nodes are earlier than `bound`.
    #[verifier::opaque]
    pub open spec fn eval_list(&self, list: Seq<RValue>, n: int, bound: int, s: Memory) -> (
        Seq<Val>,
        Memory,
    )
        decreases bound, 0int, n,
    {
        if n <= 0 || n > list.len() {
            (Seq::<Val>::empty(), s)
        } else {
            let (values, s1) = self.eval_list(list, n - 1, bound, s);
            if list[n - 1].id < bound {
                let (v, s2) = self.eval(list[n - 1].id as int, s1);
                (values.push(v), s2)
            } else {
                (values.push(Val::Undef), s1)
            }
        }
    }

    /// The address of the storage that the node `id` denotes, as a
    /// pointer, and the memory after its evaluation.
    #[verifier::opaque]
    pub open spec fn place(&self, id: int, s: Memory) -> (Val, Memory)
        decreases id, 0int, 0int,
    {
        if id < 0 || id >= self.nodes@.len() || !self.nodes@[id].kind.operands_below(id) {
            (Val::Undef, s)
        } else {
            let node = self.nodes@[id];
            match node.kind {
                NodeKind::Var { var } => (Val::Ptr { addr: Addr { region: var, offset: 0 } }, s),
                NodeKind::Deref { ptr } => self.eval(ptr.id as int, s),
                NodeKind::ArrayAccess { base, index } => {
                    let base_type = self.nodes@[base.id as int].ty;
                    let (p, s1) = if self.types.is_pointer(base_type) {
                        self.eval(base.id as int, s)
                    } else {
                        self.place(base.id as int, s)
                    };
                    let (i, s2) = self.eval(index.id as int, s1);
                    match i {
                        Val::Int { value } => (advanced(p, value * self.stride(node.ty)), s2),
                        _ => (Val::Undef, s2),
                    }
                },
                NodeKind::DerefField { ptr, field } => {
                    let (p, s1) = self.eval(ptr.id as int, s);
                    (
                        advanced(
                            p,
                            self.field_offset(
                                self.types.pointee(self.nodes@[ptr.id as int].ty),
                                field,
                            ),
                        ),
                        s1,
                    )
                },
                NodeKind::FieldAccess { storage, field } => {
                    let (p, s1) = self.place(storage.id as int, s);
                    (advanced(p, self.field_offset(self.nodes@[storage.id as int].ty, field)), s1)
                },
                _ => (Val::Undef, s),
            }
        }
    }

    /// The memory after the instruction `instr`, which ends no block. An
    /// assignment evaluates the value first, then where it goes.
    pub open spec fn step(&self, instr: Instr, s: Memory) -> Memory {
        match instr {
            Instr::Eval { value } => self.eval(value.id as int, s).1,
            Instr::Assign { target, value } => {
                let (v, s1) = self.eval(value.id as int, s);
                let (p, s2) = self.place(target.id as int, s1);
                put_through(s2, p, v)
            },
            _ => s,
        }
    }

    /// The target among the first `n` of `cases` that takes the value
    /// `v`: that of the first case whose bounds hold it.
    pub open spec fn chosen(&self, cases: Seq<Case>, n: int, v: Val, s: Memory) -> Option<Block>
        decreases cases.len() - n,
    {
        if n < 0 || n >= cases.len() {
            None
        } else {
            let low = self.eval(cases[n].low.id as int, s).0;
            let high = self.eval(cases[n].high.id as int, s).0;
            if truthy(compared(ComparisonOp::LessThanEquals, low, v)) && truthy(
                compared(ComparisonOp::LessThanEquals, v, high),
            ) {
                Some(cases[n].target)
            } else {
                self.chosen(cases, n + 1, v, s)
            }
        }
    }

    /// Where the terminator `instr` goes on, if it does, and the memory
    /// after it.
    pub open spec fn successor(&self, instr: Instr, s: Memory) -> (Option<Block>, Memory) {
        match instr {
            Instr::Jump { dest } => (Some(dest), s),
            Instr::Conditional { cond, on_true, on_false } => {
                let (c, s1) = self.eval(cond.id as int, s);
                (
                    Some(
                        if truthy(c) {
                            on_true
                        } else {
                            on_false
                        },
                    ),
                    s1,
                )
            },
            Instr::Switch { value, default, cases } => {
                let (v, s1) = self.eval(value.id as int, s);
                if cases < self.case_lists@.len() {
                    match self.chosen(self.case_lists@[cases as int]@, 0, v, s1) {
                        Some(target) => (Some(target), s1),
                        None => (Some(default), s1),
                    }
                } else {
                    (Some(default), s1)
                }
            },
            Instr::Return { value } => (None, self.eval(value.id as int, s).1),
            _ => (None, s),
        }
    }

    /// Where a run from the instruction `pc` of the block `block` stands
    /// when it has gone from block to block at most `jumps` times: at the
    /// end of a block that has no terminator yet, at a return, or before
    /// the jump it may not take any more.
    #[verifier::opaque]
    pub open spec fn run(&self, block: Block, pc: int, s: Memory, jumps: nat) -> Config
        decreases jumps, self.instrs(block).len() - pc,
    {
        let instrs = self.instrs(block);
        if pc < 0 || pc >= instrs.len() || block.id >= self.blocks@.len() {
            Config { block, pc, memory: s }
        } else if !instrs[pc].is_terminator() {
            self.run(block, pc + 1, self.step(instrs[pc], s), jumps)
        } else {
            match self.successor(instrs[pc], s) {
                (Some(next), s1) => if jumps == 0 {
                    Config { block, pc, memory: s }
                } else {
                    self.run(next, 0, s1, (jumps - 1) as nat)
                },
                (None, s1) => Config { block, pc, memory: s1 },
            }
        }
    }
}

impl Graph {
    /// The node `id` is one of the graph whose operands are earlier nodes.
    pub open spec fn sound_node(&self, id: int) -> bool {
        0 <= id < self.nodes@.len() && self.nodes@[id].kind.operands_below(id)
    }

    /// A variable is at the first cell of its region, and evaluates to
    /// what that cell holds.
    pub proof fn lemma_variable(&self, id: int, s: Memory)
        requires
            self.sound_node(id),
            self.nodes@[id].kind is Var,
        ensures
            self.place(id, s) == (
                Val::Ptr { addr: Addr { region: self.nodes@[id].kind->var, offset: 0 } },
                s,
            ),
            self.eval(id, s) == (
                fetch(s, Addr { region: self.nodes@[id].kind->var, offset: 0 }),
                s,
            ),
    {
        reveal_with_fuel(Graph::eval, 2);
        reveal_with_fuel(Graph::place, 2);
        reveal_with_fuel(Graph::eval_list, 2);
    }

    /// A constant evaluates to its bits, read as a value of its type.
    pub proof fn lemma_constant(&self, id: int, s: Memory)
        requires
            self.sound_node(id),
            self.nodes@[id].kind is Const,
        ensures
            self.eval(id, s) == (
                sized(&self.types, self.nodes@[id].ty, self.nodes@[id].kind->bits as int),
                s,
            ),
    {
        reveal_with_fuel(Graph::eval, 2);
        reveal_with_fuel(Graph::place, 2);
        reveal_with_fuel(Graph::eval_list, 2);
    }

    /// A conversion evaluates to the converted value of its operand.
    pub proof fn lemma_conversion(&self, id: int, s: Memory)
        requires
            self.sound_node(id),
            self.nodes@[id].kind is Cast || self.nodes@[id].kind is Bitcast,
        ensures
            ({
                let value = match self.nodes@[id].kind {
                    NodeKind::Cast { value } => value,
                    NodeKind::Bitcast { value } => value,
                    _ => RValue { id: 0 },
                };
                self.eval(id, s) == (
                    converted(&self.types, self.eval(value.id as int, s).0, self.nodes@[id].ty),
                    self.eval(value.id as int, s).1,
                )
            }),
    {
        reveal_with_fuel(Graph::eval, 2);
        reveal_with_fuel(Graph::place, 2);
        reveal_with_fuel(Graph::eval_list, 2);
    }

    /// A comparison evaluates its operands from left to right.
    pub proof fn lemma_comparison(&self, id: int, s: Memory)
        requires
            self.sound_node(id),
            self.nodes@[id].kind is Comparison,
        ensures
            ({
                let lhs = self.nodes@[id].kind->Comparison_lhs;
                let rhs = self.nodes@[id].kind->Comparison_rhs;
                let (a, s1) = self.eval(lhs.id as int, s);
                let (b, s2) = self.eval(rhs.id as int, s1);
                self.eval(id, s) == (compared(self.nodes@[id].kind->Comparison_op, a, b), s2)
            }),
    {
        reveal_with_fuel(Graph::eval, 2);
        reveal_with_fuel(Graph::place, 2);
        reveal_with_fuel(Graph::eval_list, 2);
    }

    /// A one-operand operator evaluates its operand and applies.
    pub proof fn lemma_unary(&self, id: int, s: Memory)
        requires
            self.sound_node(id),
            self.nodes@[id].kind is Unary,
        ensures
            ({
                let operand = self.nodes@[id].kind->operand;
                let (a, s1) = self.eval(operand.id as int, s);
                self.eval(id, s) == (
                    inverted(&self.types, self.nodes@[id].kind->Unary_op, self.nodes@[id].ty, a),
                    s1,
                )
            }),
    {
        reveal_with_fuel(Graph::eval, 2);
        reveal_with_fuel(Graph::place, 2);
        reveal_with_fuel(Graph::eval_list, 2);
    }

    /// A two-operand operator that is not a logical one evaluates its
    /// operands from left to right and applies.
    pub proof fn lemma_binary(&self, id: int, s: Memory)
        requires
            self.sound_node(id),
            self.nodes@[id].kind is Binary,
            self.nodes@[id].kind->Binary_op != BinaryOp::LogicalAnd,
            self.nodes@[id].kind->Binary_op != BinaryOp::LogicalOr,
        ensures
            ({
                let lhs = self.nodes@[id].kind->Binary_lhs;
                let rhs = self.nodes@[id].kind->Binary_rhs;
                let (a, s1) = self.eval(lhs.id as int, s);
                let (b, s2) = self.eval(rhs.id as int, s1);
                self.eval(id, s) == (
                    combined(&self.types, self.nodes@[id].kind->Binary_op, self.nodes@[id].ty, a, b),
                    s2,
                )
            }),
    {
        reveal_with_fuel(Graph::eval, 2);
        reveal_with_fuel(Graph::place, 2);
        reveal_with_fuel(Graph::eval_list, 2);
    }

    /// A logical conjunction evaluates its second operand only where the
    /// first holds.
    pub proof fn lemma_conjunction(&self, id: int, s: Memory)
        requires
            self.sound_node(id),
            self.nodes@[id].kind is Binary,
            self.nodes@[id].kind->Binary_op == BinaryOp::LogicalAnd,
        ensures
            ({
                let lhs = self.nodes@[id].kind->Binary_lhs;
                let rhs = self.nodes@[id].kind->Binary_rhs;
                let (a, s1) = self.eval(lhs.id as int, s);
                self.eval(id, s) == if truthy(a) {
                    (flag(truthy(self.eval(rhs.id as int, s1).0)), self.eval(rhs.id as int, s1).1)
                } else {
                    (flag(false), s1)
                }
            }),
    {
        reveal_with_fuel(Graph::eval, 2);
        reveal_with_fuel(Graph::place, 2);
        reveal_with_fuel(Graph::eval_list, 2);
    }

    /// The address of storage evaluates to where the storage is.
    pub proof fn lemma_address(&self, id: int, s: Memory)
        requires
            self.sound_node(id),
            self.nodes@[id].kind is AddressOf,
        ensures
            self.eval(id, s) == self.place(self.nodes@[id].kind->lvalue.id as int, s),
    {
        reveal_with_fuel(Graph::eval, 2);
        reveal_with_fuel(Graph::place, 2);
        reveal_with_fuel(Graph::eval_list, 2);
    }

    /// What a pointer points to is where the pointer says, and evaluates
    /// to what is held there.
    pub proof fn lemma_dereference(&self, id: int, s: Memory)
        requires
            self.sound_node(id),
            self.nodes@[id].kind is Deref,
        ensures
            self.place(id, s) == self.eval(self.nodes@[id].kind->Deref_ptr.id as int, s),
            self.eval(id, s) == (
                fetch_through(self.place(id, s).1, self.place(id, s).0),
                self.place(id, s).1,
            ),
    {
        reveal_with_fuel(Graph::eval, 2);
        reveal_with_fuel(Graph::place, 2);
        reveal_with_fuel(Graph::eval_list, 2);
    }

    /// An element lies as many cells after the start of its base (where
    /// the base is, or what it points to where it is a pointer) as the
    /// index times the cells of one element.
    pub proof fn lemma_element(&self, id: int, s: Memory)
        requires
            self.sound_node(id),
            self.nodes@[id].kind is ArrayAccess,
        ensures
            ({
                let base = self.nodes@[id].kind->base;
                let index = self.nodes@[id].kind->index;
                let (p, s1) = if self.types.is_pointer(self.nodes@[base.id as int].ty) {
                    self.eval(base.id as int, s)
                } else {
                    self.place(base.id as int, s)
                };
                let (i, s2) = self.eval(index.id as int, s1);
                self.place(id, s) == (
                    match i {
                        Val::Int { value } => advanced(p, value * self.stride(self.nodes@[id].ty)),
                        _ => Val::Undef,
                    },
                    s2,
                )
            }),
    {
        reveal_with_fuel(Graph::eval, 2);
        reveal_with_fuel(Graph::place, 2);
        reveal_with_fuel(Graph::eval_list, 2);
    }

    /// A field of a struct in storage is at its offset from the struct.
    pub proof fn lemma_field_access(&self, id: int, s: Memory)
        requires
            self.sound_node(id),
            self.nodes@[id].kind is FieldAccess,
        ensures
            ({
                let storage = self.nodes@[id].kind->storage;
                let field = self.nodes@[id].kind->FieldAccess_field;
                let (p, s1) = self.place(storage.id as int, s);
                self.place(id, s) == (
                    advanced(p, self.field_offset(self.nodes@[storage.id as int].ty, field)),
                    s1,
                )
            }),
    {
        reveal_with_fuel(Graph::eval, 2);
        reveal_with_fuel(Graph::place, 2);
        reveal_with_fuel(Graph::eval_list, 2);
    }

    /// A call of a builtin evaluates its arguments in order and applies
    /// the builtin.
    pub proof fn lemma_builtin_call(&self, id: int, b: Builtin, s: Memory)
        requires
            self.sound_node(id),
            self.nodes@[id].kind is Call,
            self.nodes@[id].kind->Call_args < self.lists@.len(),
            self.nodes@[id].kind->Call_func.id < self.functions@.len(),
            self.functions@[self.nodes@[id].kind->Call_func.id as int].builtin == Some(b),
        ensures
            ({
                let list = self.lists@[self.nodes@[id].kind->Call_args as int]@;
                let (values, s1) = self.eval_list(list, list.len() as int, id, s);
                self.eval(id, s) == applied(b, values, s1)
            }),
    {
        reveal_with_fuel(Graph::eval, 2);
        reveal_with_fuel(Graph::place, 2);
        reveal_with_fuel(Graph::eval_list, 2);
    }

    /// No argument, no value.
    pub proof fn lemma_no_arguments(&self, list: Seq<RValue>, bound: int, s: Memory)
        ensures
            self.eval_list(list, 0, bound, s) == (Seq::<Val>::empty(), s),
    {
        reveal_with_fuel(Graph::eval, 2);
        reveal_with_fuel(Graph::place, 2);
        reveal_with_fuel(Graph::eval_list, 2);
    }

    /// The arguments are evaluated one after the other.
    pub proof fn lemma_next_argument(&self, list: Seq<RValue>, n: int, bound: int, s: Memory)
        requires
            0 < n <= list.len(),
            list[n - 1].id < bound,
        ensures
            ({
                let (values, s1) = self.eval_list(list, n - 1, bound, s);
                let (v, s2) = self.eval(list[n - 1].id as int, s1);
                self.eval_list(list, n, bound, s) == (values.push(v), s2)
            }),
    {
        reveal_with_fuel(Graph::eval, 2);
        reveal_with_fuel(Graph::place, 2);
        reveal_with_fuel(Graph::eval_list, 2);
    }

    /// A run goes through an instruction that ends no block.
    pub proof fn lemma_run_on(&self, block: Block, pc: int, s: Memory, jumps: nat)
        requires
            block.id < self.blocks@.len(),
            0 <= pc < self.instrs(block).len(),
            !self.instrs(block)[pc].is_terminator(),
        ensures
            self.run(block, pc, s, jumps) == self.run(
                block,
                pc + 1,
                self.step(self.instrs(block)[pc], s),
                jumps,
            ),
    {
        reveal_with_fuel(Graph::run, 1);
    }

    /// A run that may jump goes on at the start of the block that the
    /// terminator leads to.
    pub proof fn lemma_run_over(&self, block: Block, pc: int, s: Memory, jumps: nat)
        requires
            block.id < self.blocks@.len(),
            0 <= pc < self.instrs(block).len(),
            self.instrs(block)[pc].is_terminator(),
            self.successor(self.instrs(block)[pc], s).0 is Some,
            jumps > 0,
        ensures
            self.run(block, pc, s, jumps) == self.run(
                self.successor(self.instrs(block)[pc], s).0->0,
                0,
                self.successor(self.instrs(block)[pc], s).1,
                (jumps - 1) as nat,
            ),
    {
        reveal_with_fuel(Graph::run, 1);
    }

    /// A run stands at the end of a block that has no terminator yet.
    pub proof fn lemma_run_out(&self, block: Block, pc: int, s: Memory, jumps: nat)
        requires
            pc >= self.instrs(block).len(),
        ensures
            self.run(block, pc, s, jumps) == (Config { block, pc, memory: s }),
    {
        reveal_with_fuel(Graph::run, 1);
    }
}

} // verus!
