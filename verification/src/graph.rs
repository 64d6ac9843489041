//! The program graph that lowering builds: typed expression nodes,
//! variables, routines and their basic blocks. The graph only grows; a
//! handle, once given out, keeps its meaning.

use vstd::prelude::*;

use crate::ops::{BinaryOp, ComparisonOp, FetchOp, OverflowOp, UnaryOp};
use crate::types::{int_width, prefix_of, Type, TypeKind, TypeTable};

verus! {

/// Handle of a typed expression node. The handle of a storage node, taken
/// as a value, stands for what the storage holds.
#[derive(Clone, Copy, PartialEq, Eq, Structural, Debug)]
pub struct RValue {
    pub id: usize,
}

/// Handle of a node that denotes addressable storage.
#[derive(Clone, Copy, PartialEq, Eq, Structural, Debug)]
pub struct LValue {
    pub id: usize,
}

/// Handle of a basic block.
#[derive(Clone, Copy, PartialEq, Eq, Structural, Debug)]
pub struct Block {
    pub id: usize,
}

/// Handle of a routine.
#[derive(Clone, Copy, PartialEq, Eq, Structural, Debug)]
pub struct Function {
    pub id: usize,
}

/// A primitive routine that the target runtime provides.
#[allow(inconsistent_fields)]
#[derive(Clone, Copy, PartialEq, Eq, Structural, Debug)]
pub enum Builtin {
    AtomicLoad { bytes: u8 },
    AtomicStore { bytes: u8 },
    AtomicCompareExchange { bytes: u8 },
    AtomicFetch { op: FetchOp, bytes: u8 },
    AtomicThreadFence,
    AtomicSignalFence,
    Memcpy,
    Memmove,
    Memset,
    Unreachable,
    Fmodf,
    Fmod,
    Overflow { op: OverflowOp },
}

/// What a node computes or denotes. Operands are handles of earlier nodes;
/// argument lists are held in the graph's list table.
#[allow(inconsistent_fields)]
#[derive(Clone, Copy, PartialEq, Eq, Structural, Debug)]
pub enum NodeKind {
    /// An integer constant, given by its two's-complement bits; the node's
    /// type says how many of them count and how they are read.
    Const { bits: u128 },
    Cast { value: RValue },
    Bitcast { value: RValue },
    Unary { op: UnaryOp, operand: RValue },
    Binary { op: BinaryOp, lhs: RValue, rhs: RValue },
    Comparison { op: ComparisonOp, lhs: RValue, rhs: RValue },
    Call { func: Function, args: usize },
    CallThroughPtr { ptr: RValue, args: usize },
    AddressOf { lvalue: LValue },
    FunctionAddress { func: Function },
    FieldOf { aggregate: RValue, field: usize },
    VectorLiteral { elements: usize },
    VectorPerm { first: RValue, second: RValue, mask: RValue },
    /// Storage: a variable.
    Var { var: usize },
    /// Storage: what a pointer points to.
    Deref { ptr: RValue },
    /// Storage: an element of an array, or of what a pointer points into.
    ArrayAccess { base: RValue, index: RValue },
    /// Storage: a field of the struct a pointer points to.
    DerefField { ptr: RValue, field: usize },
    /// Storage: a field of a struct held in storage.
    FieldAccess { storage: LValue, field: usize },
}

#[derive(Clone, Copy, PartialEq, Eq, Structural, Debug)]
pub struct Node {
    pub kind: NodeKind,
    pub ty: Type,
}

/// Where a variable lives.
#[derive(Clone, Copy, PartialEq, Eq, Structural, Debug)]
pub enum Scope {
    Local { func: Function },
    Global,
}

#[derive(Debug)]
pub struct VarDef {
    pub name: String,
    pub ty: Type,
    pub scope: Scope,
}

#[derive(Debug)]
pub struct FunctionDef {
    pub name: String,
    pub params: Vec<Type>,
    pub ret: Type,
    pub builtin: Option<Builtin>,
}

/// One entry of a switch: values from `low` to `high` go to `target`.
#[derive(Clone, Copy, PartialEq, Eq, Structural, Debug)]
pub struct Case {
    pub low: RValue,
    pub high: RValue,
    pub target: Block,
}

/// An instruction of a block. The last five end a block.
#[derive(Clone, Copy, PartialEq, Eq, Structural, Debug)]
pub enum Instr {
    Eval { value: RValue },
    Assign { target: LValue, value: RValue },
    Return { value: RValue },
    VoidReturn,
    Jump { dest: Block },
    Conditional { cond: RValue, on_true: Block, on_false: Block },
    Switch { value: RValue, default: Block, cases: usize },
}

#[derive(Debug)]
pub struct BlockDef {
    pub name: String,
    pub func: Function,
    pub instrs: Vec<Instr>,
}

#[derive(Debug)]
pub struct Graph {
    pub types: TypeTable,
    pub nodes: Vec<Node>,
    pub lists: Vec<Vec<RValue>>,
    pub vars: Vec<VarDef>,
    pub functions: Vec<FunctionDef>,
    pub blocks: Vec<BlockDef>,
    pub case_lists: Vec<Vec<Case>>,
}

impl NodeKind {
    pub open spec fn is_storage(self) -> bool {
        self is Var || self is Deref || self is ArrayAccess || self is DerefField
            || self is FieldAccess
    }

    /// Every node this one refers to is earlier than `bound`.
    pub open spec fn operands_below(self, bound: int) -> bool {
        match self {
            NodeKind::Cast { value } => value.id < bound,
            NodeKind::Bitcast { value } => value.id < bound,
            NodeKind::Unary { operand, .. } => operand.id < bound,
            NodeKind::Binary { lhs, rhs, .. } => lhs.id < bound && rhs.id < bound,
            NodeKind::Comparison { lhs, rhs, .. } => lhs.id < bound && rhs.id < bound,
            NodeKind::CallThroughPtr { ptr, .. } => ptr.id < bound,
            NodeKind::AddressOf { lvalue } => lvalue.id < bound,
            NodeKind::FieldOf { aggregate, .. } => aggregate.id < bound,
            NodeKind::VectorPerm { first, second, mask } => first.id < bound && second.id < bound
                && mask.id < bound,
            NodeKind::Deref { ptr } => ptr.id < bound,
            NodeKind::ArrayAccess { base, index } => base.id < bound && index.id < bound,
            NodeKind::DerefField { ptr, .. } => ptr.id < bound,
            NodeKind::FieldAccess { storage, .. } => storage.id < bound,
            _ => true,
        }
    }

    pub open spec fn has_list(self) -> bool {
        self is Call || self is CallThroughPtr || self is VectorLiteral
    }

    /// The list a call or a vector literal takes its operands from.
    pub open spec fn list(self) -> int {
        match self {
            NodeKind::Call { args, .. } => args as int,
            NodeKind::CallThroughPtr { args, .. } => args as int,
            NodeKind::VectorLiteral { elements } => elements as int,
            _ => 0,
        }
    }
}

impl Instr {
    pub open spec fn is_terminator(self) -> bool {
        !(self is Eval || self is Assign)
    }
}

/// Every handle in the list is earlier than `bound`.
pub open spec fn all_below(list: Seq<RValue>, bound: int) -> bool {
    forall|k: int| 0 <= k < list.len() ==> (#[trigger] list[k]).id < bound
}

/// A block may hold a terminator only as its last instruction.
pub open spec fn ends_once(instrs: Seq<Instr>) -> bool {
    forall|k: int| 0 <= k < instrs.len() && (#[trigger] instrs[k]).is_terminator() ==> k
        == instrs.len() - 1
}

impl Graph {
    pub open spec fn has_value(&self, v: RValue) -> bool {
        v.id < self.nodes@.len()
    }

    /// The handle denotes storage of this graph.
    pub open spec fn has_storage(&self, l: LValue) -> bool {
        l.id < self.nodes@.len() && self.nodes@[l.id as int].kind.is_storage()
    }

    pub open spec fn has_block(&self, b: Block) -> bool {
        b.id < self.blocks@.len()
    }

    pub open spec fn has_function(&self, f: Function) -> bool {
        f.id < self.functions@.len()
    }

    pub open spec fn node(&self, id: usize) -> Node {
        self.nodes@[id as int]
    }

    pub open spec fn kind_of(&self, v: RValue) -> NodeKind {
        self.nodes@[v.id as int].kind
    }

    pub open spec fn type_of(&self, v: RValue) -> Type {
        self.nodes@[v.id as int].ty
    }

    pub open spec fn storage_type(&self, l: LValue) -> Type {
        self.nodes@[l.id as int].ty
    }

    pub open spec fn instrs(&self, b: Block) -> Seq<Instr> {
        self.blocks@[b.id as int].instrs@
    }

    pub open spec fn block_function(&self, b: Block) -> Function {
        self.blocks@[b.id as int].func
    }

    /// The block has received its terminator.
    pub open spec fn closed(&self, b: Block) -> bool {
        self.instrs(b).len() > 0 && self.instrs(b).last().is_terminator()
    }

    pub open spec fn params(&self, f: Function) -> Seq<Type> {
        self.functions@[f.id as int].params@
    }

    pub open spec fn return_type(&self, f: Function) -> Type {
        self.functions@[f.id as int].ret
    }

    pub open spec fn list(&self, l: usize) -> Seq<RValue> {
        self.lists@[l as int]@
    }

    pub open spec fn cases(&self, c: usize) -> Seq<Case> {
        self.case_lists@[c as int]@
    }

    pub open spec fn node_ok(&self, i: int) -> bool {
        let n = self.nodes@[i];
        &&& self.types.has(n.ty)
        &&& n.kind.operands_below(i)
        &&& n.kind.has_list() ==> n.kind.list() < self.lists@.len() && all_below(
            self.lists@[n.kind.list()]@,
            i,
        )
        &&& n.kind matches NodeKind::Var { var } ==> var < self.vars@.len()
        &&& n.kind matches NodeKind::Call { func, .. } ==> func.id < self.functions@.len()
        &&& n.kind matches NodeKind::FunctionAddress { func } ==> func.id < self.functions@.len()
    }

    pub open spec fn var_ok(&self, i: int) -> bool {
        let v = self.vars@[i];
        &&& self.types.has(v.ty)
        &&& v.scope matches Scope::Local { func } ==> func.id < self.functions@.len()
    }

    /// The routine `f` is declared as the builtin `b` is.
    pub open spec fn declares(&self, f: Function, b: Builtin) -> bool {
        self.declares_at(f.id as int, b)
    }

    pub open spec fn declares_at(&self, i: int, b: Builtin) -> bool {
        let def = self.functions@[i];
        &&& b.known()
        &&& def.builtin == Some(b)
        &&& def.name@ == b.name()
        &&& def.params@.len() == b.params().len()
        &&& forall|k: int|
            0 <= k < def.params@.len() ==> self.types.is_prim(
                #[trigger] def.params@[k],
                b.params()[k],
            )
        &&& self.types.is_prim(def.ret, b.ret())
    }

    pub open spec fn function_ok(&self, i: int) -> bool {
        let f = self.functions@[i];
        &&& self.types.has(f.ret)
        &&& forall|k: int| 0 <= k < f.params@.len() ==> self.types.has(#[trigger] f.params@[k])
        &&& f.builtin matches Some(b) ==> self.declares_at(i, b)
    }

    pub open spec fn case_ok(&self, c: Case) -> bool {
        c.low.id < self.nodes@.len() && c.high.id < self.nodes@.len() && c.target.id
            < self.blocks@.len()
    }

    pub open spec fn case_list_ok(&self, i: int) -> bool {
        forall|k: int|
            0 <= k < self.case_lists@[i]@.len() ==> self.case_ok(#[trigger] self.case_lists@[i]@[k])
    }

    pub open spec fn instr_ok(&self, instr: Instr) -> bool {
        match instr {
            Instr::Eval { value } => value.id < self.nodes@.len(),
            Instr::Assign { target, value } => self.has_storage(target) && value.id
                < self.nodes@.len(),
            Instr::Return { value } => value.id < self.nodes@.len(),
            Instr::VoidReturn => true,
            Instr::Jump { dest } => dest.id < self.blocks@.len(),
            Instr::Conditional { cond, on_true, on_false } => cond.id < self.nodes@.len()
                && on_true.id < self.blocks@.len() && on_false.id < self.blocks@.len(),
            Instr::Switch { value, default, cases } => value.id < self.nodes@.len() && default.id
                < self.blocks@.len() && cases < self.case_lists@.len(),
        }
    }

    pub open spec fn block_ok(&self, i: int) -> bool {
        let b = self.blocks@[i];
        &&& b.func.id < self.functions@.len()
        &&& forall|k: int| 0 <= k < b.instrs@.len() ==> self.instr_ok(#[trigger] b.instrs@[k])
        &&& ends_once(b.instrs@)
    }

    /// The graph is well formed: every handle it holds refers to an entry
    /// that exists, nodes refer to earlier nodes only, and no block holds an
    /// instruction after a terminator.
    pub open spec fn wf(&self) -> bool {
        &&& self.types.wf()
        &&& forall|i: int| 0 <= i < self.nodes@.len() ==> #[trigger] self.node_ok(i)
        &&& forall|i: int| 0 <= i < self.vars@.len() ==> #[trigger] self.var_ok(i)
        &&& forall|i: int| 0 <= i < self.functions@.len() ==> #[trigger] self.function_ok(i)
        &&& forall|i: int| 0 <= i < self.case_lists@.len() ==> #[trigger] self.case_list_ok(i)
        &&& forall|i: int| 0 <= i < self.blocks@.len() ==> #[trigger] self.block_ok(i)
    }

    /// `later` holds everything `self` holds, at the same handles; blocks
    /// may have received further instructions.
    pub open spec fn extended_by(&self, later: &Graph) -> bool {
        &&& self.types.extended_by(&later.types)
        &&& prefix_of(self.nodes@, later.nodes@)
        &&& prefix_of(self.lists@, later.lists@)
        &&& prefix_of(self.vars@, later.vars@)
        &&& prefix_of(self.functions@, later.functions@)
        &&& prefix_of(self.case_lists@, later.case_lists@)
        &&& self.blocks@.len() <= later.blocks@.len()
        &&& forall|b: int|
            0 <= b < self.blocks@.len() ==> {
                &&& (#[trigger] later.blocks@[b]).func == self.blocks@[b].func
                &&& later.blocks@[b].name == self.blocks@[b].name
                &&& prefix_of(self.blocks@[b].instrs@, later.blocks@[b].instrs@)
            }
    }

    /// Only the node table (and the type table under it) may differ.
    pub open spec fn same_code(&self, later: &Graph) -> bool {
        &&& self.vars@ == later.vars@
        &&& self.functions@ == later.functions@
        &&& self.blocks@ == later.blocks@
        &&& self.case_lists@ == later.case_lists@
    }

    /// A routine stays declared as a builtin when the graph grows.
    pub proof fn lemma_declares_kept(&self, later: &Graph, f: Function, b: Builtin)
        requires
            self.extended_by(later),
            self.has_function(f),
            self.declares(f, b),
        ensures
            later.has_function(f),
            later.declares(f, b),
    {
        let def = self.functions@[f.id as int];
        assert(later.functions@[f.id as int] == def);
        assert forall|k: int| 0 <= k < def.params@.len() implies later.types.is_prim(
            #[trigger] def.params@[k],
            b.params()[k],
        ) by {
            self.types.lemma_prim_extended(&later.types, def.params@[k], b.params()[k]);
        }
        self.types.lemma_prim_extended(&later.types, def.ret, b.ret());
    }

    /// The type of a held value is held.
    pub proof fn lemma_typed(&self, v: RValue)
        requires
            self.wf(),
            self.has_value(v),
        ensures
            self.types.has(self.type_of(v)),
    {
        assert(self.node_ok(v.id as int));
    }

    /// A graph that grew from a well-formed one is well formed, given that
    /// its new entries and the blocks that changed are.
    pub proof fn lemma_wf_extended(&self, later: &Graph)
        requires
            self.wf(),
            self.extended_by(later),
            later.types.wf(),
            forall|i: int| self.nodes@.len() <= i < later.nodes@.len() ==> later.node_ok(i),
            forall|i: int| self.vars@.len() <= i < later.vars@.len() ==> later.var_ok(i),
            forall|i: int|
                self.functions@.len() <= i < later.functions@.len() ==> later.function_ok(i),
            forall|i: int|
                self.case_lists@.len() <= i < later.case_lists@.len() ==> later.case_list_ok(i),
            forall|i: int|
                0 <= i < later.blocks@.len() ==> later.block_ok(i) || (i < self.blocks@.len()
                    && later.blocks@[i].instrs@ == self.blocks@[i].instrs@),
        ensures
            later.wf(),
    {
        assert forall|i: int| 0 <= i < later.nodes@.len() implies #[trigger] later.node_ok(i) by {
            if i < self.nodes@.len() {
                assert(self.node_ok(i));
                assert(later.nodes@[i] == self.nodes@[i]);
                let k = self.nodes@[i].kind;
                if k.has_list() {
                    assert(later.lists@[k.list()] == self.lists@[k.list()]);
                }
            }
        }
        assert forall|i: int| 0 <= i < later.vars@.len() implies #[trigger] later.var_ok(i) by {
            if i < self.vars@.len() {
                assert(self.var_ok(i));
            }
        }
        assert forall|i: int| 0 <= i < later.functions@.len() implies #[trigger] later.function_ok(
            i,
        ) by {
            if i < self.functions@.len() {
                assert(self.function_ok(i));
                let f = self.functions@[i];
                assert(later.functions@[i] == f);
                if f.builtin is Some {
                    let b = f.builtin->0;
                    assert(self.declares_at(i, b));
                    assert forall|k: int| 0 <= k < f.params@.len() implies later.types.is_prim(
                        #[trigger] f.params@[k],
                        b.params()[k],
                    ) by {
                        self.types.lemma_prim_extended(&later.types, f.params@[k], b.params()[k]);
                    }
                    self.types.lemma_prim_extended(&later.types, f.ret, b.ret());
                }
            }
        }
        assert forall|i: int| 0 <= i < later.case_lists@.len() implies #[trigger] later.case_list_ok(
            i,
        ) by {
            if i < self.case_lists@.len() {
                assert(self.case_list_ok(i));
                assert(later.case_lists@[i] == self.case_lists@[i]);
                assert forall|k: int| 0 <= k < later.case_lists@[i]@.len() implies later.case_ok(
                    #[trigger] later.case_lists@[i]@[k],
                ) by {
                    assert(self.case_ok(self.case_lists@[i]@[k]));
                }
            }
        }
        assert forall|i: int| 0 <= i < later.blocks@.len() implies #[trigger] later.block_ok(i) by {
            if !later.block_ok(i) {
                assert(self.block_ok(i));
                let b = later.blocks@[i];
                assert forall|k: int| 0 <= k < b.instrs@.len() implies later.instr_ok(
                    #[trigger] b.instrs@[k],
                ) by {
                    let ins = self.blocks@[i].instrs@[k];
                    assert(self.instr_ok(ins));
                    match ins {
                        Instr::Assign { target, .. } => {
                            assert(later.nodes@[target.id as int] == self.nodes@[target.id as int]);
                        },
                        _ => {},
                    }
                }
            }
        }
    }
}

/// The bits of a signed constant, extended to the full width of a
/// constant node.
pub open spec fn sign_extended(value: int) -> int {
    if value >= 0 {
        value
    } else {
        u128::MAX + 1 + value
    }
}

fn extend_sign(value: i64) -> (bits: u128)
    ensures
        bits == sign_extended(value as int),
{
    if value >= 0 {
        value as u128
    } else {
        u128::MAX - ((-(value + 1)) as u128)
    }
}

impl LValue {
    /// The storage taken as a value: what it holds when read.
    pub open spec fn read(self) -> RValue {
        RValue { id: self.id }
    }

    /// The storage taken as a value: what it holds when read.
    pub fn to_rvalue(self) -> (r: RValue)
        ensures
            r == self.read(),
    {
        RValue { id: self.id }
    }
}

impl Graph {
    /// Only the type table may differ, and it only grew.
    pub open spec fn types_grew(&self, later: &Graph) -> bool {
        &&& self.types.extended_by(&later.types)
        &&& self.nodes@ == later.nodes@
        &&& self.lists@ == later.lists@
        &&& self.same_code(later)
    }

    /// Only the node and list tables may differ from `self`, and they only
    /// grew, apart from the type table, which only grew as well.
    pub open spec fn nodes_grew(&self, later: &Graph) -> bool {
        &&& self.types.extended_by(&later.types)
        &&& prefix_of(self.nodes@, later.nodes@)
        &&& prefix_of(self.lists@, later.lists@)
        &&& self.same_code(later)
    }

    /// The block `b` received `instr` as its last instruction; nothing else
    /// changed.
    pub open spec fn appended(&self, later: &Graph, b: Block, instr: Instr) -> bool {
        &&& self.types == later.types
        &&& self.nodes@ == later.nodes@
        &&& self.lists@ == later.lists@
        &&& self.vars@ == later.vars@
        &&& self.functions@ == later.functions@
        &&& later.blocks@.len() == self.blocks@.len()
        &&& later.blocks@[b.id as int].func == self.blocks@[b.id as int].func
        &&& later.blocks@[b.id as int].name == self.blocks@[b.id as int].name
        &&& later.blocks@[b.id as int].instrs@ == self.blocks@[b.id as int].instrs@.push(instr)
        &&& forall|c: int|
            0 <= c < self.blocks@.len() && c != b.id ==> #[trigger] later.blocks@[c]
                == self.blocks@[c]
    }

    /// An empty graph for a target whose pointers take `pointer_bytes` bytes.
    pub fn new(pointer_bytes: u8) -> (g: Graph)
        requires
            int_width(pointer_bytes),
        ensures
            g.wf(),
            g.types.pointer_bytes == pointer_bytes,
            g.types.infos@.len() == 0,
            g.nodes@.len() == 0,
            g.lists@.len() == 0,
            g.vars@.len() == 0,
            g.functions@.len() == 0,
            g.blocks@.len() == 0,
            g.case_lists@.len() == 0,
    {
        Graph {
            types: TypeTable::new(pointer_bytes),
            nodes: Vec::new(),
            lists: Vec::new(),
            vars: Vec::new(),
            functions: Vec::new(),
            blocks: Vec::new(),
            case_lists: Vec::new(),
        }
    }

    /// The handle of the type of shape `kind`, entering it if it is new.
    pub fn intern(&mut self, kind: TypeKind) -> (t: Type)
        requires
            old(self).wf(),
            kind.within(
                old(self).types.infos.len() as int,
                old(self).types.structs.len() as int,
                old(self).types.signatures.len() as int,
            ),
        ensures
            final(self).wf(),
            old(self).extended_by(final(self)),
            old(self).types_grew(final(self)),
            final(self).types.has(t),
            final(self).types.kind(t) == kind,
            final(self).types.structs@ == old(self).types.structs@,
            final(self).types.signatures@ == old(self).types.signatures@,
            old(self).types.find(kind) is Some ==> Some(t) == old(self).types.find(kind)
                && final(self).types == old(self).types,
            old(self).types.find(kind) is None ==> t.id == old(self).types.infos@.len(),
    {
        let t = self.types.intern(kind);
        proof {
            old(self).lemma_wf_extended(self);
        }
        t
    }

    pub fn make_pointer(&mut self, t: Type) -> (r: Type)
        requires
            old(self).wf(),
            old(self).types.has(t),
        ensures
            final(self).wf(),
            old(self).extended_by(final(self)),
            old(self).types_grew(final(self)),
            final(self).types.structs@ == old(self).types.structs@,
            final(self).types.signatures@ == old(self).types.signatures@,
            old(self).types.find(TypeKind::Pointer { pointee: t }) is Some ==> Some(r) == old(self).types.find(
                TypeKind::Pointer { pointee: t },
            ) && final(self).types == old(self).types,
            final(self).types.has(r),
            final(self).types.kind(r) == (TypeKind::Pointer { pointee: t }),
    {
        self.intern(TypeKind::Pointer { pointee: t })
    }

    pub fn make_const(&mut self, t: Type) -> (r: Type)
        requires
            old(self).wf(),
            old(self).types.has(t),
        ensures
            final(self).wf(),
            old(self).extended_by(final(self)),
            old(self).types_grew(final(self)),
            final(self).types.structs@ == old(self).types.structs@,
            final(self).types.signatures@ == old(self).types.signatures@,
            old(self).types.find(TypeKind::Const { inner: t }) is Some ==> Some(r) == old(self).types.find(
                TypeKind::Const { inner: t },
            ) && final(self).types == old(self).types,
            final(self).types.has(r),
            final(self).types.kind(r) == (TypeKind::Const { inner: t }),
    {
        self.intern(TypeKind::Const { inner: t })
    }

    pub fn make_volatile(&mut self, t: Type) -> (r: Type)
        requires
            old(self).wf(),
            old(self).types.has(t),
        ensures
            final(self).wf(),
            old(self).extended_by(final(self)),
            old(self).types_grew(final(self)),
            final(self).types.structs@ == old(self).types.structs@,
            final(self).types.signatures@ == old(self).types.signatures@,
            old(self).types.find(TypeKind::Volatile { inner: t }) is Some ==> Some(r) == old(self).types.find(
                TypeKind::Volatile { inner: t },
            ) && final(self).types == old(self).types,
            final(self).types.has(r),
            final(self).types.kind(r) == (TypeKind::Volatile { inner: t }),
    {
        self.intern(TypeKind::Volatile { inner: t })
    }

    /// The type `t` with its alignment raised to `align` bytes.
    pub fn get_aligned(&mut self, t: Type, align: u64) -> (r: Type)
        requires
            old(self).wf(),
            old(self).types.has(t),
        ensures
            final(self).wf(),
            old(self).extended_by(final(self)),
            old(self).types_grew(final(self)),
            final(self).types.structs@ == old(self).types.structs@,
            final(self).types.signatures@ == old(self).types.signatures@,
            old(self).types.find(TypeKind::Aligned { inner: t, align }) is Some ==> Some(r) == old(self).types.find(
                TypeKind::Aligned { inner: t, align },
            ) && final(self).types == old(self).types,
            final(self).types.has(r),
            final(self).types.kind(r) == (TypeKind::Aligned { inner: t, align }),
    {
        self.intern(TypeKind::Aligned { inner: t, align })
    }

    pub fn new_int_type(&mut self, bytes: u8, signed: bool) -> (r: Type)
        requires
            old(self).wf(),
            int_width(bytes),
        ensures
            final(self).wf(),
            old(self).extended_by(final(self)),
            old(self).types_grew(final(self)),
            final(self).types.structs@ == old(self).types.structs@,
            final(self).types.signatures@ == old(self).types.signatures@,
            old(self).types.find(TypeKind::Int { bytes, signed }) is Some ==> Some(r) == old(self).types.find(
                TypeKind::Int { bytes, signed },
            ) && final(self).types == old(self).types,
            final(self).types.has(r),
            final(self).types.kind(r) == (TypeKind::Int { bytes, signed }),
    {
        self.intern(TypeKind::Int { bytes, signed })
    }

    pub fn new_array_type(&mut self, element: Type, len: u64) -> (r: Type)
        requires
            old(self).wf(),
            old(self).types.has(element),
        ensures
            final(self).wf(),
            old(self).extended_by(final(self)),
            old(self).types_grew(final(self)),
            final(self).types.structs@ == old(self).types.structs@,
            final(self).types.signatures@ == old(self).types.signatures@,
            old(self).types.find(TypeKind::Array { element, len }) is Some ==> Some(r) == old(self).types.find(
                TypeKind::Array { element, len },
            ) && final(self).types == old(self).types,
            final(self).types.has(r),
            final(self).types.kind(r) == (TypeKind::Array { element, len }),
    {
        self.intern(TypeKind::Array { element, len })
    }

    pub fn new_vector_type(&mut self, element: Type, len: u64) -> (r: Type)
        requires
            old(self).wf(),
            old(self).types.has(element),
        ensures
            final(self).wf(),
            old(self).extended_by(final(self)),
            old(self).types_grew(final(self)),
            final(self).types.structs@ == old(self).types.structs@,
            final(self).types.signatures@ == old(self).types.signatures@,
            old(self).types.find(TypeKind::Vector { element, len }) is Some ==> Some(r) == old(self).types.find(
                TypeKind::Vector { element, len },
            ) && final(self).types == old(self).types,
            final(self).types.has(r),
            final(self).types.kind(r) == (TypeKind::Vector { element, len }),
    {
        self.intern(TypeKind::Vector { element, len })
    }

    /// Declares a struct with the given fields.
    pub fn new_struct_type(&mut self, name: &str, fields: Vec<Type>) -> (r: Type)
        requires
            old(self).wf(),
            forall|i: int| 0 <= i < fields@.len() ==> old(self).types.has(#[trigger] fields@[i]),
        ensures
            final(self).wf(),
            old(self).extended_by(final(self)),
            old(self).types_grew(final(self)),
            final(self).types.has(r),
            final(self).types.infos@.len() == old(self).types.infos@.len() + 1,
            r.id == old(self).types.infos@.len(),
            final(self).types.kind(r) == (TypeKind::Struct {
                index: old(self).types.structs@.len() as usize,
            }),
            final(self).types.structs@.len() == old(self).types.structs@.len() + 1,
            final(self).types.structs@.last().name@ == name@,
            final(self).types.structs@.last().fields@ == fields@,
            forall|i: int|
                0 <= i < fields@.len() ==> #[trigger] final(self).types.structs@.last().offsets@[i]
                    == old(self).types.prefix_slots(fields@, i),
    {
        let t = self.types.new_struct_type(name, fields);
        proof {
            old(self).lemma_wf_extended(self);
        }
        t
    }

    /// Declares a function-pointer type.
    pub fn new_function_pointer_type(&mut self, params: Vec<Type>, ret: Type) -> (r: Type)
        requires
            old(self).wf(),
            old(self).types.has(ret),
            forall|i: int| 0 <= i < params@.len() ==> old(self).types.has(#[trigger] params@[i]),
        ensures
            final(self).wf(),
            old(self).extended_by(final(self)),
            old(self).types_grew(final(self)),
            final(self).types.has(r),
            r.id == old(self).types.infos@.len(),
            final(self).types.kind(r) == (TypeKind::FunctionPtr {
                index: old(self).types.signatures@.len() as usize,
            }),
            final(self).types.signatures@.len() == old(self).types.signatures@.len() + 1,
            final(self).types.signatures@.last().params@ == params@,
            final(self).types.signatures@.last().ret == ret,
    {
        let t = self.types.new_function_pointer_type(params, ret);
        proof {
            old(self).lemma_wf_extended(self);
        }
        t
    }

    /// The signed integer type of the width of the integer type `t`; any
    /// other type is returned without its qualifiers.
    pub fn to_signed(&mut self, t: Type) -> (r: Type)
        requires
            old(self).wf(),
            old(self).types.has(t),
        ensures
            final(self).wf(),
            old(self).extended_by(final(self)),
            old(self).types_grew(final(self)),
            final(self).types.structs@ == old(self).types.structs@,
            final(self).types.signatures@ == old(self).types.signatures@,
            final(self).types.has(r),
            final(self).types.kind(r) == old(self).types.signed_kind(t),
    {
        let t = self.types.to_signed(t);
        proof {
            old(self).lemma_wf_extended(self);
        }
        t
    }

    pub fn get_type(&self, v: RValue) -> (t: Type)
        requires
            self.wf(),
            self.has_value(v),
        ensures
            t == self.type_of(v),
            self.types.has(t),
    {
        proof {
            assert(self.node_ok(v.id as int));
        }
        self.nodes[v.id].ty
    }

    pub fn get_kind(&self, v: RValue) -> (k: NodeKind)
        requires
            self.has_value(v),
        ensures
            k == self.kind_of(v),
    {
        self.nodes[v.id].kind
    }

    /// Whether the value is a storage node, which can be assigned to.
    pub fn as_lvalue(&self, v: RValue) -> (r: Option<LValue>)
        requires
            self.has_value(v),
        ensures
            r is Some <==> self.kind_of(v).is_storage(),
            r is Some ==> r.unwrap().id == v.id && self.has_storage(r.unwrap()),
    {
        match self.nodes[v.id].kind {
            NodeKind::Var { .. } => Some(LValue { id: v.id }),
            NodeKind::Deref { .. } => Some(LValue { id: v.id }),
            NodeKind::ArrayAccess { .. } => Some(LValue { id: v.id }),
            NodeKind::DerefField { .. } => Some(LValue { id: v.id }),
            NodeKind::FieldAccess { .. } => Some(LValue { id: v.id }),
            _ => None,
        }
    }

    fn push(&mut self, kind: NodeKind, ty: Type) -> (id: usize)
        requires
            old(self).wf(),
            old(self).types.has(ty),
            kind.operands_below(old(self).nodes@.len() as int),
            kind.has_list() ==> kind.list() < old(self).lists@.len() && all_below(
                old(self).lists@[kind.list()]@,
                old(self).nodes@.len() as int,
            ),
            kind matches NodeKind::Var { var } ==> var < old(self).vars@.len(),
            kind matches NodeKind::Call { func, .. } ==> func.id < old(self).functions@.len(),
            kind matches NodeKind::FunctionAddress { func } ==> func.id < old(self).functions@.len(),
        ensures
            final(self).wf(),
            old(self).extended_by(final(self)),
            old(self).nodes_grew(final(self)),
            id == old(self).nodes@.len(),
            final(self).nodes@ == old(self).nodes@.push(Node { kind, ty }),
            final(self).types == old(self).types,
            final(self).lists@ == old(self).lists@,
    {
        let id = self.nodes.len();
        self.nodes.push(Node { kind, ty });
        proof {
            assert(self.node_ok(id as int));
            old(self).lemma_wf_extended(self);
        }
        id
    }

    fn push_list(&mut self, list: Vec<RValue>) -> (id: usize)
        requires
            old(self).wf(),
        ensures
            final(self).wf(),
            old(self).extended_by(final(self)),
            old(self).nodes_grew(final(self)),
            id == old(self).lists@.len(),
            final(self).lists@.len() == old(self).lists@.len() + 1,
            final(self).lists@[id as int]@ == list@,
            final(self).nodes@ == old(self).nodes@,
            final(self).types == old(self).types,
    {
        let id = self.lists.len();
        self.lists.push(list);
        proof {
            old(self).lemma_wf_extended(self);
        }
        id
    }

    /// A constant of type `ty` with the value `value`.
    pub fn new_rvalue_from_long(&mut self, ty: Type, value: i64) -> (r: RValue)
        requires
            old(self).wf(),
            old(self).types.has(ty),
        ensures
            final(self).wf(),
            old(self).extended_by(final(self)),
            old(self).nodes_grew(final(self)),
            final(self).types == old(self).types,
            final(self).lists@ == old(self).lists@,
            r.id == old(self).nodes@.len(),
            final(self).nodes@ == old(self).nodes@.push(
                Node { kind: NodeKind::Const { bits: sign_extended(value as int) as u128 }, ty },
            ),
    {
        let bits = extend_sign(value);
        RValue { id: self.push(NodeKind::Const { bits }, ty) }
    }

    /// A constant of type `ty` with the value `value`.
    pub fn new_rvalue_from_int(&mut self, ty: Type, value: i32) -> (r: RValue)
        requires
            old(self).wf(),
            old(self).types.has(ty),
        ensures
            final(self).wf(),
            old(self).extended_by(final(self)),
            old(self).nodes_grew(final(self)),
            final(self).types == old(self).types,
            final(self).lists@ == old(self).lists@,
            r.id == old(self).nodes@.len(),
            final(self).nodes@ == old(self).nodes@.push(
                Node { kind: NodeKind::Const { bits: sign_extended(value as int) as u128 }, ty },
            ),
    {
        self.new_rvalue_from_long(ty, value as i64)
    }

    /// The zero of type `ty`.
    pub fn new_rvalue_zero(&mut self, ty: Type) -> (r: RValue)
        requires
            old(self).wf(),
            old(self).types.has(ty),
        ensures
            final(self).wf(),
            old(self).extended_by(final(self)),
            old(self).nodes_grew(final(self)),
            final(self).types == old(self).types,
            final(self).lists@ == old(self).lists@,
            r.id == old(self).nodes@.len(),
            final(self).nodes@ == old(self).nodes@.push(
                Node { kind: NodeKind::Const { bits: 0 }, ty },
            ),
    {
        RValue { id: self.push(NodeKind::Const { bits: 0 }, ty) }
    }

    /// A constant of type `ty` given by its bits.
    pub fn new_rvalue_from_bits(&mut self, ty: Type, bits: u128) -> (r: RValue)
        requires
            old(self).wf(),
            old(self).types.has(ty),
        ensures
            final(self).wf(),
            old(self).extended_by(final(self)),
            old(self).nodes_grew(final(self)),
            final(self).types == old(self).types,
            final(self).lists@ == old(self).lists@,
            r.id == old(self).nodes@.len(),
            final(self).nodes@ == old(self).nodes@.push(Node { kind: NodeKind::Const { bits }, ty }),
    {
        RValue { id: self.push(NodeKind::Const { bits }, ty) }
    }

    /// The value converted to type `ty`.
    pub fn new_cast(&mut self, value: RValue, ty: Type) -> (r: RValue)
        requires
            old(self).wf(),
            old(self).has_value(value),
            old(self).types.has(ty),
        ensures
            final(self).wf(),
            old(self).extended_by(final(self)),
            old(self).nodes_grew(final(self)),
            final(self).types == old(self).types,
            final(self).lists@ == old(self).lists@,
            r.id == old(self).nodes@.len(),
            final(self).nodes@ == old(self).nodes@.push(
                Node { kind: NodeKind::Cast { value }, ty },
            ),
    {
        RValue { id: self.push(NodeKind::Cast { value }, ty) }
    }

    /// The bits of the value read as type `ty`.
    pub fn new_bitcast(&mut self, value: RValue, ty: Type) -> (r: RValue)
        requires
            old(self).wf(),
            old(self).has_value(value),
            old(self).types.has(ty),
        ensures
            final(self).wf(),
            old(self).extended_by(final(self)),
            old(self).nodes_grew(final(self)),
            final(self).types == old(self).types,
            final(self).lists@ == old(self).lists@,
            r.id == old(self).nodes@.len(),
            final(self).nodes@ == old(self).nodes@.push(
                Node { kind: NodeKind::Bitcast { value }, ty },
            ),
    {
        RValue { id: self.push(NodeKind::Bitcast { value }, ty) }
    }

    pub fn new_unary_op(&mut self, op: UnaryOp, ty: Type, operand: RValue) -> (r: RValue)
        requires
            old(self).wf(),
            old(self).has_value(operand),
            old(self).types.has(ty),
        ensures
            final(self).wf(),
            old(self).extended_by(final(self)),
            old(self).nodes_grew(final(self)),
            final(self).types == old(self).types,
            final(self).lists@ == old(self).lists@,
            r.id == old(self).nodes@.len(),
            final(self).nodes@ == old(self).nodes@.push(
                Node { kind: NodeKind::Unary { op, operand }, ty },
            ),
    {
        RValue { id: self.push(NodeKind::Unary { op, operand }, ty) }
    }

    pub fn new_binary_op(&mut self, op: BinaryOp, ty: Type, lhs: RValue, rhs: RValue) -> (r:
        RValue)
        requires
            old(self).wf(),
            old(self).has_value(lhs),
            old(self).has_value(rhs),
            old(self).types.has(ty),
        ensures
            final(self).wf(),
            old(self).extended_by(final(self)),
            old(self).nodes_grew(final(self)),
            final(self).types == old(self).types,
            final(self).lists@ == old(self).lists@,
            r.id == old(self).nodes@.len(),
            final(self).nodes@ == old(self).nodes@.push(
                Node { kind: NodeKind::Binary { op, lhs, rhs }, ty },
            ),
    {
        RValue { id: self.push(NodeKind::Binary { op, lhs, rhs }, ty) }
    }
}

impl Graph {
    /// The element type of an array or vector type, the pointee of a
    /// pointer type.
    pub open spec fn element_type(&self, t: Type) -> Type {
        match self.types.shape(t) {
            TypeKind::Pointer { pointee } => pointee,
            TypeKind::Array { element, .. } => element,
            TypeKind::Vector { element, .. } => element,
            _ => t,
        }
    }

    /// Whether `t` is a struct type with a field `field`.
    pub open spec fn has_field(&self, t: Type, field: usize) -> bool {
        self.types.shape(t) matches TypeKind::Struct { index } && field
            < self.types.structs@[index as int].fields@.len()
    }

    /// Type of the field `field` of the struct type `t`.
    pub open spec fn field_type(&self, t: Type, field: usize) -> Type {
        self.types.structs@[self.types.shape(t)->Struct_index as int].fields@[field as int]
    }

    /// Return type of the signature of the function-pointer type `t`.
    pub open spec fn pointer_return_type(&self, t: Type) -> Type {
        self.types.signatures@[self.types.shape(t)->FunctionPtr_index as int].ret
    }

    /// Parameter types of the signature of the function-pointer type `t`.
    pub open spec fn pointer_params(&self, t: Type) -> Seq<Type> {
        self.types.signatures@[self.types.shape(t)->FunctionPtr_index as int].params@
    }

    /// The comparison of two values; its type is the boolean type.
    pub fn new_comparison(&mut self, op: ComparisonOp, lhs: RValue, rhs: RValue) -> (r: RValue)
        requires
            old(self).wf(),
            old(self).has_value(lhs),
            old(self).has_value(rhs),
        ensures
            final(self).wf(),
            old(self).extended_by(final(self)),
            old(self).nodes_grew(final(self)),
            r.id == old(self).nodes@.len(),
            final(self).nodes@ == old(self).nodes@.push(
                Node { kind: NodeKind::Comparison { op, lhs, rhs }, ty: final(self).type_of(r) },
            ),
            final(self).lists@ == old(self).lists@,
            final(self).types.kind(final(self).type_of(r)) == TypeKind::Bool,
            final(self).types.structs@ == old(self).types.structs@,
            final(self).types.signatures@ == old(self).types.signatures@,
            forall|t: Type|
                old(self).types.has(t) && old(self).types.kind(t) == TypeKind::Bool ==> final(self).type_of(r) == t && final(self).types == old(self).types,
    {
        proof {
            assert forall|t: Type|
                old(self).types.has(t) && old(self).types.kind(t)
                    == TypeKind::Bool implies old(self).types.find(TypeKind::Bool) == Some(t) by {
                old(self).types.lemma_find_unique(t);
            }
        }
        let ty = self.intern(TypeKind::Bool);
        RValue { id: self.push(NodeKind::Comparison { op, lhs, rhs }, ty) }
    }

    /// The call of `func` on `args`; its type is the return type of `func`.
    pub fn new_call(&mut self, func: Function, args: Vec<RValue>) -> (r: RValue)
        requires
            old(self).wf(),
            old(self).has_function(func),
            forall|k: int| 0 <= k < args@.len() ==> old(self).has_value(#[trigger] args@[k]),
        ensures
            final(self).wf(),
            old(self).extended_by(final(self)),
            old(self).nodes_grew(final(self)),
            final(self).types == old(self).types,
            r.id == old(self).nodes@.len(),
            final(self).nodes@ == old(self).nodes@.push(
                Node {
                    kind: NodeKind::Call { func, args: old(self).lists@.len() as usize },
                    ty: old(self).return_type(func),
                },
            ),
            final(self).lists@.len() == old(self).lists@.len() + 1,
            final(self).list(old(self).lists@.len() as usize) == args@,
    {
        proof {
            assert(self.function_ok(func.id as int));
        }
        let ty = self.functions[func.id].ret;
        let list = self.push_list(args);
        RValue { id: self.push(NodeKind::Call { func, args: list }, ty) }
    }

    /// The call of the routine that `ptr` points to on `args`; its type is
    /// the return type of the pointer's signature.
    pub fn new_call_through_ptr(&mut self, ptr: RValue, args: Vec<RValue>) -> (r: RValue)
        requires
            old(self).wf(),
            old(self).has_value(ptr),
            old(self).types.shape(old(self).type_of(ptr)) is FunctionPtr,
            forall|k: int| 0 <= k < args@.len() ==> old(self).has_value(#[trigger] args@[k]),
        ensures
            final(self).wf(),
            old(self).extended_by(final(self)),
            old(self).nodes_grew(final(self)),
            final(self).types == old(self).types,
            r.id == old(self).nodes@.len(),
            final(self).nodes@ == old(self).nodes@.push(
                Node {
                    kind: NodeKind::CallThroughPtr { ptr, args: old(self).lists@.len() as usize },
                    ty: old(self).pointer_return_type(old(self).type_of(ptr)),
                },
            ),
            final(self).lists@.len() == old(self).lists@.len() + 1,
            final(self).list(old(self).lists@.len() as usize) == args@,
    {
        let t = self.get_type(ptr);
        let sig = self.types.dyncast_function_ptr_type(t).unwrap();
        proof {
            assert(self.types.signature_ok(sig as int));
        }
        let ty = self.types.signatures[sig].ret;
        let list = self.push_list(args);
        RValue { id: self.push(NodeKind::CallThroughPtr { ptr, args: list }, ty) }
    }

    /// The address of the storage; its type is the pointer to the storage's
    /// type.
    pub fn get_address(&mut self, lvalue: LValue) -> (r: RValue)
        requires
            old(self).wf(),
            old(self).has_storage(lvalue),
        ensures
            final(self).wf(),
            old(self).extended_by(final(self)),
            old(self).nodes_grew(final(self)),
            r.id == old(self).nodes@.len(),
            final(self).nodes@ == old(self).nodes@.push(
                Node { kind: NodeKind::AddressOf { lvalue }, ty: final(self).type_of(r) },
            ),
            final(self).lists@ == old(self).lists@,
            final(self).types.kind(final(self).type_of(r)) == (TypeKind::Pointer {
                pointee: old(self).storage_type(lvalue),
            }),
            final(self).types.structs@ == old(self).types.structs@,
            final(self).types.signatures@ == old(self).types.signatures@,
            forall|t: Type|
                old(self).types.has(t) && old(self).types.kind(t) == (TypeKind::Pointer {
                    pointee: old(self).storage_type(lvalue),
                }) ==> final(self).type_of(r) == t && final(self).types == old(self).types,
    {
        let t = self.get_type(lvalue.to_rvalue());
        proof {
            assert forall|p: Type|
                old(self).types.has(p) && old(self).types.kind(p) == (TypeKind::Pointer {
                    pointee: t,
                }) implies old(self).types.find(TypeKind::Pointer { pointee: t }) == Some(p) by {
                old(self).types.lemma_find_unique(p);
            }
        }
        let ty = self.make_pointer(t);
        RValue { id: self.push(NodeKind::AddressOf { lvalue }, ty) }
    }

    /// The storage a pointer points to.
    pub fn dereference(&mut self, ptr: RValue) -> (l: LValue)
        requires
            old(self).wf(),
            old(self).has_value(ptr),
            old(self).types.is_pointer(old(self).type_of(ptr)),
        ensures
            final(self).wf(),
            old(self).extended_by(final(self)),
            old(self).nodes_grew(final(self)),
            final(self).types == old(self).types,
            final(self).lists@ == old(self).lists@,
            l.id == old(self).nodes@.len(),
            final(self).nodes@ == old(self).nodes@.push(
                Node {
                    kind: NodeKind::Deref { ptr },
                    ty: old(self).types.pointee(old(self).type_of(ptr)),
                },
            ),
    {
        let t = self.get_type(ptr);
        let ty = self.types.get_pointee(t).unwrap();
        LValue { id: self.push(NodeKind::Deref { ptr }, ty) }
    }

    /// Type of the field `field` of the struct type `t`.
    pub fn get_field_type(&self, t: Type, field: usize) -> (r: Type)
        requires
            self.wf(),
            self.types.has(t),
            self.has_field(t, field),
        ensures
            r == self.field_type(t, field),
            self.types.has(r),
    {
        let s = self.types.is_struct(t).unwrap();
        proof {
            assert(self.types.struct_ok(s as int));
        }
        self.types.structs[s].fields[field]
    }

    /// Number of fields of the struct type `t`.
    pub fn get_field_count(&self, t: Type) -> (r: usize)
        requires
            self.wf(),
            self.types.has(t),
            self.types.shape(t) is Struct,
        ensures
            r == self.types.structs@[self.types.shape(t)->Struct_index as int].fields@.len(),
    {
        let s = self.types.is_struct(t).unwrap();
        self.types.structs[s].fields.len()
    }

    /// The field `field` of a struct value.
    pub fn access_field(&mut self, aggregate: RValue, field: usize) -> (r: RValue)
        requires
            old(self).wf(),
            old(self).has_value(aggregate),
            old(self).has_field(old(self).type_of(aggregate), field),
        ensures
            final(self).wf(),
            old(self).extended_by(final(self)),
            old(self).nodes_grew(final(self)),
            final(self).types == old(self).types,
            final(self).lists@ == old(self).lists@,
            r.id == old(self).nodes@.len(),
            final(self).nodes@ == old(self).nodes@.push(
                Node {
                    kind: NodeKind::FieldOf { aggregate, field },
                    ty: old(self).field_type(old(self).type_of(aggregate), field),
                },
            ),
    {
        let t = self.get_type(aggregate);
        let ty = self.get_field_type(t, field);
        RValue { id: self.push(NodeKind::FieldOf { aggregate, field }, ty) }
    }

    /// The field `field` of a struct held in storage.
    pub fn lvalue_access_field(&mut self, storage: LValue, field: usize) -> (l: LValue)
        requires
            old(self).wf(),
            old(self).has_storage(storage),
            old(self).has_field(old(self).storage_type(storage), field),
        ensures
            final(self).wf(),
            old(self).extended_by(final(self)),
            old(self).nodes_grew(final(self)),
            final(self).types == old(self).types,
            final(self).lists@ == old(self).lists@,
            l.id == old(self).nodes@.len(),
            final(self).nodes@ == old(self).nodes@.push(
                Node {
                    kind: NodeKind::FieldAccess { storage, field },
                    ty: old(self).field_type(old(self).storage_type(storage), field),
                },
            ),
    {
        let t = self.get_type(storage.to_rvalue());
        let ty = self.get_field_type(t, field);
        LValue { id: self.push(NodeKind::FieldAccess { storage, field }, ty) }
    }

    /// The field `field` of the struct a pointer points to.
    pub fn dereference_field(&mut self, ptr: RValue, field: usize) -> (l: LValue)
        requires
            old(self).wf(),
            old(self).has_value(ptr),
            old(self).types.is_pointer(old(self).type_of(ptr)),
            old(self).has_field(old(self).types.pointee(old(self).type_of(ptr)), field),
        ensures
            final(self).wf(),
            old(self).extended_by(final(self)),
            old(self).nodes_grew(final(self)),
            final(self).types == old(self).types,
            final(self).lists@ == old(self).lists@,
            l.id == old(self).nodes@.len(),
            final(self).nodes@ == old(self).nodes@.push(
                Node {
                    kind: NodeKind::DerefField { ptr, field },
                    ty: old(self).field_type(
                        old(self).types.pointee(old(self).type_of(ptr)),
                        field,
                    ),
                },
            ),
    {
        let t = self.get_type(ptr);
        let s = self.types.get_pointee(t).unwrap();
        let ty = self.get_field_type(s, field);
        LValue { id: self.push(NodeKind::DerefField { ptr, field }, ty) }
    }

    /// The element `index` of an array, or of what a pointer points into.
    pub fn new_array_access(&mut self, base: RValue, index: RValue) -> (l: LValue)
        requires
            old(self).wf(),
            old(self).has_value(base),
            old(self).has_value(index),
            old(self).types.is_pointer(old(self).type_of(base)) || old(self).types.shape(
                old(self).type_of(base),
            ) is Array,
        ensures
            final(self).wf(),
            old(self).extended_by(final(self)),
            old(self).nodes_grew(final(self)),
            final(self).types == old(self).types,
            final(self).lists@ == old(self).lists@,
            l.id == old(self).nodes@.len(),
            final(self).nodes@ == old(self).nodes@.push(
                Node {
                    kind: NodeKind::ArrayAccess { base, index },
                    ty: old(self).element_type(old(self).type_of(base)),
                },
            ),
    {
        let t = self.get_type(base);
        let ty = match self.types.shape_of(t) {
            TypeKind::Pointer { pointee } => pointee,
            TypeKind::Array { element, .. } => element,
            _ => t,
        };
        LValue { id: self.push(NodeKind::ArrayAccess { base, index }, ty) }
    }

    /// The vector of type `ty` made of the given elements.
    pub fn new_rvalue_from_vector(&mut self, ty: Type, elements: Vec<RValue>) -> (r: RValue)
        requires
            old(self).wf(),
            old(self).types.has(ty),
            forall|k: int|
                0 <= k < elements@.len() ==> old(self).has_value(#[trigger] elements@[k]),
        ensures
            final(self).wf(),
            old(self).extended_by(final(self)),
            old(self).nodes_grew(final(self)),
            final(self).types == old(self).types,
            r.id == old(self).nodes@.len(),
            final(self).nodes@ == old(self).nodes@.push(
                Node {
                    kind: NodeKind::VectorLiteral { elements: old(self).lists@.len() as usize },
                    ty,
                },
            ),
            final(self).lists@.len() == old(self).lists@.len() + 1,
            final(self).list(old(self).lists@.len() as usize) == elements@,
    {
        let list = self.push_list(elements);
        RValue { id: self.push(NodeKind::VectorLiteral { elements: list }, ty) }
    }

    /// The vector whose units are picked from `first` and `second` as
    /// `mask` says; its type is that of `first`.
    pub fn new_rvalue_vector_perm(&mut self, first: RValue, second: RValue, mask: RValue) -> (r:
        RValue)
        requires
            old(self).wf(),
            old(self).has_value(first),
            old(self).has_value(second),
            old(self).has_value(mask),
        ensures
            final(self).wf(),
            old(self).extended_by(final(self)),
            old(self).nodes_grew(final(self)),
            final(self).types == old(self).types,
            final(self).lists@ == old(self).lists@,
            r.id == old(self).nodes@.len(),
            final(self).nodes@ == old(self).nodes@.push(
                Node {
                    kind: NodeKind::VectorPerm { first, second, mask },
                    ty: old(self).type_of(first),
                },
            ),
    {
        let ty = self.get_type(first);
        RValue { id: self.push(NodeKind::VectorPerm { first, second, mask }, ty) }
    }
}

impl Graph {
    /// Only the block table may differ from `self`.
    pub open spec fn same_values(&self, later: &Graph) -> bool {
        &&& self.types == later.types
        &&& self.nodes@ == later.nodes@
        &&& self.lists@ == later.lists@
        &&& self.vars@ == later.vars@
        &&& self.functions@ == later.functions@
    }

    /// A variable of type `ty`, local to `func`.
    pub fn new_local(&mut self, func: Function, ty: Type, name: &str) -> (l: LValue)
        requires
            old(self).wf(),
            old(self).has_function(func),
            old(self).types.has(ty),
        ensures
            final(self).wf(),
            old(self).extended_by(final(self)),
            final(self).has_storage(l),
            l.id == old(self).nodes@.len(),
            final(self).nodes@ == old(self).nodes@.push(
                Node { kind: NodeKind::Var { var: old(self).vars@.len() as usize }, ty },
            ),
            final(self).vars@.len() == old(self).vars@.len() + 1,
            prefix_of(old(self).vars@, final(self).vars@),
            final(self).vars@.last().name@ == name@,
            final(self).vars@.last().ty == ty,
            final(self).vars@.last().scope == (Scope::Local { func }),
            final(self).types == old(self).types,
            final(self).lists@ == old(self).lists@,
            final(self).functions@ == old(self).functions@,
            final(self).blocks@ == old(self).blocks@,
            final(self).case_lists@ == old(self).case_lists@,
    {
        let var = self.vars.len();
        self.vars.push(VarDef { name: name.to_owned(), ty, scope: Scope::Local { func } });
        proof {
            assert(self.var_ok(var as int));
            old(self).lemma_wf_extended(self);
        }
        LValue { id: self.push(NodeKind::Var { var }, ty) }
    }

    /// A variable of type `ty` that belongs to no routine.
    pub fn new_global(&mut self, ty: Type, name: &str) -> (l: LValue)
        requires
            old(self).wf(),
            old(self).types.has(ty),
        ensures
            final(self).wf(),
            old(self).extended_by(final(self)),
            final(self).has_storage(l),
            l.id == old(self).nodes@.len(),
            final(self).nodes@ == old(self).nodes@.push(
                Node { kind: NodeKind::Var { var: old(self).vars@.len() as usize }, ty },
            ),
            final(self).vars@.len() == old(self).vars@.len() + 1,
            prefix_of(old(self).vars@, final(self).vars@),
            final(self).vars@.last().name@ == name@,
            final(self).vars@.last().ty == ty,
            final(self).vars@.last().scope == Scope::Global,
            final(self).types == old(self).types,
            final(self).lists@ == old(self).lists@,
            final(self).functions@ == old(self).functions@,
            final(self).blocks@ == old(self).blocks@,
            final(self).case_lists@ == old(self).case_lists@,
    {
        let var = self.vars.len();
        self.vars.push(VarDef { name: name.to_owned(), ty, scope: Scope::Global });
        proof {
            assert(self.var_ok(var as int));
            old(self).lemma_wf_extended(self);
        }
        LValue { id: self.push(NodeKind::Var { var }, ty) }
    }

    /// Declares a routine.
    pub fn new_function(&mut self, name: &str, params: Vec<Type>, ret: Type) -> (f: Function)
        requires
            old(self).wf(),
            old(self).types.has(ret),
            forall|k: int| 0 <= k < params@.len() ==> old(self).types.has(#[trigger] params@[k]),
        ensures
            final(self).wf(),
            old(self).extended_by(final(self)),
            f.id == old(self).functions@.len(),
            final(self).functions@.len() == old(self).functions@.len() + 1,
            prefix_of(old(self).functions@, final(self).functions@),
            final(self).functions@.last().name@ == name@,
            final(self).params(f) == params@,
            final(self).return_type(f) == ret,
            final(self).functions@.last().builtin is None,
            final(self).types == old(self).types,
            final(self).nodes@ == old(self).nodes@,
            final(self).lists@ == old(self).lists@,
            final(self).vars@ == old(self).vars@,
            final(self).blocks@ == old(self).blocks@,
            final(self).case_lists@ == old(self).case_lists@,
    {
        let f = self.functions.len();
        self.functions.push(FunctionDef { name: name.to_owned(), params, ret, builtin: None });
        proof {
            assert(self.function_ok(f as int));
            old(self).lemma_wf_extended(self);
        }
        Function { id: f }
    }

    pub fn get_param_count(&self, f: Function) -> (n: usize)
        requires
            self.has_function(f),
        ensures
            n == self.params(f).len(),
    {
        self.functions[f.id].params.len()
    }

    pub fn get_param_type(&self, f: Function, index: usize) -> (t: Type)
        requires
            self.wf(),
            self.has_function(f),
            index < self.params(f).len(),
        ensures
            t == self.params(f)[index as int],
            self.types.has(t),
    {
        proof {
            assert(self.function_ok(f.id as int));
        }
        self.functions[f.id].params[index]
    }

    pub fn get_return_type(&self, f: Function) -> (t: Type)
        requires
            self.wf(),
            self.has_function(f),
        ensures
            t == self.return_type(f),
            self.types.has(t),
    {
        proof {
            assert(self.function_ok(f.id as int));
        }
        self.functions[f.id].ret
    }

    /// An empty block of the routine `func`.
    pub fn new_block(&mut self, func: Function, name: &str) -> (b: Block)
        requires
            old(self).wf(),
            old(self).has_function(func),
        ensures
            final(self).wf(),
            old(self).extended_by(final(self)),
            old(self).same_values(final(self)),
            b.id == old(self).blocks@.len(),
            final(self).blocks@.len() == old(self).blocks@.len() + 1,
            prefix_of(old(self).blocks@, final(self).blocks@),
            final(self).blocks@.last().name@ == name@,
            final(self).block_function(b) == func,
            final(self).instrs(b) == Seq::<Instr>::empty(),
            final(self).case_lists@ == old(self).case_lists@,
    {
        let b = self.blocks.len();
        self.blocks.push(BlockDef { name: name.to_owned(), func, instrs: Vec::new() });
        proof {
            assert(self.block_ok(b as int));
            old(self).lemma_wf_extended(self);
        }
        Block { id: b }
    }

    /// The routine a block belongs to.
    pub fn get_function(&self, b: Block) -> (f: Function)
        requires
            self.wf(),
            self.has_block(b),
        ensures
            f == self.block_function(b),
            self.has_function(f),
    {
        proof {
            assert(self.block_ok(b.id as int));
        }
        self.blocks[b.id].func
    }

    /// Whether the block has received its terminator.
    pub fn is_closed(&self, b: Block) -> (r: bool)
        requires
            self.has_block(b),
        ensures
            r == self.closed(b),
    {
        let n = self.blocks[b.id].instrs.len();
        if n == 0 {
            false
        } else {
            match self.blocks[b.id].instrs[n - 1] {
                Instr::Eval { .. } => false,
                Instr::Assign { .. } => false,
                _ => true,
            }
        }
    }

    fn append(&mut self, b: Block, instr: Instr)
        requires
            old(self).wf(),
            old(self).has_block(b),
            !old(self).closed(b),
            old(self).instr_ok(instr),
        ensures
            final(self).wf(),
            old(self).extended_by(final(self)),
            old(self).appended(final(self), b, instr),
            final(self).case_lists@ == old(self).case_lists@,
    {
        proof {
            assert(self.block_ok(b.id as int));
        }
        self.blocks[b.id].instrs.push(instr);
        proof {
            let before = old(self).blocks@[b.id as int].instrs@;
            let after = self.blocks@[b.id as int].instrs@;
            assert forall|k: int| 0 <= k < after.len() implies self.instr_ok(
                #[trigger] after[k],
            ) by {
                if k < before.len() {
                    assert(old(self).instr_ok(before[k]));
                }
            }
            assert(ends_once(after)) by {
                assert forall|k: int| 0 <= k < after.len() && (
                #[trigger] after[k]).is_terminator() implies k == after.len() - 1 by {
                    if k < before.len() {
                        assert(before[k].is_terminator());
                    }
                }
            }
            assert(self.block_ok(b.id as int));
            old(self).lemma_wf_extended(self);
        }
    }

    /// Appends the evaluation of `value`, for its effects, to the block.
    pub fn add_eval(&mut self, b: Block, value: RValue)
        requires
            old(self).wf(),
            old(self).has_block(b),
            !old(self).closed(b),
            old(self).has_value(value),
        ensures
            final(self).wf(),
            old(self).extended_by(final(self)),
            old(self).appended(final(self), b, Instr::Eval { value }),
            final(self).case_lists@ == old(self).case_lists@,
    {
        self.append(b, Instr::Eval { value })
    }

    /// Appends the assignment of `value` to `target` to the block.
    pub fn add_assignment(&mut self, b: Block, target: LValue, value: RValue)
        requires
            old(self).wf(),
            old(self).has_block(b),
            !old(self).closed(b),
            old(self).has_storage(target),
            old(self).has_value(value),
        ensures
            final(self).wf(),
            old(self).extended_by(final(self)),
            old(self).appended(final(self), b, Instr::Assign { target, value }),
            final(self).case_lists@ == old(self).case_lists@,
    {
        self.append(b, Instr::Assign { target, value })
    }

    /// Ends the block with a return of no value.
    pub fn end_with_void_return(&mut self, b: Block)
        requires
            old(self).wf(),
            old(self).has_block(b),
            !old(self).closed(b),
        ensures
            final(self).wf(),
            old(self).extended_by(final(self)),
            old(self).appended(final(self), b, Instr::VoidReturn),
            final(self).case_lists@ == old(self).case_lists@,
    {
        self.append(b, Instr::VoidReturn)
    }

    /// Ends the block with a return of `value`.
    pub fn end_with_return(&mut self, b: Block, value: RValue)
        requires
            old(self).wf(),
            old(self).has_block(b),
            !old(self).closed(b),
            old(self).has_value(value),
        ensures
            final(self).wf(),
            old(self).extended_by(final(self)),
            old(self).appended(final(self), b, Instr::Return { value }),
            final(self).case_lists@ == old(self).case_lists@,
    {
        self.append(b, Instr::Return { value })
    }

    /// Ends the block with a jump to `dest`.
    pub fn end_with_jump(&mut self, b: Block, dest: Block)
        requires
            old(self).wf(),
            old(self).has_block(b),
            !old(self).closed(b),
            old(self).has_block(dest),
        ensures
            final(self).wf(),
            old(self).extended_by(final(self)),
            old(self).appended(final(self), b, Instr::Jump { dest }),
            final(self).case_lists@ == old(self).case_lists@,
    {
        self.append(b, Instr::Jump { dest })
    }

    /// Ends the block with a jump to `on_true` where `cond` holds, to
    /// `on_false` where it does not.
    pub fn end_with_conditional(&mut self, b: Block, cond: RValue, on_true: Block, on_false: Block)
        requires
            old(self).wf(),
            old(self).has_block(b),
            !old(self).closed(b),
            old(self).has_value(cond),
            old(self).has_block(on_true),
            old(self).has_block(on_false),
        ensures
            final(self).wf(),
            old(self).extended_by(final(self)),
            old(self).appended(final(self), b, Instr::Conditional { cond, on_true, on_false }),
            final(self).case_lists@ == old(self).case_lists@,
    {
        self.append(b, Instr::Conditional { cond, on_true, on_false })
    }

    /// Ends the block with a switch on `value`: each case sends its values
    /// to its target, every other value goes to `default`.
    pub fn end_with_switch(&mut self, b: Block, value: RValue, default: Block, cases: Vec<Case>)
        requires
            old(self).wf(),
            old(self).has_block(b),
            !old(self).closed(b),
            old(self).has_value(value),
            old(self).has_block(default),
            forall|k: int| 0 <= k < cases@.len() ==> old(self).case_ok(#[trigger] cases@[k]),
        ensures
            final(self).wf(),
            old(self).extended_by(final(self)),
            old(self).appended(
                final(self),
                b,
                Instr::Switch { value, default, cases: old(self).case_lists@.len() as usize },
            ),
            final(self).case_lists@.len() == old(self).case_lists@.len() + 1,
            prefix_of(old(self).case_lists@, final(self).case_lists@),
            final(self).cases(old(self).case_lists@.len() as usize) == cases@,
    {
        let list = self.case_lists.len();
        self.case_lists.push(cases);
        proof {
            assert(self.case_list_ok(list as int));
            old(self).lemma_wf_extended(self);
        }
        self.append(b, Instr::Switch { value, default, cases: list })
    }
}

/// A copy of a list of type handles.
pub fn copy_types(v: &Vec<Type>) -> (r: Vec<Type>)
    ensures
        r@ == v@,
{
    let mut r: Vec<Type> = Vec::new();
    let mut i: usize = 0;
    while i < v.len()
        invariant
            i <= v@.len(),
            r@ == v@.take(i as int),
        decreases v@.len() - i,
    {
        r.push(v[i]);
        proof {
            assert(v@.take(i as int).push(v@[i as int]) =~= v@.take(i + 1));
        }
        i = i + 1;
    }
    proof {
        assert(v@.take(v@.len() as int) =~= v@);
    }
    r
}

impl Graph {
    /// The address of the routine `func`, a value of a function-pointer
    /// type with the routine's parameter and return types.
    pub fn function_address(&mut self, func: Function) -> (r: RValue)
        requires
            old(self).wf(),
            old(self).has_function(func),
        ensures
            final(self).wf(),
            old(self).extended_by(final(self)),
            old(self).nodes_grew(final(self)),
            r.id == old(self).nodes@.len(),
            final(self).nodes@ == old(self).nodes@.push(
                Node { kind: NodeKind::FunctionAddress { func }, ty: final(self).type_of(r) },
            ),
            final(self).lists@ == old(self).lists@,
            final(self).types.shape(final(self).type_of(r)) is FunctionPtr,
            final(self).pointer_params(final(self).type_of(r)) == old(self).params(func),
            final(self).pointer_return_type(final(self).type_of(r)) == old(self).return_type(func),
    {
        proof {
            assert(self.function_ok(func.id as int));
        }
        let params = copy_types(&self.functions[func.id].params);
        let ret = self.functions[func.id].ret;
        let ty = self.new_function_pointer_type(params, ret);
        let id = self.push(NodeKind::FunctionAddress { func }, ty);
        proof {
            self.types.lemma_strip_plain(ty);
        }
        RValue { id }
    }
}

} // verus!
