//! The emitter: one method per lowering request. Each method adds nodes to
//! the graph and instructions to the block under the cursor, and may move
//! the cursor where it had to synthesize control flow.

use vstd::prelude::*;
use crate::context::CodegenCx;
use crate::graph::{Block, Builtin, Case, Function, Instr, LValue, Node, NodeKind, RValue, Scope};
use crate::layout::{Align, MemFlags};
use crate::naming::{decimal, numbered};
use crate::ops::{BinaryOp, ComparisonOp, IntPredicate, RealPredicate, ToGccComp, UnaryOp};
use crate::types::{prefix_of, Type, TypeKind};

verus! {

pub struct Builder {
    pub cx: CodegenCx,
    /// The cursor: the block that receives the next instruction.
    pub block: Block,
    /// Number of stack slots made so far; gives them distinct names.
    pub stack_var_count: usize,
}

impl Builder {
    /// The context is well formed and the cursor is at one of its blocks.
    #[verifier::opaque]
    pub open spec fn wf(&self) -> bool {
        self.cx.wf() && self.cx.graph.has_block(self.block)
    }

    /// The block under the cursor can receive an instruction.
    pub open spec fn ready(&self) -> bool {
        !self.cx.graph.closed(self.block)
    }

    /// `later` holds everything `self` holds, at the same handles.
    #[verifier::opaque]
    pub open spec fn grew_into(&self, later: &Builder) -> bool {
        self.cx.graph.extended_by(&later.cx.graph)
    }

    /// `later` is well formed, has every type that `self` has, and has the
    /// registrations of `self`.
    pub open spec fn sound(&self, later: &Builder) -> bool {
        &&& later.wf()
        &&& self.cx.graph.types.infos@.len() <= later.cx.graph.types.infos@.len()
        &&& self.cx.same_registries(&later.cx)
    }

    /// The type table of `later` has the entries of `self`'s, no more.
    pub open spec fn same_types(&self, later: &Builder) -> bool {
        later.cx.graph.types == self.cx.graph.types
    }

    /// Cursor and counters are as in `self`.
    pub open spec fn same_cursor(&self, later: &Builder) -> bool {
        &&& later.block == self.block
        &&& later.stack_var_count == self.stack_var_count
        &&& later.cx.return_value_count == self.cx.return_value_count
    }

    /// No block, variable or routine differs from `self`'s.
    pub open spec fn same_code(&self, later: &Builder) -> bool {
        self.cx.graph.same_code(&later.cx.graph)
    }

    /// `later` arises from `self` by adding `node`, whose handle is `r`, and
    /// nothing else.
    pub open spec fn emits(&self, later: &Builder, r: RValue, node: Node) -> bool {
        &&& self.grew_into(later)
        &&& self.sound(later)
        &&& self.same_types(later)
        &&& self.same_cursor(later)
        &&& self.same_code(later)
        &&& later.cx.graph.lists@ == self.cx.graph.lists@
        &&& later.cx.graph.nodes@ == self.cx.graph.nodes@.push(node)
        &&& r.id == self.cx.graph.nodes@.len()
    }

    /// Nothing at all differs from `self`.
    pub open spec fn unchanged(&self, later: &Builder) -> bool {
        &&& self.grew_into(later)
        &&& self.sound(later)
        &&& self.same_types(later)
        &&& self.same_cursor(later)
        &&& self.same_code(later)
        &&& later.cx.graph.lists@ == self.cx.graph.lists@
        &&& later.cx.graph.nodes@ == self.cx.graph.nodes@
    }

    /// The block `b` received `suffix`; every other block that `self` holds
    /// is as it was.
    pub open spec fn block_received(&self, later: &Builder, b: Block, suffix: Seq<Instr>) -> bool {
        &&& later.cx.graph.instrs(b) == self.cx.graph.instrs(b) + suffix
        &&& forall|c: int|
            0 <= c < self.cx.graph.blocks@.len() && c != b.id ==> #[trigger] later.cx.graph.blocks@[c]
                == self.cx.graph.blocks@[c]
    }

    pub open spec fn type_of(&self, v: RValue) -> Type {
        self.cx.graph.type_of(v)
    }

    pub open spec fn has_value(&self, v: RValue) -> bool {
        self.cx.graph.has_value(v)
    }

    pub open spec fn has_type(&self, t: Type) -> bool {
        self.cx.graph.types.has(t)
    }

    /// What well-formedness says of the cursor and of the common types.
    pub proof fn lemma_wf(&self)
        requires
            self.wf(),
        ensures
            self.cx.graph.has_block(self.block),
            self.cx.graph.has_function(self.cx.graph.block_function(self.block)),
            self.cx.types_ok(),
            self.cx.graph.types.wf(),
    {
        reveal(Builder::wf);
        assert(self.cx.graph.block_ok(self.block.id as int));
    }

    /// A held type is the one found for its shape.
    pub proof fn lemma_type_found(&self, t: Type)
        requires
            self.wf(),
            self.has_type(t),
        ensures
            self.cx.graph.types.find(self.cx.graph.types.kind(t)) == Some(t),
    {
        reveal(Builder::wf);
        self.cx.graph.types.lemma_find_unique(t);
    }

    /// A type keeps its handle, its shape and its unqualified form when
    /// the builder goes on.
    pub proof fn lemma_type_kept(&self, later: &Builder, t: Type)
        requires
            self.grew_into(later),
            self.has_type(t),
        ensures
            later.has_type(t),
            later.cx.graph.types.kind(t) == self.cx.graph.types.kind(t),
            later.cx.graph.types.strip(t) == self.cx.graph.types.strip(t),
            later.cx.graph.types.shape(t) == self.cx.graph.types.shape(t),
            later.cx.graph.types.size_of(t) == self.cx.graph.types.size_of(t),
            later.cx.graph.types.sized(t) == self.cx.graph.types.sized(t),
            later.cx.graph.types.is_pointer(t) == self.cx.graph.types.is_pointer(t),
            later.cx.graph.types.pointee(t) == self.cx.graph.types.pointee(t),
    {
        reveal(Builder::grew_into);
        self.cx.graph.types.lemma_strip_extended(&later.cx.graph.types, t);
    }

    /// A builder has gone on to itself.
    pub proof fn lemma_grew_refl(&self)
        ensures
            self.grew_into(self),
    {
        reveal(Builder::grew_into);
    }

    /// A routine stays declared as a builtin when the builder goes on.
    pub proof fn lemma_builtin_kept(&self, later: &Builder, f: Function, b: Builtin)
        requires
            self.grew_into(later),
            self.cx.graph.has_function(f),
            self.cx.graph.declares(f, b),
        ensures
            later.cx.graph.has_function(f),
            later.cx.graph.declares(f, b),
    {
        reveal(Builder::grew_into);
        self.cx.graph.lemma_declares_kept(&later.cx.graph, f, b);
    }

    /// A value keeps its node and its type, and the type its shape, when
    /// the builder goes on.
    pub proof fn lemma_value_kept(&self, later: &Builder, v: RValue)
        requires
            self.wf(),
            self.grew_into(later),
            self.has_value(v),
        ensures
            later.has_value(v),
            later.cx.graph.nodes@[v.id as int] == self.cx.graph.nodes@[v.id as int],
            later.type_of(v) == self.type_of(v),
            self.has_type(self.type_of(v)),
            later.has_type(self.type_of(v)),
            later.cx.graph.types.shape(self.type_of(v)) == self.cx.graph.types.shape(
                self.type_of(v),
            ),
            later.cx.graph.types.strip(self.type_of(v)) == self.cx.graph.types.strip(
                self.type_of(v),
            ),
            later.cx.graph.types.size_of(self.type_of(v)) == self.cx.graph.types.size_of(
                self.type_of(v),
            ),
            later.cx.graph.types.sized(self.type_of(v)) == self.cx.graph.types.sized(
                self.type_of(v),
            ),
            later.cx.graph.types.is_pointer(self.type_of(v)) == self.cx.graph.types.is_pointer(
                self.type_of(v),
            ),
    {
        reveal(Builder::wf);
        self.cx.graph.lemma_typed(v);
        self.lemma_type_kept(later, self.type_of(v));
        reveal(Builder::grew_into);
    }

    /// What has gone on holds the nodes, lists, variables and routines it
    /// held, at the same handles.
    pub proof fn lemma_grew_prefixes(&self, later: &Builder)
        requires
            self.grew_into(later),
        ensures
            prefix_of(self.cx.graph.nodes@, later.cx.graph.nodes@),
            prefix_of(self.cx.graph.lists@, later.cx.graph.lists@),
            prefix_of(self.cx.graph.vars@, later.cx.graph.vars@),
            prefix_of(self.cx.graph.functions@, later.cx.graph.functions@),
            prefix_of(self.cx.graph.case_lists@, later.cx.graph.case_lists@),
            self.cx.graph.blocks@.len() <= later.cx.graph.blocks@.len(),
    {
        reveal(Builder::grew_into);
    }

    /// The pointee of the type of a pointer value is held.
    pub proof fn lemma_pointee_held(&self, v: RValue)
        requires
            self.wf(),
            self.has_value(v),
            self.cx.graph.types.is_pointer(self.type_of(v)),
        ensures
            self.has_type(self.type_of(v)),
            self.has_type(self.pointee_of(v)),
    {
        reveal(Builder::wf);
        self.cx.graph.lemma_typed(v);
        self.cx.graph.types.lemma_pointee_held(self.type_of(v));
    }

    /// A struct type keeps its fields when the builder goes on.
    pub proof fn lemma_field_kept(&self, later: &Builder, t: Type, field: usize)
        requires
            self.wf(),
            self.grew_into(later),
            self.has_type(t),
            self.cx.graph.has_field(t, field),
        ensures
            later.cx.graph.has_field(t, field),
            later.cx.graph.field_type(t, field) == self.cx.graph.field_type(t, field),
    {
        self.lemma_type_kept(later, t);
        reveal(Builder::wf);
        reveal(Builder::grew_into);
        let types = self.cx.graph.types;
        types.lemma_strip_plain(t);
        let u = types.strip(t);
        assert(types.infos@[u.id as int].kind.within(
            u.id as int,
            types.structs.len() as int,
            types.signatures.len() as int,
        ));
        let s = types.shape(t)->Struct_index as int;
        assert(later.cx.graph.types.structs@[s] == types.structs@[s]);
    }

    /// Going on is transitive.
    pub proof fn lemma_grew_trans(&self, mid: &Builder, later: &Builder)
        requires
            self.grew_into(mid),
            mid.grew_into(later),
        ensures
            self.grew_into(later),
    {
        reveal(Builder::grew_into);
    }

    /// Shape of the type under its qualifiers.
    pub fn shape_of(&self, t: Type) -> (k: TypeKind)
        requires
            self.wf(),
            self.has_type(t),
        ensures
            k == self.cx.graph.types.shape(t),
            !k.is_qualifier(),
            k.within(
                self.cx.graph.types.infos.len() as int,
                self.cx.graph.types.structs.len() as int,
                self.cx.graph.types.signatures.len() as int,
            ),
    {
        proof {
            reveal(Builder::wf);
            reveal(Builder::grew_into);
        }
        self.cx.graph.types.shape_of(t)
    }

    /// Type of a value.
    pub fn val_ty(&self, v: RValue) -> (t: Type)
        requires
            self.wf(),
            self.has_value(v),
        ensures
            t == self.type_of(v),
            self.has_type(t),
    {
        proof {
            reveal(Builder::wf);
            reveal(Builder::grew_into);
        }
        self.cx.graph.get_type(v)
    }

    /// A builder whose cursor is at `block`.
    pub fn with_cx(cx: CodegenCx, block: Block) -> (b: Builder)
        requires
            cx.wf(),
            cx.graph.has_block(block),
        ensures
            b.wf(),
            b.cx == cx,
            b.block == block,
            b.stack_var_count == 0,
    {
        proof {
            reveal(Builder::wf);
            reveal(Builder::grew_into);
        }
        Builder { cx, block, stack_var_count: 0 }
    }

    /// A builder whose cursor is at `block`.
    pub fn build(cx: CodegenCx, block: Block) -> (b: Builder)
        requires
            cx.wf(),
            cx.graph.has_block(block),
        ensures
            b.wf(),
            b.cx == cx,
            b.block == block,
            b.stack_var_count == 0,
    {
        Builder::with_cx(cx, block)
    }

    /// The lowering context.
    pub fn cx(&self) -> (cx: &CodegenCx)
        ensures
            *cx == self.cx,
    {
        &self.cx
    }

    /// The block under the cursor.
    pub fn llbb(&self) -> (b: Block)
        ensures
            b == self.block,
    {
        self.block
    }

    /// The routine under construction: the one the cursor's block belongs to.
    pub fn current_func(&self) -> (f: Function)
        requires
            self.wf(),
        ensures
            f == self.cx.graph.block_function(self.block),
            self.cx.graph.has_function(f),
    {
        proof {
            reveal(Builder::wf);
            reveal(Builder::grew_into);
        }
        self.cx.graph.get_function(self.block)
    }

    /// A new, empty block of the routine that `func` is the address of.
    pub fn append_block(cx: &mut CodegenCx, func: RValue, name: &str) -> (b: Block)
        requires
            old(cx).wf(),
            old(cx).graph.has_value(func),
            old(cx).graph.kind_of(func) is FunctionAddress,
        ensures
            final(cx).wf(),
            old(cx).graph.extended_by(&final(cx).graph),
            old(cx).same_registries(final(cx)),
            old(cx).graph.same_values(&final(cx).graph),
            final(cx).return_value_count == old(cx).return_value_count,
            b.id == old(cx).graph.blocks@.len(),
            final(cx).graph.blocks@.len() == old(cx).graph.blocks@.len() + 1,
            prefix_of(old(cx).graph.blocks@, final(cx).graph.blocks@),
            final(cx).graph.blocks@.last().name@ == name@,
            old(cx).graph.kind_of(func) == (NodeKind::FunctionAddress {
                func: final(cx).graph.block_function(b),
            }),
            final(cx).graph.instrs(b) == Seq::<Instr>::empty(),
    {
        proof {
            reveal(Builder::wf);
            reveal(Builder::grew_into);
        }
        let f = cx.rvalue_as_function(func).unwrap();
        let b = cx.graph.new_block(f, name);
        proof {
            old(cx).lemma_grown(cx);
        }
        b
    }

    /// A new, empty block of the routine under construction. The cursor
    /// stays where it is.
    pub fn append_sibling_block(&mut self, name: &str) -> (b: Block)
        requires
            old(self).wf(),
        ensures
            old(self).grew_into(final(self)),
            old(self).sound(final(self)),
            old(self).same_cursor(final(self)),
            old(self).cx.graph.same_values(&final(self).cx.graph),
            b.id == old(self).cx.graph.blocks@.len(),
            final(self).cx.graph.blocks@.len() == old(self).cx.graph.blocks@.len() + 1,
            prefix_of(old(self).cx.graph.blocks@, final(self).cx.graph.blocks@),
            final(self).cx.graph.blocks@.last().name@ == name@,
            final(self).cx.graph.block_function(b) == old(self).cx.graph.block_function(
                old(self).block,
            ),
            final(self).cx.graph.instrs(b) == Seq::<Instr>::empty(),
            final(self).cx.graph.case_lists@ == old(self).cx.graph.case_lists@,
    {
        proof {
            reveal(Builder::wf);
            reveal(Builder::grew_into);
        }
        let func = self.current_func();
        let b = self.cx.graph.new_block(func, name);
        proof {
            old(self).cx.lemma_grown(&self.cx);
        }
        b
    }

    /// Moves the cursor to `block`. The caller sees to it that the block has
    /// not received its terminator where more is to be emitted.
    pub fn switch_to_block(&mut self, block: Block)
        requires
            old(self).wf(),
            old(self).cx.graph.has_block(block),
        ensures
            final(self).wf(),
            final(self).cx == old(self).cx,
            final(self).block == block,
            final(self).stack_var_count == old(self).stack_var_count,
    {
        proof {
            reveal(Builder::wf);
            reveal(Builder::grew_into);
        }
        self.block = block;
    }

    /// `later` arises from `self` by appending `instr` to the block under
    /// the cursor, and nothing else.
    pub open spec fn appends(&self, later: &Builder, instr: Instr) -> bool {
        &&& self.grew_into(later)
        &&& self.sound(later)
        &&& self.same_cursor(later)
        &&& self.cx.graph.appended(&later.cx.graph, self.block, instr)
        &&& later.cx.graph.case_lists@ == self.cx.graph.case_lists@
    }

    /// Appends the assignment of `value` to `lvalue` to the block under the
    /// cursor.
    pub fn assign(&mut self, lvalue: LValue, value: RValue)
        requires
            old(self).wf(),
            old(self).ready(),
            old(self).cx.graph.has_storage(lvalue),
            old(self).has_value(value),
        ensures
            old(self).appends(final(self), Instr::Assign { target: lvalue, value }),
    {
        proof {
            reveal(Builder::wf);
            reveal(Builder::grew_into);
        }
        self.cx.graph.add_assignment(self.block, lvalue, value);
        proof {
            old(self).cx.lemma_grown(&self.cx);
        }
    }

    /// Ends the block under the cursor with a return of no value.
    pub fn ret_void(&mut self)
        requires
            old(self).wf(),
            old(self).ready(),
        ensures
            old(self).appends(final(self), Instr::VoidReturn),
            final(self).cx.graph.closed(final(self).block),
    {
        proof {
            reveal(Builder::wf);
            reveal(Builder::grew_into);
        }
        self.cx.graph.end_with_void_return(self.block);
        proof {
            old(self).cx.lemma_grown(&self.cx);
        }
    }

    /// Ends the block under the cursor with a jump to `dest`.
    pub fn br(&mut self, dest: Block)
        requires
            old(self).wf(),
            old(self).ready(),
            old(self).cx.graph.has_block(dest),
        ensures
            old(self).appends(final(self), Instr::Jump { dest }),
            final(self).cx.graph.closed(final(self).block),
    {
        proof {
            reveal(Builder::wf);
            reveal(Builder::grew_into);
        }
        self.cx.graph.end_with_jump(self.block, dest);
        proof {
            old(self).cx.lemma_grown(&self.cx);
        }
    }

    /// Ends the block under the cursor with a jump to `then_block` where
    /// `cond` holds, to `else_block` where it does not.
    pub fn cond_br(&mut self, cond: RValue, then_block: Block, else_block: Block)
        requires
            old(self).wf(),
            old(self).ready(),
            old(self).has_value(cond),
            old(self).cx.graph.has_block(then_block),
            old(self).cx.graph.has_block(else_block),
        ensures
            old(self).appends(
                final(self),
                Instr::Conditional { cond, on_true: then_block, on_false: else_block },
            ),
            final(self).cx.graph.closed(final(self).block),
    {
        proof {
            reveal(Builder::wf);
            reveal(Builder::grew_into);
        }
        self.cx.graph.end_with_conditional(self.block, cond, then_block, else_block);
        proof {
            old(self).cx.lemma_grown(&self.cx);
        }
    }
}

/// A construct that a front end may ask for and this emitter has no
/// lowering for.
#[derive(Clone, Copy, PartialEq, Eq, Structural, Debug)]
pub enum Unsupported {
    /// Floating arithmetic in a "fast" mode.
    FastMath,
    /// Stack allocation of a size only known when the program runs.
    DynamicAlloca,
    /// Access to the arguments of a variadic routine.
    VaArg,
    /// Extraction of a vector element, or a vector made of one value.
    VectorElement,
    /// Exception handling pads and their switch.
    Unwinding,
    /// Profiling counters.
    InstrProf,
}

impl Unsupported {
    /// Whether the emitter lowers the construct: it lowers none of them.
    /// A request that cannot go on without a result (a value of fast
    /// floating arithmetic, a stack slot of unknown size, an argument of a
    /// variadic routine, an exception pad) asks this of its caller, so
    /// that no input is admitted: the lowering aborts where the request
    /// would be made. The other requests refuse with the construct.
    pub open spec fn is_lowered(self) -> bool {
        false
    }
}

impl Builder {
    /// `later` arises from `self` by adding the nodes `added`, in order;
    /// the type table may have grown, nothing else changed.
    pub open spec fn adds(&self, later: &Builder, added: Seq<Node>) -> bool {
        &&& self.grew_into(later)
        &&& self.sound(later)
        &&& self.same_cursor(later)
        &&& self.same_code(later)
        &&& later.cx.graph.lists@ == self.cx.graph.lists@
        &&& later.cx.graph.nodes@ == self.cx.graph.nodes@ + added
    }

    /// The node of an operator applied to `a` and `b`, of the type `ty`.
    pub open spec fn binary_node(op: BinaryOp, ty: Type, a: RValue, b: RValue) -> Node {
        Node { kind: NodeKind::Binary { op, lhs: a, rhs: b }, ty }
    }

    pub open spec fn unary_node(op: UnaryOp, ty: Type, a: RValue) -> Node {
        Node { kind: NodeKind::Unary { op, operand: a }, ty }
    }

    pub open spec fn cast_node(value: RValue, ty: Type) -> Node {
        Node { kind: NodeKind::Cast { value }, ty }
    }

    pub open spec fn bitcast_node(value: RValue, ty: Type) -> Node {
        Node { kind: NodeKind::Bitcast { value }, ty }
    }

    /// The operator applied to `a` and `b`; the result has the type of `a`.
    pub(crate) fn arith(&mut self, op: BinaryOp, a: RValue, b: RValue) -> (r: RValue)
        requires
            old(self).wf(),
            old(self).has_value(a),
            old(self).has_value(b),
        ensures
            old(self).emits(
                final(self),
                r,
                Self::binary_node(op, old(self).type_of(a), a, b),
            ),
    {
        proof {
            reveal(Builder::wf);
            reveal(Builder::grew_into);
        }
        let ty = self.cx.graph.get_type(a);
        let r = self.cx.graph.new_binary_op(op, ty, a, b);
        proof {
            old(self).cx.lemma_grown(&self.cx);
        }
        r
    }

    /// The operator applied to `a` and `b` in the target's operator form:
    /// the result has the type of `b`.
    pub(crate) fn operator(&mut self, op: BinaryOp, a: RValue, b: RValue) -> (r: RValue)
        requires
            old(self).wf(),
            old(self).has_value(a),
            old(self).has_value(b),
        ensures
            old(self).emits(
                final(self),
                r,
                Self::binary_node(op, old(self).type_of(b), a, b),
            ),
    {
        proof {
            reveal(Builder::wf);
            reveal(Builder::grew_into);
        }
        let ty = self.cx.graph.get_type(b);
        let r = self.cx.graph.new_binary_op(op, ty, a, b);
        proof {
            old(self).cx.lemma_grown(&self.cx);
        }
        r
    }

    /// Integer addition.
    pub fn add(&mut self, a: RValue, b: RValue) -> (r: RValue)
        requires
            old(self).wf(),
            old(self).has_value(a),
            old(self).has_value(b),
        ensures
            old(self).emits(
                final(self),
                r,
                Self::binary_node(BinaryOp::Plus, old(self).type_of(a), a, b),
            ),
    {
        self.arith(BinaryOp::Plus, a, b)
    }

    /// Floating addition.
    pub fn fadd(&mut self, a: RValue, b: RValue) -> (r: RValue)
        requires
            old(self).wf(),
            old(self).has_value(a),
            old(self).has_value(b),
        ensures
            old(self).emits(
                final(self),
                r,
                Self::binary_node(BinaryOp::Plus, old(self).type_of(b), a, b),
            ),
    {
        self.operator(BinaryOp::Plus, a, b)
    }

    /// Integer subtraction.
    pub fn sub(&mut self, a: RValue, b: RValue) -> (r: RValue)
        requires
            old(self).wf(),
            old(self).has_value(a),
            old(self).has_value(b),
        ensures
            old(self).emits(
                final(self),
                r,
                Self::binary_node(BinaryOp::Minus, old(self).type_of(a), a, b),
            ),
    {
        self.arith(BinaryOp::Minus, a, b)
    }

    /// Floating subtraction.
    pub fn fsub(&mut self, a: RValue, b: RValue) -> (r: RValue)
        requires
            old(self).wf(),
            old(self).has_value(a),
            old(self).has_value(b),
        ensures
            old(self).emits(
                final(self),
                r,
                Self::binary_node(BinaryOp::Minus, old(self).type_of(b), a, b),
            ),
    {
        self.operator(BinaryOp::Minus, a, b)
    }

    /// Integer multiplication.
    pub fn mul(&mut self, a: RValue, b: RValue) -> (r: RValue)
        requires
            old(self).wf(),
            old(self).has_value(a),
            old(self).has_value(b),
        ensures
            old(self).emits(
                final(self),
                r,
                Self::binary_node(BinaryOp::Mult, old(self).type_of(a), a, b),
            ),
    {
        self.arith(BinaryOp::Mult, a, b)
    }

    /// Floating multiplication.
    pub fn fmul(&mut self, a: RValue, b: RValue) -> (r: RValue)
        requires
            old(self).wf(),
            old(self).has_value(a),
            old(self).has_value(b),
        ensures
            old(self).emits(
                final(self),
                r,
                Self::binary_node(BinaryOp::Mult, old(self).type_of(b), a, b),
            ),
    {
        self.operator(BinaryOp::Mult, a, b)
    }

    /// Division of unsigned operands. The target has one division; the
    /// operand types carry the signedness.
    pub fn udiv(&mut self, a: RValue, b: RValue) -> (r: RValue)
        requires
            old(self).wf(),
            old(self).has_value(a),
            old(self).has_value(b),
        ensures
            old(self).emits(
                final(self),
                r,
                Self::binary_node(BinaryOp::Divide, old(self).type_of(a), a, b),
            ),
    {
        self.arith(BinaryOp::Divide, a, b)
    }

    /// Division of unsigned operands that the caller knows to be exact.
    /// Nothing is emitted that would detect an inexact one.
    pub fn exactudiv(&mut self, a: RValue, b: RValue) -> (r: RValue)
        requires
            old(self).wf(),
            old(self).has_value(a),
            old(self).has_value(b),
        ensures
            old(self).emits(
                final(self),
                r,
                Self::binary_node(BinaryOp::Divide, old(self).type_of(b), a, b),
            ),
    {
        self.operator(BinaryOp::Divide, a, b)
    }

    /// Division of signed operands.
    pub fn sdiv(&mut self, a: RValue, b: RValue) -> (r: RValue)
        requires
            old(self).wf(),
            old(self).has_value(a),
            old(self).has_value(b),
        ensures
            old(self).emits(
                final(self),
                r,
                Self::binary_node(BinaryOp::Divide, old(self).type_of(a), a, b),
            ),
    {
        self.arith(BinaryOp::Divide, a, b)
    }

    /// Division of signed operands that the caller knows to be exact: the
    /// divisor is first converted to the signed type of the dividend's
    /// width. Nothing is emitted that would detect an inexact division.
    pub fn exactsdiv(&mut self, a: RValue, b: RValue) -> (r: RValue)
        requires
            old(self).wf(),
            old(self).has_value(a),
            old(self).has_value(b),
        ensures
            old(self).adds(
                final(self),
                seq![
                    Self::cast_node(b, final(self).type_of(r)),
                    Self::binary_node(
                        BinaryOp::Divide,
                        final(self).type_of(r),
                        a,
                        RValue { id: old(self).cx.graph.nodes@.len() as usize },
                    ),
                ],
            ),
            r.id == old(self).cx.graph.nodes@.len() + 1,
            final(self).cx.graph.types.kind(final(self).type_of(r)) == old(self).cx.graph.types.signed_kind(old(self).type_of(a)),
    {
        proof {
            reveal(Builder::wf);
            reveal(Builder::grew_into);
        }
        let t = self.cx.graph.get_type(a);
        let typ = self.cx.graph.to_signed(t);
        let b2 = self.cx.graph.new_cast(b, typ);
        let r = self.cx.graph.new_binary_op(BinaryOp::Divide, typ, a, b2);
        proof {
            old(self).cx.lemma_grown(&self.cx);
            assert(self.cx.graph.nodes@ =~= old(self).cx.graph.nodes@ + seq![
                Self::cast_node(b, typ),
                Self::binary_node(BinaryOp::Divide, typ, a, b2),
            ]);
        }
        r
    }

    /// Floating division.
    pub fn fdiv(&mut self, a: RValue, b: RValue) -> (r: RValue)
        requires
            old(self).wf(),
            old(self).has_value(a),
            old(self).has_value(b),
        ensures
            old(self).emits(
                final(self),
                r,
                Self::binary_node(BinaryOp::Divide, old(self).type_of(b), a, b),
            ),
    {
        self.operator(BinaryOp::Divide, a, b)
    }

    /// Remainder of unsigned operands.
    pub fn urem(&mut self, a: RValue, b: RValue) -> (r: RValue)
        requires
            old(self).wf(),
            old(self).has_value(a),
            old(self).has_value(b),
        ensures
            old(self).emits(
                final(self),
                r,
                Self::binary_node(BinaryOp::Modulo, old(self).type_of(a), a, b),
            ),
    {
        self.arith(BinaryOp::Modulo, a, b)
    }

    /// Remainder of signed operands.
    pub fn srem(&mut self, a: RValue, b: RValue) -> (r: RValue)
        requires
            old(self).wf(),
            old(self).has_value(a),
            old(self).has_value(b),
        ensures
            old(self).emits(
                final(self),
                r,
                Self::binary_node(BinaryOp::Modulo, old(self).type_of(a), a, b),
            ),
    {
        self.arith(BinaryOp::Modulo, a, b)
    }

    /// Shift to the left.
    pub fn shl(&mut self, a: RValue, b: RValue) -> (r: RValue)
        requires
            old(self).wf(),
            old(self).has_value(a),
            old(self).has_value(b),
        ensures
            old(self).emits(
                final(self),
                r,
                Self::binary_node(BinaryOp::LShift, old(self).type_of(a), a, b),
            ),
    {
        self.arith(BinaryOp::LShift, a, b)
    }

    /// Shift to the right that fills with zeros.
    pub fn lshr(&mut self, a: RValue, b: RValue) -> (r: RValue)
        requires
            old(self).wf(),
            old(self).has_value(a),
            old(self).has_value(b),
        ensures
            old(self).emits(
                final(self),
                r,
                Self::binary_node(BinaryOp::RShift, old(self).type_of(a), a, b),
            ),
    {
        self.arith(BinaryOp::RShift, a, b)
    }

    /// Shift to the right that keeps the sign. The target has one shift to
    /// the right; it keeps the sign where the operand's type is signed.
    pub fn ashr(&mut self, a: RValue, b: RValue) -> (r: RValue)
        requires
            old(self).wf(),
            old(self).has_value(a),
            old(self).has_value(b),
        ensures
            old(self).emits(
                final(self),
                r,
                Self::binary_node(BinaryOp::RShift, old(self).type_of(a), a, b),
            ),
    {
        self.arith(BinaryOp::RShift, a, b)
    }

    /// Bitwise and.
    pub fn and(&mut self, a: RValue, b: RValue) -> (r: RValue)
        requires
            old(self).wf(),
            old(self).has_value(a),
            old(self).has_value(b),
        ensures
            old(self).emits(
                final(self),
                r,
                Self::binary_node(BinaryOp::BitwiseAnd, old(self).type_of(a), a, b),
            ),
    {
        self.arith(BinaryOp::BitwiseAnd, a, b)
    }

    /// Bitwise or.
    pub fn or(&mut self, a: RValue, b: RValue) -> (r: RValue)
        requires
            old(self).wf(),
            old(self).has_value(a),
            old(self).has_value(b),
        ensures
            old(self).emits(
                final(self),
                r,
                Self::binary_node(BinaryOp::BitwiseOr, old(self).type_of(a), a, b),
            ),
    {
        self.arith(BinaryOp::BitwiseOr, a, b)
    }

    /// Bitwise exclusive or.
    pub fn xor(&mut self, a: RValue, b: RValue) -> (r: RValue)
        requires
            old(self).wf(),
            old(self).has_value(a),
            old(self).has_value(b),
        ensures
            old(self).emits(
                final(self),
                r,
                Self::binary_node(BinaryOp::BitwiseXor, old(self).type_of(a), a, b),
            ),
    {
        self.arith(BinaryOp::BitwiseXor, a, b)
    }

    /// Integer negation.
    pub fn neg(&mut self, a: RValue) -> (r: RValue)
        requires
            old(self).wf(),
            old(self).has_value(a),
        ensures
            old(self).emits(
                final(self),
                r,
                Self::unary_node(UnaryOp::Minus, old(self).type_of(a), a),
            ),
    {
        proof {
            reveal(Builder::wf);
            reveal(Builder::grew_into);
        }
        let ty = self.cx.graph.get_type(a);
        let r = self.cx.graph.new_unary_op(UnaryOp::Minus, ty, a);
        proof {
            old(self).cx.lemma_grown(&self.cx);
        }
        r
    }

    /// Floating negation.
    pub fn fneg(&mut self, a: RValue) -> (r: RValue)
        requires
            old(self).wf(),
            old(self).has_value(a),
        ensures
            old(self).emits(
                final(self),
                r,
                Self::unary_node(UnaryOp::Minus, old(self).type_of(a), a),
            ),
    {
        proof {
            reveal(Builder::wf);
            reveal(Builder::grew_into);
        }
        self.neg(a)
    }

    /// The operator that inverts a value of type `t`: the logical one for
    /// a boolean, the bitwise one for anything else.
    pub open spec fn inversion(&self, t: Type) -> UnaryOp {
        if self.cx.graph.types.shape(t) is Bool {
            UnaryOp::LogicalNegate
        } else {
            UnaryOp::BitwiseNegate
        }
    }

    /// Inversion.
    pub fn not(&mut self, a: RValue) -> (r: RValue)
        requires
            old(self).wf(),
            old(self).has_value(a),
        ensures
            old(self).emits(
                final(self),
                r,
                Self::unary_node(
                    old(self).inversion(old(self).type_of(a)),
                    old(self).type_of(a),
                    a,
                ),
            ),
    {
        proof {
            reveal(Builder::wf);
            reveal(Builder::grew_into);
        }
        let ty = self.cx.graph.get_type(a);
        let op = if self.cx.graph.types.is_bool(ty) {
            UnaryOp::LogicalNegate
        } else {
            UnaryOp::BitwiseNegate
        };
        let r = self.cx.graph.new_unary_op(op, ty, a);
        proof {
            old(self).cx.lemma_grown(&self.cx);
        }
        r
    }

    /// Signed addition that the caller knows not to overflow.
    pub fn unchecked_sadd(&mut self, a: RValue, b: RValue) -> (r: RValue)
        requires
            old(self).wf(),
            old(self).has_value(a),
            old(self).has_value(b),
        ensures
            old(self).emits(
                final(self),
                r,
                Self::binary_node(BinaryOp::Plus, old(self).type_of(b), a, b),
            ),
    {
        self.operator(BinaryOp::Plus, a, b)
    }

    /// Unsigned addition that the caller knows not to overflow.
    pub fn unchecked_uadd(&mut self, a: RValue, b: RValue) -> (r: RValue)
        requires
            old(self).wf(),
            old(self).has_value(a),
            old(self).has_value(b),
        ensures
            old(self).emits(
                final(self),
                r,
                Self::binary_node(BinaryOp::Plus, old(self).type_of(a), a, b),
            ),
    {
        self.arith(BinaryOp::Plus, a, b)
    }

    /// Signed subtraction that the caller knows not to overflow.
    pub fn unchecked_ssub(&mut self, a: RValue, b: RValue) -> (r: RValue)
        requires
            old(self).wf(),
            old(self).has_value(a),
            old(self).has_value(b),
        ensures
            old(self).emits(
                final(self),
                r,
                Self::binary_node(BinaryOp::Minus, old(self).type_of(b), a, b),
            ),
    {
        self.operator(BinaryOp::Minus, a, b)
    }

    /// Unsigned subtraction that the caller knows not to overflow.
    pub fn unchecked_usub(&mut self, a: RValue, b: RValue) -> (r: RValue)
        requires
            old(self).wf(),
            old(self).has_value(a),
            old(self).has_value(b),
        ensures
            old(self).emits(
                final(self),
                r,
                Self::binary_node(BinaryOp::Minus, old(self).type_of(a), a, b),
            ),
    {
        self.arith(BinaryOp::Minus, a, b)
    }

    /// Signed multiplication that the caller knows not to overflow.
    pub fn unchecked_smul(&mut self, a: RValue, b: RValue) -> (r: RValue)
        requires
            old(self).wf(),
            old(self).has_value(a),
            old(self).has_value(b),
        ensures
            old(self).emits(
                final(self),
                r,
                Self::binary_node(BinaryOp::Mult, old(self).type_of(b), a, b),
            ),
    {
        self.operator(BinaryOp::Mult, a, b)
    }

    /// Unsigned multiplication that the caller knows not to overflow.
    pub fn unchecked_umul(&mut self, a: RValue, b: RValue) -> (r: RValue)
        requires
            old(self).wf(),
            old(self).has_value(a),
            old(self).has_value(b),
        ensures
            old(self).emits(
                final(self),
                r,
                Self::binary_node(BinaryOp::Mult, old(self).type_of(b), a, b),
            ),
    {
        self.operator(BinaryOp::Mult, a, b)
    }

    /// Floating addition in a fast mode: not supported.
    /// No input is admitted: the lowering aborts where this would be asked.
    pub fn fadd_fast(&mut self, _lhs: RValue, _rhs: RValue) -> (r: RValue)
        requires
            Unsupported::FastMath.is_lowered(),
    {
        unreached()
    }

    /// Floating subtraction in a fast mode: not supported.
    /// No input is admitted: the lowering aborts where this would be asked.
    pub fn fsub_fast(&mut self, _lhs: RValue, _rhs: RValue) -> (r: RValue)
        requires
            Unsupported::FastMath.is_lowered(),
    {
        unreached()
    }

    /// Floating multiplication in a fast mode: not supported.
    /// No input is admitted: the lowering aborts where this would be asked.
    pub fn fmul_fast(&mut self, _lhs: RValue, _rhs: RValue) -> (r: RValue)
        requires
            Unsupported::FastMath.is_lowered(),
    {
        unreached()
    }

    /// Floating division in a fast mode: not supported.
    /// No input is admitted: the lowering aborts where this would be asked.
    pub fn fdiv_fast(&mut self, _lhs: RValue, _rhs: RValue) -> (r: RValue)
        requires
            Unsupported::FastMath.is_lowered(),
    {
        unreached()
    }

    /// Floating remainder in a fast mode: not supported.
    /// No input is admitted: the lowering aborts where this would be asked.
    pub fn frem_fast(&mut self, _lhs: RValue, _rhs: RValue) -> (r: RValue)
        requires
            Unsupported::FastMath.is_lowered(),
    {
        unreached()
    }
}

impl Builder {
    pub(crate) fn cast(&mut self, value: RValue, dest_ty: Type) -> (r: RValue)
        requires
            old(self).wf(),
            old(self).has_value(value),
            old(self).has_type(dest_ty),
        ensures
            old(self).emits(final(self), r, Self::cast_node(value, dest_ty)),
            final(self).type_of(r) == dest_ty,
    {
        proof {
            reveal(Builder::wf);
            reveal(Builder::grew_into);
        }
        let r = self.cx.graph.new_cast(value, dest_ty);
        proof {
            old(self).cx.lemma_grown(&self.cx);
        }
        r
    }

    /// The integer `value` narrowed to the integer type `dest_ty`.
    pub fn trunc(&mut self, value: RValue, dest_ty: Type) -> (r: RValue)
        requires
            old(self).wf(),
            old(self).has_value(value),
            old(self).has_type(dest_ty),
        ensures
            old(self).emits(final(self), r, Self::cast_node(value, dest_ty)),
            final(self).type_of(r) == dest_ty,
    {
        self.cast(value, dest_ty)
    }

    /// The integer `value` widened, with its sign, to the integer type
    /// `dest_ty`. Where `dest_ty` is a vector type nothing is to be done and
    /// the value itself is returned.
    pub fn sext(&mut self, value: RValue, dest_ty: Type) -> (r: RValue)
        requires
            old(self).wf(),
            old(self).has_value(value),
            old(self).has_type(dest_ty),
        ensures
            old(self).cx.graph.types.is_vector_type(dest_ty) ==> r == value && old(self).unchanged(
                final(self),
            ),
            !old(self).cx.graph.types.is_vector_type(dest_ty) ==> old(self).emits(
                final(self),
                r,
                Self::cast_node(value, dest_ty),
            ) && final(self).type_of(r) == dest_ty,
    {
        proof {
            reveal(Builder::wf);
            reveal(Builder::grew_into);
        }
        if self.cx.graph.types.is_vector(dest_ty) {
            return value;
        }
        self.cast(value, dest_ty)
    }

    /// Whether a widening from `from` to `to` is the widening of a boolean
    /// to its storage type, the signed integer of one byte, for which
    /// nothing is to be done.
    pub open spec fn widens_flag(&self, from: Type, to: Type) -> bool {
        self.cx.graph.types.shape(from) is Bool && self.cx.graph.types.strip(to)
            == self.cx.i8_type
    }

    /// The integer `value` widened to the integer type `dest_typ`. A
    /// boolean that is to become its storage type is returned as it is.
    pub fn zext(&mut self, value: RValue, dest_typ: Type) -> (r: RValue)
        requires
            old(self).wf(),
            old(self).has_value(value),
            old(self).has_type(dest_typ),
        ensures
            old(self).widens_flag(old(self).type_of(value), dest_typ) ==> r == value && old(
                self,
            ).unchanged(final(self)) && *final(self) == *old(self),
            !old(self).widens_flag(old(self).type_of(value), dest_typ) ==> old(self).emits(
                final(self),
                r,
                Self::cast_node(value, dest_typ),
            ) && final(self).type_of(r) == dest_typ,
    {
        proof {
            reveal(Builder::wf);
            reveal(Builder::grew_into);
        }
        let t = self.cx.graph.get_type(value);
        if self.cx.graph.types.is_bool(t) && self.cx.graph.types.unqualified(dest_typ).id
            == self.cx.i8_type.id {
            return value;
        }
        self.cast(value, dest_typ)
    }

    /// The floating `value` converted to the unsigned integer type `dest_ty`.
    pub fn fptoui(&mut self, value: RValue, dest_ty: Type) -> (r: RValue)
        requires
            old(self).wf(),
            old(self).has_value(value),
            old(self).has_type(dest_ty),
        ensures
            old(self).emits(final(self), r, Self::cast_node(value, dest_ty)),
            final(self).type_of(r) == dest_ty,
    {
        self.cast(value, dest_ty)
    }

    /// The floating `value` converted to the signed integer type `dest_ty`.
    pub fn fptosi(&mut self, value: RValue, dest_ty: Type) -> (r: RValue)
        requires
            old(self).wf(),
            old(self).has_value(value),
            old(self).has_type(dest_ty),
        ensures
            old(self).emits(final(self), r, Self::cast_node(value, dest_ty)),
            final(self).type_of(r) == dest_ty,
    {
        self.cast(value, dest_ty)
    }

    /// The unsigned integer `value` converted to the floating type `dest_ty`.
    pub fn uitofp(&mut self, value: RValue, dest_ty: Type) -> (r: RValue)
        requires
            old(self).wf(),
            old(self).has_value(value),
            old(self).has_type(dest_ty),
        ensures
            old(self).emits(final(self), r, Self::cast_node(value, dest_ty)),
            final(self).type_of(r) == dest_ty,
    {
        self.cast(value, dest_ty)
    }

    /// The signed integer `value` converted to the floating type `dest_ty`.
    pub fn sitofp(&mut self, value: RValue, dest_ty: Type) -> (r: RValue)
        requires
            old(self).wf(),
            old(self).has_value(value),
            old(self).has_type(dest_ty),
        ensures
            old(self).emits(final(self), r, Self::cast_node(value, dest_ty)),
            final(self).type_of(r) == dest_ty,
    {
        self.cast(value, dest_ty)
    }

    /// The floating `value` narrowed to the floating type `dest_ty`.
    pub fn fptrunc(&mut self, value: RValue, dest_ty: Type) -> (r: RValue)
        requires
            old(self).wf(),
            old(self).has_value(value),
            old(self).has_type(dest_ty),
        ensures
            old(self).emits(final(self), r, Self::cast_node(value, dest_ty)),
            final(self).type_of(r) == dest_ty,
    {
        self.cast(value, dest_ty)
    }

    /// The floating `value` widened to the floating type `dest_ty`.
    pub fn fpext(&mut self, value: RValue, dest_ty: Type) -> (r: RValue)
        requires
            old(self).wf(),
            old(self).has_value(value),
            old(self).has_type(dest_ty),
        ensures
            old(self).emits(final(self), r, Self::cast_node(value, dest_ty)),
            final(self).type_of(r) == dest_ty,
    {
        self.cast(value, dest_ty)
    }

    /// The bits of `value` read as `dest_ty`, without conversion.
    pub fn bitcast(&mut self, value: RValue, dest_ty: Type) -> (r: RValue)
        requires
            old(self).wf(),
            old(self).has_value(value),
            old(self).has_type(dest_ty),
        ensures
            old(self).emits(final(self), r, Self::bitcast_node(value, dest_ty)),
            final(self).type_of(r) == dest_ty,
    {
        proof {
            reveal(Builder::wf);
            reveal(Builder::grew_into);
        }
        let r = self.cx.graph.new_bitcast(value, dest_ty);
        proof {
            old(self).cx.lemma_grown(&self.cx);
        }
        r
    }

    /// The integer `value` converted to the integer type `dest_typ`, by
    /// truncation or by extension as the widths ask. `_is_signed` speaks of
    /// the value, whose type says the same.
    pub fn intcast(&mut self, value: RValue, dest_typ: Type, _is_signed: bool) -> (r: RValue)
        requires
            old(self).wf(),
            old(self).has_value(value),
            old(self).has_type(dest_typ),
        ensures
            old(self).emits(final(self), r, Self::cast_node(value, dest_typ)),
            final(self).type_of(r) == dest_typ,
    {
        self.cast(value, dest_typ)
    }

    /// The pointer `value` as an integer of type `dest_ty`: its bits are
    /// read as the pointer-sized integer, which is then converted.
    pub fn ptrtoint(&mut self, value: RValue, dest_ty: Type) -> (r: RValue)
        requires
            old(self).wf(),
            old(self).has_value(value),
            old(self).has_type(dest_ty),
        ensures
            old(self).adds(
                final(self),
                seq![
                    Self::bitcast_node(value, old(self).cx.isize_type),
                    Self::cast_node(
                        RValue { id: old(self).cx.graph.nodes@.len() as usize },
                        dest_ty,
                    ),
                ],
            ),
            old(self).same_types(final(self)),
            r.id == old(self).cx.graph.nodes@.len() + 1,
            final(self).type_of(r) == dest_ty,
    {
        proof {
            old(self).lemma_wf();
        }
        let isize_type = self.cx.isize_type;
        let usize_value = self.bitcast(value, isize_type);
        let ghost mid = *self;
        let r = self.intcast(usize_value, dest_ty, false);
        proof {
            old(self).lemma_grew_trans(&mid, self);
            assert(self.cx.graph.nodes@ =~= old(self).cx.graph.nodes@ + seq![
                Self::bitcast_node(value, isize_type),
                Self::cast_node(usize_value, dest_ty),
            ]);
        }
        r
    }

    /// The integer `value` as a pointer of type `dest_ty`: it is converted
    /// to the pointer-sized integer, whose bits are then read as the pointer.
    pub fn inttoptr(&mut self, value: RValue, dest_ty: Type) -> (r: RValue)
        requires
            old(self).wf(),
            old(self).has_value(value),
            old(self).has_type(dest_ty),
        ensures
            old(self).adds(
                final(self),
                seq![
                    Self::cast_node(value, old(self).cx.isize_type),
                    Self::bitcast_node(
                        RValue { id: old(self).cx.graph.nodes@.len() as usize },
                        dest_ty,
                    ),
                ],
            ),
            old(self).same_types(final(self)),
            r.id == old(self).cx.graph.nodes@.len() + 1,
            final(self).type_of(r) == dest_ty,
    {
        proof {
            reveal(Builder::wf);
            reveal(Builder::grew_into);
        }
        proof {
            old(self).lemma_wf();
        }
        let isize_type = self.cx.isize_type;
        let usize_value = self.intcast(value, isize_type, false);
        let ghost mid = *self;
        let r = self.bitcast(usize_value, dest_ty);
        proof {
            old(self).lemma_grew_trans(&mid, self);
            assert(self.cx.graph.nodes@ =~= old(self).cx.graph.nodes@ + seq![
                Self::cast_node(value, isize_type),
                Self::bitcast_node(usize_value, dest_ty),
            ]);
        }
        r
    }

    /// The pointer to the type of `value`, in the type table of `later`.
    pub open spec fn pointer_to_type_of(&self, later: &Builder, value: RValue) -> Type {
        later.cx.graph.types.find(TypeKind::Pointer { pointee: self.type_of(value) }).unwrap()
    }

    /// The nodes that bring `value` to the type `dest_ty`: a conversion
    /// between pointers, a reinterpretation between other types, for a
    /// value that is to become a pointer the way through the pointer-sized
    /// integer and the pointer to the value's own type, and for a pointer
    /// that is to become another value the way through the pointer-sized
    /// integer.
    pub open spec fn pointercast_nodes(&self, later: &Builder, value: RValue, dest_ty: Type) -> Seq<
        Node,
    > {
        let from_pointer = self.cx.graph.types.is_pointer(self.type_of(value));
        let to_pointer = self.cx.graph.types.is_pointer(dest_ty);
        let n = self.cx.graph.nodes@.len() as usize;
        if !from_pointer && to_pointer {
            seq![
                Self::cast_node(value, self.cx.isize_type),
                Self::bitcast_node(RValue { id: n }, self.pointer_to_type_of(later, value)),
                Self::cast_node(RValue { id: (n + 1) as usize }, dest_ty),
            ]
        } else if !from_pointer {
            seq![Self::bitcast_node(value, dest_ty)]
        } else if to_pointer {
            seq![Self::cast_node(value, dest_ty)]
        } else {
            seq![
                Self::bitcast_node(value, self.cx.isize_type),
                Self::cast_node(RValue { id: n }, dest_ty),
            ]
        }
    }

    /// The value as a value of type `dest_ty`, where pointers are involved
    /// or may be. A pointer that is to become a value of another kind goes
    /// through the pointer-sized integer, as in `ptrtoint`.
    pub fn pointercast(&mut self, value: RValue, dest_ty: Type) -> (r: RValue)
        requires
            old(self).wf(),
            old(self).has_value(value),
            old(self).has_type(dest_ty),
        ensures
            old(self).adds(final(self), old(self).pointercast_nodes(final(self), value, dest_ty)),
            old(self).cx.graph.types.is_pointer(old(self).type_of(value)) || !old(
                self,
            ).cx.graph.types.is_pointer(dest_ty) ==> old(self).same_types(final(self)),
            !old(self).cx.graph.types.is_pointer(old(self).type_of(value)) && old(
                self,
            ).cx.graph.types.is_pointer(dest_ty) ==> final(self).has_type(
                old(self).pointer_to_type_of(final(self), value),
            ) && final(self).cx.graph.types.kind(old(self).pointer_to_type_of(final(self), value))
                == (TypeKind::Pointer { pointee: old(self).type_of(value) }),
            final(self).has_value(r),
            r.id == final(self).cx.graph.nodes@.len() - 1,
            final(self).type_of(r) == dest_ty,
    {
        let val_type = self.val_ty(value);
        let from_pointer = self.is_pointer(val_type);
        let to_pointer = self.is_pointer(dest_ty);
        if !from_pointer && to_pointer {
            let via = self.type_handle(TypeKind::Pointer { pointee: val_type });
            let ghost s1 = *self;
            proof {
                old(self).lemma_value_kept(&s1, value);
                old(self).lemma_type_kept(&s1, dest_ty);
            }
            let p = self.inttoptr(value, via);
            let ghost s2 = *self;
            let r = self.cast(p, dest_ty);
            proof {
                old(self).lemma_grew_trans(&s1, &s2);
                old(self).lemma_grew_trans(&s2, self);
                s1.lemma_grew_trans(&s2, self);
                s1.lemma_type_kept(self, via);
                self.lemma_type_found(via);
                assert(self.cx.graph.nodes@ =~= old(self).cx.graph.nodes@ + old(
                    self,
                ).pointercast_nodes(self, value, dest_ty));
            }
            r
        } else if !from_pointer {
            let r = self.bitcast(value, dest_ty);
            proof {
                assert(self.cx.graph.nodes@ =~= old(self).cx.graph.nodes@ + old(
                    self,
                ).pointercast_nodes(self, value, dest_ty));
            }
            r
        } else if to_pointer {
            let r = self.cast(value, dest_ty);
            proof {
                assert(self.cx.graph.nodes@ =~= old(self).cx.graph.nodes@ + old(
                    self,
                ).pointercast_nodes(self, value, dest_ty));
            }
            r
        } else {
            let r = self.ptrtoint(value, dest_ty);
            proof {
                assert(self.cx.graph.nodes@ =~= old(self).cx.graph.nodes@ + old(
                    self,
                ).pointercast_nodes(self, value, dest_ty));
            }
            r
        }
    }

    pub(crate) fn comparison(&mut self, op: ComparisonOp, lhs: RValue, rhs: RValue) -> (r: RValue)
        requires
            old(self).wf(),
            old(self).has_value(lhs),
            old(self).has_value(rhs),
        ensures
            old(self).emits(
                final(self),
                r,
                Node { kind: NodeKind::Comparison { op, lhs, rhs }, ty: old(self).cx.bool_type },
            ),
    {
        proof {
            reveal(Builder::wf);
            reveal(Builder::grew_into);
        }
        let r = self.cx.graph.new_comparison(op, lhs, rhs);
        proof {
            old(self).cx.lemma_grown(&self.cx);
        }
        r
    }

    /// The integer comparison `op` of `lhs` and `rhs`, a boolean.
    pub fn icmp(&mut self, op: IntPredicate, lhs: RValue, rhs: RValue) -> (r: RValue)
        requires
            old(self).wf(),
            old(self).has_value(lhs),
            old(self).has_value(rhs),
        ensures
            old(self).emits(
                final(self),
                r,
                Node {
                    kind: NodeKind::Comparison { op: op.comparison(), lhs, rhs },
                    ty: old(self).cx.bool_type,
                },
            ),
    {
        self.comparison(op.to_gcc_comparison(), lhs, rhs)
    }

    /// The floating comparison `op` of `lhs` and `rhs`, a boolean.
    pub fn fcmp(&mut self, op: RealPredicate, lhs: RValue, rhs: RValue) -> (r: RValue)
        requires
            old(self).wf(),
            old(self).has_value(lhs),
            old(self).has_value(rhs),
            op.has_comparison(),
        ensures
            old(self).emits(
                final(self),
                r,
                Node {
                    kind: NodeKind::Comparison { op: op.comparison(), lhs, rhs },
                    ty: old(self).cx.bool_type,
                },
            ),
    {
        proof {
            reveal(Builder::wf);
            reveal(Builder::grew_into);
        }
        self.comparison(op.to_gcc_comparison(), lhs, rhs)
    }
}

impl Builder {
    /// `later` arises from `self` by adding the nodes `added` and by
    /// appending `suffix` to the block under the cursor. No block was
    /// created and the cursor has not moved.
    pub open spec fn lowers(&self, later: &Builder, added: Seq<Node>, suffix: Seq<Instr>) -> bool {
        &&& self.grew_into(later)
        &&& self.sound(later)
        &&& later.block == self.block
        &&& later.cx.graph.nodes@ == self.cx.graph.nodes@ + added
        &&& later.cx.graph.blocks@.len() == self.cx.graph.blocks@.len()
        &&& self.block_received(later, self.block, suffix)
        &&& later.cx.graph.case_lists@ == self.cx.graph.case_lists@
    }

    /// `later` has one variable more than `self`: a local of the routine
    /// under construction, of type `ty` and named `name`.
    pub open spec fn declares_local(&self, later: &Builder, ty: Type, name: Seq<char>) -> bool {
        &&& later.cx.graph.vars@.len() == self.cx.graph.vars@.len() + 1
        &&& prefix_of(self.cx.graph.vars@, later.cx.graph.vars@)
        &&& later.cx.graph.vars@.last().name@ == name
        &&& later.cx.graph.vars@.last().ty == ty
        &&& later.cx.graph.vars@.last().scope == (Scope::Local {
            func: self.cx.graph.block_function(self.block),
        })
    }

    /// The node of the next variable to be declared, of type `ty`.
    pub open spec fn var_node(&self, ty: Type) -> Node {
        Node { kind: NodeKind::Var { var: self.cx.graph.vars@.len() as usize }, ty }
    }

    pub open spec fn deref_node(ptr: RValue, ty: Type) -> Node {
        Node { kind: NodeKind::Deref { ptr }, ty }
    }

    pub open spec fn const_node(bits: u128, ty: Type) -> Node {
        Node { kind: NodeKind::Const { bits }, ty }
    }

    /// No routine and no list differs from `self`'s.
    pub open spec fn same_routines(&self, later: &Builder) -> bool {
        &&& later.cx.graph.functions@ == self.cx.graph.functions@
        &&& later.cx.graph.lists@ == self.cx.graph.lists@
    }

    /// The `k`-th node after those of `self`.
    pub open spec fn nth(&self, k: int) -> RValue {
        RValue { id: (self.cx.graph.nodes@.len() + k) as usize }
    }

    /// The `k`-th node after those of `self`, as storage.
    pub open spec fn nth_storage(&self, k: int) -> LValue {
        LValue { id: (self.cx.graph.nodes@.len() + k) as usize }
    }

    /// The pointee of the type of the pointer `ptr`.
    pub open spec fn pointee_of(&self, ptr: RValue) -> Type {
        self.cx.graph.types.pointee(self.type_of(ptr))
    }

    /// A local of the routine under construction.
    pub(crate) fn local(&mut self, ty: Type, name: &str) -> (l: LValue)
        requires
            old(self).wf(),
            old(self).has_type(ty),
        ensures
            old(self).grew_into(final(self)),
            old(self).sound(final(self)),
            old(self).same_types(final(self)),
            old(self).same_cursor(final(self)),
            old(self).same_routines(final(self)),
            old(self).declares_local(final(self), ty, name@),
            final(self).cx.graph.nodes@ == old(self).cx.graph.nodes@.push(old(self).var_node(ty)),
            final(self).cx.graph.blocks@ == old(self).cx.graph.blocks@,
            final(self).cx.graph.case_lists@ == old(self).cx.graph.case_lists@,
            l.id == old(self).cx.graph.nodes@.len(),
            final(self).cx.graph.has_storage(l),
    {
        proof {
            reveal(Builder::wf);
            reveal(Builder::grew_into);
        }
        let func = self.current_func();
        let l = self.cx.graph.new_local(func, ty, name);
        proof {
            old(self).cx.lemma_grown(&self.cx);
        }
        l
    }

    /// The lowering of a load through `ptr`: the storage it points to, a
    /// fresh local named after the number of the result, and the
    /// assignment of the first to the second in the block under the
    /// cursor. The local is the result `r`.
    pub open spec fn loaded(&self, later: &Builder, ptr: RValue, r: RValue) -> bool {
        &&& self.lowers(
            later,
            seq![
                Self::deref_node(ptr, self.pointee_of(ptr)),
                self.var_node(self.pointee_of(ptr)),
            ],
            seq![Instr::Assign { target: self.nth_storage(1), value: self.nth(0) }],
        )
        &&& self.same_types(later)
        &&& self.same_routines(later)
        &&& self.declares_local(
            later,
            self.pointee_of(ptr),
            "loadedValue"@ + decimal((self.cx.return_value_count + 1) as nat),
        )
        &&& later.stack_var_count == self.stack_var_count
        &&& later.cx.return_value_count == self.cx.return_value_count + 1
        &&& r == self.nth(1)
    }

    /// The lowering of a store of `val` through `ptr`: its nodes, and the
    /// assignment to the storage behind the aligned pointer in the block
    /// under the cursor. The result `r` is the zero that comes last.
    pub open spec fn stored(&self, later: &Builder, val: RValue, ptr: RValue, align: Align, r: RValue) -> bool {
        &&& self.lowers(
            later,
            self.store_nodes(later, val, ptr, align),
            seq![Instr::Assign { target: self.store_target(val, ptr), value: val }],
        )
        &&& self.same_cursor(later)
        &&& self.same_routines(later)
        &&& later.cx.graph.vars@ == self.cx.graph.vars@
        &&& r.id == later.cx.graph.nodes@.len() - 1
        &&& later.type_of(r) == self.cx.i32_type
        &&& later.cx.graph.types.find(
            TypeKind::Pointer { pointee: self.aligned_store_type(later, val, ptr, align) },
        ) is Some
        &&& self.type_of(ptr) != self.type_of(val) ==> later.cx.graph.types.find(
            TypeKind::Pointer { pointee: self.type_of(val) },
        ) is Some
    }

    /// Reads what `ptr` points to into a fresh local of the block under the
    /// cursor, and returns the local: a value read through a pointer must
    /// not be carried, unread, into a later block.
    pub fn load(&mut self, _ty: Type, ptr: RValue, _align: Align) -> (r: RValue)
        requires
            old(self).wf(),
            old(self).ready(),
            old(self).has_value(ptr),
            old(self).cx.graph.types.is_pointer(old(self).type_of(ptr)),
            old(self).cx.return_value_count < usize::MAX,
        ensures
            old(self).lowers(
                final(self),
                seq![
                    Self::deref_node(ptr, old(self).pointee_of(ptr)),
                    old(self).var_node(old(self).pointee_of(ptr)),
                ],
                seq![Instr::Assign { target: old(self).nth_storage(1), value: old(self).nth(0) }],
            ),
            old(self).same_types(final(self)),
            old(self).same_routines(final(self)),
            old(self).declares_local(
                final(self),
                old(self).pointee_of(ptr),
                "loadedValue"@ + decimal((old(self).cx.return_value_count + 1) as nat),
            ),
            final(self).stack_var_count == old(self).stack_var_count,
            final(self).cx.return_value_count == old(self).cx.return_value_count + 1,
            final(self).ready(),
            r == old(self).nth(1),
            old(self).loaded(final(self), ptr, r),
            final(self).wf(),
            final(self).has_value(r),
            final(self).type_of(r) == old(self).pointee_of(ptr),
    {
        proof {
            reveal(Builder::wf);
            reveal(Builder::grew_into);
        }
        let block = self.block;
        let deref = self.cx.graph.dereference(ptr);
        proof {
            old(self).cx.lemma_grown(&self.cx);
        }
        let value_type = self.cx.graph.get_type(deref.to_rvalue());
        self.cx.return_value_count = self.cx.return_value_count + 1;
        let name = numbered("loadedValue", self.cx.return_value_count);
        let loaded_value = self.local(value_type, name.as_str());
        self.cx.graph.add_assignment(block, loaded_value, deref.to_rvalue());
        proof {
            old(self).cx.lemma_grown(&self.cx);
            assert(self.cx.graph.nodes@ =~= old(self).cx.graph.nodes@ + seq![
                Self::deref_node(ptr, old(self).pointee_of(ptr)),
                old(self).var_node(old(self).pointee_of(ptr)),
            ]);
            assert(self.cx.graph.instrs(block) =~= old(self).cx.graph.instrs(block) + seq![
                Instr::Assign { target: old(self).nth_storage(1), value: old(self).nth(0) },
            ]);
        }
        loaded_value.to_rvalue()
    }
}

impl Builder {
    /// The handle of the type of shape `kind`.
    pub open spec fn type_for(&self, kind: TypeKind) -> Type {
        self.cx.graph.types.find(kind).unwrap()
    }

    /// The handle of the type of pointers to `t`.
    pub open spec fn pointer_to(&self, t: Type) -> Type {
        self.type_for(TypeKind::Pointer { pointee: t })
    }

    /// Reads what `ptr` points to as volatile storage: the pointer is made
    /// a pointer of the volatile-qualified type, and what it points to is
    /// read into a fresh local of the block under the cursor, as every load
    /// is. The local is the result.
    pub fn volatile_load(&mut self, ty: Type, ptr: RValue) -> (r: RValue)
        requires
            old(self).wf(),
            old(self).ready(),
            old(self).has_value(ptr),
            old(self).cx.graph.types.is_pointer(old(self).type_of(ptr)),
            old(self).cx.return_value_count < usize::MAX,
        ensures
            old(self).lowers(
                final(self),
                seq![
                    Self::cast_node(
                        ptr,
                        final(self).type_for(TypeKind::Volatile { inner: old(self).type_of(ptr) }),
                    ),
                    Self::deref_node(old(self).nth(0), old(self).pointee_of(ptr)),
                    old(self).var_node(old(self).pointee_of(ptr)),
                ],
                seq![Instr::Assign { target: old(self).nth_storage(2), value: old(self).nth(1) }],
            ),
            old(self).same_routines(final(self)),
            old(self).declares_local(
                final(self),
                old(self).pointee_of(ptr),
                "loadedValue"@ + decimal((old(self).cx.return_value_count + 1) as nat),
            ),
            final(self).stack_var_count == old(self).stack_var_count,
            final(self).cx.return_value_count == old(self).cx.return_value_count + 1,
            final(self).ready(),
            r == old(self).nth(2),
            final(self).wf(),
            final(self).has_value(r),
            final(self).type_of(r) == old(self).pointee_of(ptr),
    {
        proof {
            old(self).lemma_wf();
            old(self).lemma_pointee_held(ptr);
        }
        let t = self.val_ty(ptr);
        let v = self.type_handle(TypeKind::Volatile { inner: t });
        let ghost s1 = *self;
        proof {
            old(self).lemma_value_kept(&s1, ptr);
            old(self).lemma_type_kept(&s1, t);
            s1.lemma_wf();
            s1.cx.graph.types.lemma_strip_qualified(v);
        }
        let ptr2 = self.cast(ptr, v);
        let ghost s2 = *self;
        proof {
            s1.lemma_type_kept(&s2, v);
            old(self).lemma_grew_trans(&s1, &s2);
        }
        let r = self.load(ty, ptr2, Align { bytes: 1 });
        proof {
            old(self).lemma_grew_trans(&s2, self);
            s1.lemma_grew_trans(&s2, self);
            s1.lemma_type_kept(self, v);
            self.lemma_type_found(v);
            assert(self.cx.graph.nodes@ =~= old(self).cx.graph.nodes@ + seq![
                Self::cast_node(ptr, v),
                Self::deref_node(old(self).nth(0), old(self).pointee_of(ptr)),
                old(self).var_node(old(self).pointee_of(ptr)),
            ]);
        }
        r
    }

    /// The nodes that make `ptr` a pointer to the type of `val`: none where
    /// the types of the two are the same, else one reinterpretation.
    pub open spec fn check_store_nodes(&self, later: &Builder, val: RValue, ptr: RValue) -> Seq<
        Node,
    > {
        if self.type_of(ptr) == self.type_of(val) {
            Seq::<Node>::empty()
        } else {
            seq![Self::bitcast_node(ptr, later.pointer_to(self.type_of(val)))]
        }
    }

    /// The pointer that a store of `val` through `ptr` goes through.
    pub open spec fn store_pointer(&self, val: RValue, ptr: RValue) -> RValue {
        if self.type_of(ptr) == self.type_of(val) {
            ptr
        } else {
            self.nth(0)
        }
    }

    /// Makes `ptr` a pointer to the type of `val`, for a store of `val`.
    pub(crate) fn check_store(&mut self, val: RValue, ptr: RValue) -> (r: RValue)
        requires
            old(self).wf(),
            old(self).has_value(val),
            old(self).has_value(ptr),
        ensures
            old(self).adds(final(self), old(self).check_store_nodes(final(self), val, ptr)),
            r == old(self).store_pointer(val, ptr),
            final(self).has_value(r),
            old(self).type_of(ptr) != old(self).type_of(val) ==> final(self).cx.graph.types.kind(
                final(self).type_of(r),
            ) == (TypeKind::Pointer { pointee: old(self).type_of(val) }),
    {
        proof {
            reveal(Builder::wf);
            reveal(Builder::grew_into);
        }
        let pt = self.cx.graph.get_type(ptr);
        let dest_ptr_ty = self.cx.graph.make_pointer(pt);
        let stored_ty = self.cx.graph.get_type(val);
        let stored_ptr_ty = self.cx.graph.make_pointer(stored_ty);
        proof {
            old(self).cx.lemma_grown(&self.cx);
            self.cx.graph.types.lemma_find_unique(stored_ptr_ty);
            self.cx.graph.types.lemma_find_unique(dest_ptr_ty);
        }
        if dest_ptr_ty == stored_ptr_ty {
            proof {
                assert(self.cx.graph.nodes@ =~= old(self).cx.graph.nodes@ + Seq::<Node>::empty());
            }
            ptr
        } else {
            let r = self.bitcast(ptr, stored_ptr_ty);
            proof {
                self.cx.graph.types.lemma_find_unique(stored_ptr_ty);
                assert(self.cx.graph.nodes@ =~= old(self).cx.graph.nodes@ + seq![
                    Self::bitcast_node(ptr, stored_ptr_ty),
                ]);
            }
            r
        }
    }
}

impl Builder {
    /// The type that a store of `val` through `ptr` writes: the type of
    /// `val` where the pointer had to be reinterpreted, else the pointee.
    pub open spec fn stored_type(&self, val: RValue, ptr: RValue) -> Type {
        if self.type_of(ptr) == self.type_of(val) {
            self.pointee_of(ptr)
        } else {
            self.type_of(val)
        }
    }

    /// The type written by a store of `val` through `ptr`, without its
    /// qualifiers and aligned to `align`.
    pub open spec fn aligned_store_type(
        &self,
        later: &Builder,
        val: RValue,
        ptr: RValue,
        align: Align,
    ) -> Type {
        later.type_for(
            TypeKind::Aligned {
                inner: self.cx.graph.types.strip(self.stored_type(val, ptr)),
                align: align.bytes,
            },
        )
    }

    /// The nodes of a store of `val` through `ptr`: the pointer made a
    /// pointer to the type of `val`, the storage it points to, the pointer
    /// read as a pointer to the aligned type, the storage that one points
    /// to, which the store assigns to, and the zero that is returned.
    pub open spec fn store_nodes(&self, later: &Builder, val: RValue, ptr: RValue, align: Align) -> Seq<
        Node,
    > {
        let first = self.check_store_nodes(later, val, ptr);
        let k = first.len() as int;
        let p = self.store_pointer(val, ptr);
        let a = self.aligned_store_type(later, val, ptr, align);
        first + seq![
            Self::deref_node(p, self.stored_type(val, ptr)),
            Self::bitcast_node(p, later.pointer_to(a)),
            Self::deref_node(self.nth(k + 1), a),
            Self::const_node(0, self.cx.i32_type),
        ]
    }

    /// The storage that a store of `val` through `ptr` assigns to.
    pub open spec fn store_target(&self, val: RValue, ptr: RValue) -> LValue {
        if self.type_of(ptr) == self.type_of(val) {
            self.nth_storage(2)
        } else {
            self.nth_storage(3)
        }
    }

    /// Stores `val` through `ptr`. The target takes no alignment on an
    /// assignment, so the pointer is read as a pointer to the type aligned
    /// to `align` just before. The flags have no effect. The value returned
    /// is a zero for callers that want one.
    #[verifier::rlimit(60)]
    pub fn store_with_flags(&mut self, val: RValue, ptr: RValue, align: Align, _flags: MemFlags) -> (r:
        RValue)
        requires
            old(self).wf(),
            old(self).can_store(val, ptr),
        ensures
            old(self).lowers(
                final(self),
                old(self).store_nodes(final(self), val, ptr, align),
                seq![Instr::Assign { target: old(self).store_target(val, ptr), value: val }],
            ),
            old(self).same_cursor(final(self)),
            old(self).same_routines(final(self)),
            final(self).cx.graph.vars@ == old(self).cx.graph.vars@,
            final(self).ready(),
            final(self).has_value(r),
            r.id == final(self).cx.graph.nodes@.len() - 1,
            final(self).type_of(r) == old(self).cx.i32_type,
            old(self).stored(final(self), val, ptr, align, r),
            final(self).wf(),
    {
        proof {
            reveal(Builder::wf);
            reveal(Builder::grew_into);
        }
        let block = self.block;
        let ptr1 = self.check_store(val, ptr);
        let ghost mid = *self;
        proof {
            old(self).cx.graph.lemma_typed(ptr);
            old(self).cx.graph.lemma_typed(val);
            if old(self).type_of(ptr) == old(self).type_of(val) {
                old(self).cx.graph.types.lemma_strip_extended(
                    &self.cx.graph.types,
                    old(self).type_of(ptr),
                );
            }
        }
        let destination = self.cx.graph.dereference(ptr1);
        let dt = self.cx.graph.get_type(destination.to_rvalue());
        let destination_type = self.cx.graph.types.unqualified(dt);
        proof {
            assert(dt == old(self).stored_type(val, ptr));
            if old(self).type_of(ptr) == old(self).type_of(val) {
                old(self).cx.graph.types.lemma_pointee_held(old(self).type_of(ptr));
            }
            old(self).cx.graph.types.lemma_strip_extended(&self.cx.graph.types, dt);
        }
        let aligned = self.cx.graph.get_aligned(destination_type, align.bytes());
        let aligned_ptr = self.cx.graph.make_pointer(aligned);
        let aligned_destination = self.cx.graph.new_bitcast(ptr1, aligned_ptr);
        let target = self.cx.graph.dereference(aligned_destination);
        self.cx.graph.add_assignment(block, target, val);
        let i32_type = self.cx.i32_type;
        let r = self.cx.graph.new_rvalue_zero(i32_type);
        proof {
            old(self).cx.lemma_grown(&self.cx);
            self.cx.graph.types.lemma_find_unique(aligned);
            self.cx.graph.types.lemma_find_unique(aligned_ptr);
            if old(self).type_of(ptr) != old(self).type_of(val) {
                mid.cx.graph.lemma_typed(ptr1);
                self.cx.graph.types.lemma_find_unique(mid.type_of(ptr1));
            }
            assert(self.cx.graph.nodes@ =~= old(self).cx.graph.nodes@ + old(self).store_nodes(
                self,
                val,
                ptr,
                align,
            ));
            assert(self.cx.graph.instrs(block) =~= old(self).cx.graph.instrs(block) + seq![
                Instr::Assign { target: old(self).store_target(val, ptr), value: val },
            ]);
        }
        r
    }

    /// Stores `val` through `ptr`.
    pub fn store(&mut self, val: RValue, ptr: RValue, align: Align) -> (r: RValue)
        requires
            old(self).wf(),
            old(self).can_store(val, ptr),
        ensures
            old(self).lowers(
                final(self),
                old(self).store_nodes(final(self), val, ptr, align),
                seq![Instr::Assign { target: old(self).store_target(val, ptr), value: val }],
            ),
            old(self).same_cursor(final(self)),
            old(self).same_routines(final(self)),
            final(self).cx.graph.vars@ == old(self).cx.graph.vars@,
            final(self).ready(),
            final(self).has_value(r),
            r.id == final(self).cx.graph.nodes@.len() - 1,
            final(self).type_of(r) == old(self).cx.i32_type,
            old(self).stored(final(self), val, ptr, align, r),
            final(self).wf(),
    {
        self.store_with_flags(val, ptr, align, MemFlags::empty())
    }
}

impl Builder {
    pub open spec fn address_node(lvalue: LValue, ty: Type) -> Node {
        Node { kind: NodeKind::AddressOf { lvalue }, ty }
    }

    pub open spec fn element_node(base: RValue, index: RValue, ty: Type) -> Node {
        Node { kind: NodeKind::ArrayAccess { base, index }, ty }
    }

    /// `later` arises from `self` by adding `node`, whose handle is `r`; the
    /// type table may have grown, nothing else changed.
    pub open spec fn emits_typed(&self, later: &Builder, r: usize, node: Node) -> bool {
        &&& self.grew_into(later)
        &&& self.sound(later)
        &&& self.same_cursor(later)
        &&& self.same_code(later)
        &&& later.cx.graph.lists@ == self.cx.graph.lists@
        &&& later.cx.graph.nodes@ == self.cx.graph.nodes@.push(node)
        &&& r == self.cx.graph.nodes@.len()
        &&& later.cx.graph.types.structs@ == self.cx.graph.types.structs@
        &&& later.cx.graph.types.signatures@ == self.cx.graph.types.signatures@
    }

    /// The storage a pointer points to.
    pub(crate) fn deref(&mut self, ptr: RValue) -> (l: LValue)
        requires
            old(self).wf(),
            old(self).has_value(ptr),
            old(self).cx.graph.types.is_pointer(old(self).type_of(ptr)),
        ensures
            old(self).emits(
                final(self),
                l.read(),
                Self::deref_node(ptr, old(self).pointee_of(ptr)),
            ),
            final(self).cx.graph.has_storage(l),
            final(self).has_type(old(self).pointee_of(ptr)),
    {
        proof {
            reveal(Builder::wf);
            reveal(Builder::grew_into);
        }
        proof {
            old(self).cx.graph.lemma_typed(ptr);
            old(self).cx.graph.types.lemma_pointee_held(old(self).type_of(ptr));
        }
        let l = self.cx.graph.dereference(ptr);
        proof {
            old(self).cx.lemma_grown(&self.cx);
        }
        l
    }

    /// The address of storage.
    pub(crate) fn address(&mut self, lvalue: LValue) -> (r: RValue)
        requires
            old(self).wf(),
            old(self).cx.graph.has_storage(lvalue),
        ensures
            old(self).emits_typed(
                final(self),
                r.id,
                Self::address_node(
                    lvalue,
                    final(self).pointer_to(old(self).cx.graph.storage_type(lvalue)),
                ),
            ),
            final(self).cx.graph.types.kind(final(self).type_of(r)) == (TypeKind::Pointer {
                pointee: old(self).cx.graph.storage_type(lvalue),
            }),
            final(self).cx.graph.types.is_pointer(final(self).type_of(r)),
            final(self).pointee_of(r) == old(self).cx.graph.storage_type(lvalue),
            forall|t: Type|
                old(self).has_type(t) && old(self).cx.graph.types.kind(t) == (TypeKind::Pointer {
                    pointee: old(self).cx.graph.storage_type(lvalue),
                }) ==> old(self).same_types(final(self)),
    {
        proof {
            reveal(Builder::wf);
            reveal(Builder::grew_into);
        }
        let r = self.cx.graph.get_address(lvalue);
        proof {
            old(self).cx.lemma_grown(&self.cx);
            self.cx.graph.lemma_typed(r);
            self.cx.graph.types.lemma_find_unique(self.type_of(r));
        }
        r
    }

    /// The element `index` of an array, or of what a pointer points into.
    pub(crate) fn element(&mut self, base: RValue, index: RValue) -> (l: LValue)
        requires
            old(self).wf(),
            old(self).has_value(base),
            old(self).has_value(index),
            old(self).cx.graph.types.is_pointer(old(self).type_of(base)) || old(
                self,
            ).cx.graph.types.shape(old(self).type_of(base)) is Array,
        ensures
            old(self).emits(
                final(self),
                l.read(),
                Self::element_node(
                    base,
                    index,
                    old(self).cx.graph.element_type(old(self).type_of(base)),
                ),
            ),
            final(self).cx.graph.has_storage(l),
    {
        proof {
            reveal(Builder::wf);
            reveal(Builder::grew_into);
        }
        let l = self.cx.graph.new_array_access(base, index);
        proof {
            old(self).cx.lemma_grown(&self.cx);
        }
        l
    }

    /// A constant of type `ty`.
    pub(crate) fn constant(&mut self, ty: Type, bits: u128) -> (r: RValue)
        requires
            old(self).wf(),
            old(self).has_type(ty),
        ensures
            old(self).emits(final(self), r, Self::const_node(bits, ty)),
    {
        proof {
            reveal(Builder::wf);
            reveal(Builder::grew_into);
        }
        let r = self.cx.graph.new_rvalue_from_bits(ty, bits);
        proof {
            old(self).cx.lemma_grown(&self.cx);
        }
        r
    }

    /// The handle of the type of shape `kind`.
    pub(crate) fn type_handle(&mut self, kind: TypeKind) -> (t: Type)
        requires
            old(self).wf(),
            kind.within(
                old(self).cx.graph.types.infos.len() as int,
                old(self).cx.graph.types.structs.len() as int,
                old(self).cx.graph.types.signatures.len() as int,
            ),
        ensures
            old(self).grew_into(final(self)),
            old(self).sound(final(self)),
            old(self).same_cursor(final(self)),
            old(self).cx.graph.types_grew(&final(self).cx.graph),
            final(self).cx.graph.types.structs@ == old(self).cx.graph.types.structs@,
            final(self).cx.graph.types.signatures@ == old(self).cx.graph.types.signatures@,
            final(self).has_type(t),
            final(self).cx.graph.types.kind(t) == kind,
            final(self).type_for(kind) == t,
            old(self).cx.graph.types.find(kind) is Some ==> old(self).same_types(final(self)),
    {
        proof {
            reveal(Builder::wf);
            reveal(Builder::grew_into);
        }
        let t = self.cx.graph.intern(kind);
        proof {
            old(self).cx.lemma_grown(&self.cx);
            self.cx.graph.types.lemma_find_unique(t);
        }
        t
    }

    /// The type a stack slot for a value of type `ty` gets: the type
    /// aligned to `align`, but for the 128-bit integers, which are left as
    /// they are.
    pub open spec fn slot_type(&self, later: &Builder, ty: Type, align: Align) -> Type {
        if ty == self.cx.u128_type || ty == self.cx.i128_type {
            ty
        } else {
            later.type_for(TypeKind::Aligned { inner: ty, align: align.bytes })
        }
    }

    /// A stack slot for a value of type `ty`, aligned to `align`: a fresh
    /// local of the routine under construction. The result is its address.
    pub fn alloca(&mut self, ty: Type, align: Align) -> (r: RValue)
        requires
            old(self).wf(),
            old(self).has_type(ty),
            old(self).stack_var_count < usize::MAX,
        ensures
            old(self).grew_into(final(self)),
            old(self).sound(final(self)),
            final(self).block == old(self).block,
            final(self).cx.return_value_count == old(self).cx.return_value_count,
            final(self).stack_var_count == old(self).stack_var_count + 1,
            old(self).same_routines(final(self)),
            final(self).cx.graph.blocks@ == old(self).cx.graph.blocks@,
            final(self).cx.graph.case_lists@ == old(self).cx.graph.case_lists@,
            old(self).declares_local(
                final(self),
                old(self).slot_type(final(self), ty, align),
                "stack_var_"@ + decimal((old(self).stack_var_count + 1) as nat),
            ),
            final(self).cx.graph.nodes@ == old(self).cx.graph.nodes@ + seq![
                old(self).var_node(old(self).slot_type(final(self), ty, align)),
                Self::address_node(
                    old(self).nth_storage(0),
                    final(self).pointer_to(old(self).slot_type(final(self), ty, align)),
                ),
            ],
            r == old(self).nth(1),
    {
        proof {
            reveal(Builder::wf);
            reveal(Builder::grew_into);
        }
        let aligned_type = if ty == self.cx.u128_type || ty == self.cx.i128_type {
            ty
        } else {
            self.type_handle(TypeKind::Aligned { inner: ty, align: align.bytes() })
        };
        self.stack_var_count = self.stack_var_count + 1;
        let name = numbered("stack_var_", self.stack_var_count);
        let ghost before = *self;
        let slot = self.local(aligned_type, name.as_str());
        let r = self.address(slot);
        proof {
            if !(ty == self.cx.u128_type || ty == self.cx.i128_type) {
                before.cx.graph.types.lemma_find_unique(aligned_type);
                before.cx.graph.types.lemma_strip_extended(&self.cx.graph.types, aligned_type);
                self.cx.graph.types.lemma_find_unique(aligned_type);
            }
            assert(self.cx.graph.nodes@ =~= old(self).cx.graph.nodes@ + seq![
                old(self).var_node(aligned_type),
                Self::address_node(slot, self.pointer_to(aligned_type)),
            ]);
        }
        r
    }

    /// The address reached from `ptr` by indexing with each of `indices`
    /// in turn: each step takes the address of an element.
    pub fn gep(&mut self, _typ: Type, ptr: RValue, indices: &[RValue]) -> (r: RValue)
        requires
            old(self).wf(),
            old(self).can_index(ptr, indices@),
        ensures
            old(self).grew_into(final(self)),
            old(self).sound(final(self)),
            old(self).same_cursor(final(self)),
            old(self).same_code(final(self)),
            final(self).cx.graph.lists@ == old(self).cx.graph.lists@,
            final(self).cx.graph.nodes@.len() == old(self).cx.graph.nodes@.len() + 2
                * indices@.len(),
            forall|k: int|
                0 <= k < indices@.len() ==> (#[trigger] final(self).cx.graph.kind_of(
                    old(self).nth(2 * k),
                )) == (NodeKind::ArrayAccess {
                    base: if k == 0 {
                        ptr
                    } else {
                        old(self).nth(2 * k - 1)
                    },
                    index: indices@[k],
                }),
            forall|k: int|
                0 <= k < indices@.len() ==> (#[trigger] final(self).cx.graph.kind_of(
                    old(self).nth(2 * k + 1),
                )) == (NodeKind::AddressOf { lvalue: old(self).nth_storage(2 * k) }),
            r == if indices@.len() == 0 {
                ptr
            } else {
                old(self).nth(2 * indices@.len() - 1)
            },
            final(self).has_value(r),
    {
        proof {
            reveal(Builder::wf);
            reveal(Builder::grew_into);
        }
        let mut result = ptr;
        let mut i: usize = 0;
        while i < indices.len()
            invariant
                i <= indices@.len(),
                old(self).wf(),
                old(self).has_value(ptr),
                forall|k: int|
                    0 <= k < indices@.len() ==> old(self).has_value(#[trigger] indices@[k]),
                old(self).grew_into(self),
                old(self).sound(self),
                old(self).same_cursor(self),
                old(self).same_code(self),
                self.cx.graph.lists@ == old(self).cx.graph.lists@,
                self.cx.graph.nodes@.len() == old(self).cx.graph.nodes@.len() + 2 * i,
                forall|k: int|
                    0 <= k < i ==> (#[trigger] self.cx.graph.kind_of(old(self).nth(2 * k))) == (
                    NodeKind::ArrayAccess {
                        base: if k == 0 {
                            ptr
                        } else {
                            old(self).nth(2 * k - 1)
                        },
                        index: indices@[k],
                    }),
                forall|k: int|
                    0 <= k < i ==> (#[trigger] self.cx.graph.kind_of(old(self).nth(2 * k + 1))) == (
                    NodeKind::AddressOf { lvalue: old(self).nth_storage(2 * k) }),
                result == if i == 0 {
                    ptr
                } else {
                    old(self).nth(2 * i - 1)
                },
                self.has_value(result),
                i < indices@.len() ==> self.cx.graph.types.is_pointer(self.type_of(result))
                    || self.cx.graph.types.shape(self.type_of(result)) is Array,
            decreases indices@.len() - i,
        {
            let ghost before = *self;
            let index = indices[i];
            let e = self.element(result, index);
            let ghost mid = *self;
            let a = self.address(e);
            proof {
                before.lemma_grew_trans(&mid, self);
                old(self).lemma_grew_trans(&before, self);
                assert forall|k: int| 0 <= k < i + 1 implies (#[trigger] self.cx.graph.kind_of(
                    old(self).nth(2 * k),
                )) == (NodeKind::ArrayAccess {
                    base: if k == 0 {
                        ptr
                    } else {
                        old(self).nth(2 * k - 1)
                    },
                    index: indices@[k],
                }) by {
                    if k < i {
                        assert(self.cx.graph.kind_of(old(self).nth(2 * k))
                            == before.cx.graph.kind_of(old(self).nth(2 * k)));
                    }
                }
                assert forall|k: int| 0 <= k < i + 1 implies (#[trigger] self.cx.graph.kind_of(
                    old(self).nth(2 * k + 1),
                )) == (NodeKind::AddressOf { lvalue: old(self).nth_storage(2 * k) }) by {
                    if k < i {
                        assert(self.cx.graph.kind_of(old(self).nth(2 * k + 1))
                            == before.cx.graph.kind_of(old(self).nth(2 * k + 1)));
                    }
                }
            }
            result = a;
            i = i + 1;
        }
        result
    }
}

impl Builder {
    pub open spec fn deref_field_node(ptr: RValue, field: usize, ty: Type) -> Node {
        Node { kind: NodeKind::DerefField { ptr, field }, ty }
    }

    /// The field `field` of the struct a pointer points to.
    pub(crate) fn deref_field(&mut self, ptr: RValue, field: usize) -> (l: LValue)
        requires
            old(self).wf(),
            old(self).has_value(ptr),
            old(self).cx.graph.types.is_pointer(old(self).type_of(ptr)),
            old(self).cx.graph.has_field(old(self).pointee_of(ptr), field),
        ensures
            old(self).emits(
                final(self),
                l.read(),
                Self::deref_field_node(
                    ptr,
                    field,
                    old(self).cx.graph.field_type(old(self).pointee_of(ptr), field),
                ),
            ),
            final(self).cx.graph.has_storage(l),
    {
        proof {
            reveal(Builder::wf);
            reveal(Builder::grew_into);
        }
        let l = self.cx.graph.dereference_field(ptr, field);
        proof {
            old(self).cx.lemma_grown(&self.cx);
        }
        l
    }

    /// The nodes of an address computation with one index, into what `ptr`
    /// points into, or with two, the second into the array that `ptr`
    /// points to.
    pub open spec fn inbounds_gep_nodes(&self, later: &Builder, ptr: RValue, indices: Seq<RValue>) -> Seq<
        Node,
    > {
        let t = self.type_of(ptr);
        if indices.len() == 1 {
            let e = self.cx.graph.element_type(t);
            seq![
                Self::element_node(ptr, indices[0], e),
                Self::address_node(self.nth_storage(0), later.pointer_to(e)),
            ]
        } else {
            let p = self.pointee_of(ptr);
            let e = self.cx.graph.element_type(p);
            seq![
                Self::deref_node(ptr, p),
                Self::element_node(self.nth(0), indices[1], e),
                Self::address_node(self.nth_storage(1), later.pointer_to(e)),
            ]
        }
    }

    /// The address of an element that the caller knows to lie within the
    /// object: with one index the element of what `ptr` points into, with
    /// two the element, at the second index, of the array `ptr` points to.
    /// The first of two indices is not looked at.
    pub fn inbounds_gep(&mut self, _typ: Type, ptr: RValue, indices: &[RValue]) -> (r: RValue)
        requires
            old(self).wf(),
            old(self).can_index_within(ptr, indices@),
        ensures
            old(self).adds(final(self), old(self).inbounds_gep_nodes(final(self), ptr, indices@)),
            r.id == final(self).cx.graph.nodes@.len() - 1,
            final(self).has_value(r),
            final(self).cx.graph.types.is_pointer(final(self).type_of(r)),
    {
        proof {
            old(self).lemma_wf();
        }
        if indices.len() == 1 {
            let e = self.element(ptr, indices[0]);
            let ghost s1 = *self;
            let r = self.address(e);
            proof {
                old(self).lemma_grew_trans(&s1, self);
                assert(self.cx.graph.nodes@ =~= old(self).cx.graph.nodes@ + old(
                    self,
                ).inbounds_gep_nodes(self, ptr, indices@));
            }
            r
        } else {
            proof {
                old(self).lemma_pointee_held(ptr);
            }
            let array = self.deref(ptr);
            let ghost s1 = *self;
            proof {
                old(self).lemma_value_kept(&s1, indices@[1]);
                old(self).lemma_type_kept(&s1, old(self).pointee_of(ptr));
            }
            let e = self.element(array.to_rvalue(), indices[1]);
            let ghost s2 = *self;
            let r = self.address(e);
            proof {
                old(self).lemma_grew_trans(&s1, &s2);
                old(self).lemma_grew_trans(&s2, self);
                assert(self.cx.graph.nodes@ =~= old(self).cx.graph.nodes@ + old(
                    self,
                ).inbounds_gep_nodes(self, ptr, indices@));
            }
            r
        }
    }

    /// The nodes of the address of member `idx` of what `ptr` points to,
    /// where that is of the type `value_type`: an element of an array, a
    /// unit of a vector reached through a pointer to its element type, or
    /// a field of a struct. The storage `ptr` points to comes first in
    /// every case.
    pub open spec fn struct_gep_nodes(&self, later: &Builder, value_type: Type, ptr: RValue, idx: u64) -> Seq<
        Node,
    > {
        let p = self.pointee_of(ptr);
        let first = Self::deref_node(ptr, p);
        match self.cx.graph.types.shape(value_type) {
            TypeKind::Array { .. } => {
                let e = self.cx.graph.element_type(p);
                seq![
                    first,
                    Self::const_node(idx as u128, self.cx.u64_type),
                    Self::element_node(self.nth(0), self.nth(1), e),
                    Self::address_node(self.nth_storage(2), later.pointer_to(e)),
                ]
            },
            TypeKind::Vector { element, .. } => seq![
                first,
                Self::bitcast_node(ptr, later.pointer_to(element)),
                Self::const_node(idx as u128, self.cx.u64_type),
                Self::element_node(self.nth(1), self.nth(2), element),
                Self::address_node(self.nth_storage(3), later.pointer_to(element)),
            ],
            _ => {
                let f = self.cx.graph.field_type(p, idx as usize);
                seq![
                    first,
                    Self::deref_field_node(ptr, idx as usize, f),
                    Self::address_node(self.nth_storage(1), later.pointer_to(f)),
                ]
            },
        }
    }

    /// The address of member `idx` of what `ptr` points to, which is of
    /// the type `value_type`: an array, a vector or a struct. No other
    /// type has members to address.
    pub fn struct_gep(&mut self, value_type: Type, ptr: RValue, idx: u64) -> (r: RValue)
        requires
            old(self).wf(),
            old(self).can_address_member(value_type, ptr, idx),
        ensures
            old(self).adds(
                final(self),
                old(self).struct_gep_nodes(final(self), value_type, ptr, idx),
            ),
            r.id == final(self).cx.graph.nodes@.len() - 1,
            final(self).has_value(r),
            final(self).cx.graph.types.is_pointer(final(self).type_of(r)),
    {
        proof {
            old(self).lemma_wf();
        }
        match self.shape_of(value_type) {
            TypeKind::Array { .. } => self.array_member(value_type, ptr, idx),
            TypeKind::Vector { element, .. } => self.vector_member(value_type, ptr, idx, element),
            _ => self.struct_member(value_type, ptr, idx),
        }
    }

    pub(crate) fn array_member(&mut self, value_type: Type, ptr: RValue, idx: u64) -> (r: RValue)
        requires
            old(self).wf(),
            old(self).has_value(ptr),
            old(self).cx.graph.types.is_pointer(old(self).type_of(ptr)),
            old(self).cx.graph.types.shape(value_type) is Array,
            old(self).cx.graph.types.is_pointer(old(self).pointee_of(ptr)) || old(
                self,
            ).cx.graph.types.shape(old(self).pointee_of(ptr)) is Array,
        ensures
            old(self).adds(
                final(self),
                old(self).struct_gep_nodes(final(self), value_type, ptr, idx),
            ),
            r.id == final(self).cx.graph.nodes@.len() - 1,
            final(self).has_value(r),
            final(self).cx.graph.types.is_pointer(final(self).type_of(r)),
    {
        proof {
            old(self).lemma_wf();
        }
        let value = self.deref(ptr).to_rvalue();
        let ghost s1 = *self;
        let u64_type = self.cx.u64_type;
        let index = self.constant(u64_type, idx as u128);
        let ghost s2 = *self;
        let e = self.element(value, index);
        let ghost s3 = *self;
        let r = self.address(e);
        proof {
            old(self).lemma_grew_trans(&s1, &s2);
            old(self).lemma_grew_trans(&s2, &s3);
            old(self).lemma_grew_trans(&s3, self);
            assert(self.cx.graph.nodes@ =~= old(self).cx.graph.nodes@ + old(self).struct_gep_nodes(
                self,
                value_type,
                ptr,
                idx,
            ));
        }
        r
    }

    pub(crate) fn vector_member(&mut self, value_type: Type, ptr: RValue, idx: u64, element: Type) -> (r:
        RValue)
        requires
            old(self).wf(),
            old(self).has_value(ptr),
            old(self).has_type(element),
            old(self).cx.graph.types.is_pointer(old(self).type_of(ptr)),
            old(self).cx.graph.types.shape(value_type) is Vector,
            old(self).cx.graph.types.shape(value_type)->Vector_element == element,
        ensures
            old(self).adds(
                final(self),
                old(self).struct_gep_nodes(final(self), value_type, ptr, idx),
            ),
            r.id == final(self).cx.graph.nodes@.len() - 1,
            final(self).has_value(r),
            final(self).cx.graph.types.is_pointer(final(self).type_of(r)),
    {
        proof {
            old(self).lemma_wf();
        }
        let value = self.deref(ptr).to_rvalue();
        let ghost s1 = *self;
        let u64_type = self.cx.u64_type;
        let array_type = self.type_handle(TypeKind::Pointer { pointee: element });
        let ghost s2 = *self;
        let array = self.bitcast(ptr, array_type);
        let ghost s3 = *self;
        let index = self.constant(u64_type, idx as u128);
        let ghost s4 = *self;
        let e = self.element(array, index);
        let ghost s5 = *self;
        let r = self.address(e);
        proof {
            old(self).lemma_grew_trans(&s1, &s2);
            old(self).lemma_grew_trans(&s2, &s3);
            old(self).lemma_grew_trans(&s3, &s4);
            old(self).lemma_grew_trans(&s4, &s5);
            old(self).lemma_grew_trans(&s5, self);
            s2.lemma_grew_trans(&s3, &s4);
            s2.lemma_grew_trans(&s4, &s5);
            s2.lemma_grew_trans(&s5, self);
            s2.lemma_type_kept(self, array_type);
            self.lemma_type_found(array_type);
            assert(self.cx.graph.nodes@ =~= old(self).cx.graph.nodes@ + old(self).struct_gep_nodes(
                self,
                value_type,
                ptr,
                idx,
            ));
        }
        r
    }

    pub(crate) fn struct_member(&mut self, value_type: Type, ptr: RValue, idx: u64) -> (r: RValue)
        requires
            old(self).wf(),
            old(self).has_value(ptr),
            old(self).cx.graph.types.is_pointer(old(self).type_of(ptr)),
            old(self).cx.graph.types.shape(value_type) is Struct,
            idx <= usize::MAX,
            old(self).cx.graph.has_field(old(self).pointee_of(ptr), idx as usize),
        ensures
            old(self).adds(
                final(self),
                old(self).struct_gep_nodes(final(self), value_type, ptr, idx),
            ),
            r.id == final(self).cx.graph.nodes@.len() - 1,
            final(self).has_value(r),
            final(self).cx.graph.types.is_pointer(final(self).type_of(r)),
    {
        let value = self.deref(ptr).to_rvalue();
        let ghost s1 = *self;
        let f = self.deref_field(ptr, idx as usize);
        let ghost s2 = *self;
        let r = self.address(f);
        proof {
            old(self).lemma_grew_trans(&s1, &s2);
            old(self).lemma_grew_trans(&s2, self);
            assert(self.cx.graph.nodes@ =~= old(self).cx.graph.nodes@ + old(self).struct_gep_nodes(
                self,
                value_type,
                ptr,
                idx,
            ));
        }
        r
    }
}

impl Builder {
    /// `later` arises from `self` by appending `instr` to the block `b`,
    /// and nothing else.
    pub open spec fn appends_in(&self, later: &Builder, b: Block, instr: Instr) -> bool {
        &&& self.grew_into(later)
        &&& self.sound(later)
        &&& self.same_cursor(later)
        &&& self.cx.graph.appended(&later.cx.graph, b, instr)
        &&& later.cx.graph.case_lists@ == self.cx.graph.case_lists@
    }

    /// Appends `instr` to the block `b`, which need not be the one under
    /// the cursor.
    pub(crate) fn emit_in(&mut self, b: Block, instr: Instr)
        requires
            old(self).wf(),
            old(self).cx.graph.has_block(b),
            !old(self).cx.graph.closed(b),
            old(self).cx.graph.instr_ok(instr),
            !(instr is Switch),
        ensures
            old(self).appends_in(final(self), b, instr),
    {
        proof {
            reveal(Builder::wf);
            reveal(Builder::grew_into);
        }
        match instr {
            Instr::Eval { value } => self.cx.graph.add_eval(b, value),
            Instr::Assign { target, value } => self.cx.graph.add_assignment(b, target, value),
            Instr::Return { value } => self.cx.graph.end_with_return(b, value),
            Instr::VoidReturn => self.cx.graph.end_with_void_return(b),
            Instr::Jump { dest } => self.cx.graph.end_with_jump(b, dest),
            Instr::Conditional { cond, on_true, on_false } => self.cx.graph.end_with_conditional(
                b,
                cond,
                on_true,
                on_false,
            ),
            Instr::Switch { .. } => {},
        }
        proof {
            old(self).cx.lemma_grown(&self.cx);
        }
    }

    /// Appends the evaluation of `value`, for its effects, to the block
    /// under the cursor.
    pub(crate) fn eval(&mut self, value: RValue)
        requires
            old(self).wf(),
            old(self).ready(),
            old(self).has_value(value),
        ensures
            old(self).appends(final(self), Instr::Eval { value }),
    {
        proof {
            reveal(Builder::wf);
            reveal(Builder::grew_into);
        }
        self.cx.graph.add_eval(self.block, value);
        proof {
            old(self).cx.lemma_grown(&self.cx);
        }
    }

    /// `later` arises from `self` by adding the list `list` and a node
    /// `node` that refers to it, whose handle is `r`; nothing else changed.
    pub open spec fn emits_with_list(&self, later: &Builder, r: RValue, node: Node, list: Seq<RValue>) -> bool {
        &&& self.grew_into(later)
        &&& self.sound(later)
        &&& self.same_types(later)
        &&& self.same_cursor(later)
        &&& self.same_code(later)
        &&& later.cx.graph.lists@.len() == self.cx.graph.lists@.len() + 1
        &&& prefix_of(self.cx.graph.lists@, later.cx.graph.lists@)
        &&& later.cx.graph.list(self.cx.graph.lists@.len() as usize) == list
        &&& later.cx.graph.nodes@ == self.cx.graph.nodes@.push(node)
        &&& r.id == self.cx.graph.nodes@.len()
    }

    /// The node of a call of `func` on the next list to be added.
    pub open spec fn call_node(&self, func: Function) -> Node {
        Node {
            kind: NodeKind::Call { func, args: self.cx.graph.lists@.len() as usize },
            ty: self.cx.graph.return_type(func),
        }
    }

    /// The node of a call through `ptr` on the next list to be added.
    pub open spec fn call_ptr_node(&self, ptr: RValue) -> Node {
        Node {
            kind: NodeKind::CallThroughPtr { ptr, args: self.cx.graph.lists@.len() as usize },
            ty: self.cx.graph.pointer_return_type(self.type_of(ptr)),
        }
    }

    /// The call of `func` on `args`.
    pub(crate) fn call_of(&mut self, func: Function, args: Vec<RValue>) -> (r: RValue)
        requires
            old(self).wf(),
            old(self).cx.graph.has_function(func),
            forall|k: int| 0 <= k < args@.len() ==> old(self).has_value(#[trigger] args@[k]),
        ensures
            old(self).emits_with_list(final(self), r, old(self).call_node(func), args@),
    {
        proof {
            reveal(Builder::wf);
            reveal(Builder::grew_into);
        }
        let r = self.cx.graph.new_call(func, args);
        proof {
            old(self).cx.lemma_grown(&self.cx);
        }
        r
    }

    /// The call through `ptr` on `args`.
    pub(crate) fn call_through(&mut self, ptr: RValue, args: Vec<RValue>) -> (r: RValue)
        requires
            old(self).wf(),
            old(self).has_value(ptr),
            old(self).cx.graph.types.shape(old(self).type_of(ptr)) is FunctionPtr,
            forall|k: int| 0 <= k < args@.len() ==> old(self).has_value(#[trigger] args@[k]),
        ensures
            old(self).emits_with_list(final(self), r, old(self).call_ptr_node(ptr), args@),
    {
        proof {
            reveal(Builder::wf);
            reveal(Builder::grew_into);
        }
        let r = self.cx.graph.new_call_through_ptr(ptr, args);
        proof {
            old(self).cx.lemma_grown(&self.cx);
        }
        r
    }

    /// The routine of the builtin `b`, declared on first use.
    pub(crate) fn builtin(&mut self, b: Builtin) -> (f: Function)
        requires
            old(self).wf(),
            b.known(),
        ensures
            old(self).grew_into(final(self)),
            old(self).sound(final(self)),
            old(self).same_cursor(final(self)),
            final(self).cx.graph.has_function(f),
            final(self).cx.graph.declares(f, b),
            final(self).cx.graph.nodes@ == old(self).cx.graph.nodes@,
            final(self).cx.graph.lists@ == old(self).cx.graph.lists@,
            final(self).cx.graph.vars@ == old(self).cx.graph.vars@,
            final(self).cx.graph.blocks@ == old(self).cx.graph.blocks@,
            final(self).cx.graph.case_lists@ == old(self).cx.graph.case_lists@,
            prefix_of(old(self).cx.graph.functions@, final(self).cx.graph.functions@),
            forall|k: int|
                0 <= k < final(self).cx.graph.params(f).len() ==> final(self).has_type(
                    #[trigger] final(self).cx.graph.params(f)[k],
                ),
            final(self).has_type(final(self).cx.graph.return_type(f)),
    {
        proof {
            reveal(Builder::wf);
            reveal(Builder::grew_into);
        }
        let f = self.cx.graph.get_builtin_function(b);
        proof {
            old(self).cx.lemma_grown(&self.cx);
            assert(self.cx.graph.function_ok(f.id as int));
        }
        f
    }

    /// Type of parameter `index` of the routine `f`.
    pub(crate) fn param_type(&self, f: Function, index: usize) -> (t: Type)
        requires
            self.wf(),
            self.cx.graph.has_function(f),
            index < self.cx.graph.params(f).len(),
        ensures
            t == self.cx.graph.params(f)[index as int],
            self.has_type(t),
    {
        proof {
            reveal(Builder::wf);
        }
        self.cx.graph.get_param_type(f, index)
    }

    /// Return type of the routine `f`.
    pub(crate) fn return_type(&self, f: Function) -> (t: Type)
        requires
            self.wf(),
            self.cx.graph.has_function(f),
        ensures
            t == self.cx.graph.return_type(f),
            self.has_type(t),
    {
        proof {
            reveal(Builder::wf);
        }
        self.cx.graph.get_return_type(f)
    }
}

/// The smaller of two lengths.
pub open spec fn shorter(a: int, b: int) -> int {
    if a <= b {
        a
    } else {
        b
    }
}

impl Builder {
    /// The routine that the value `func` is the address of.
    pub open spec fn callee(&self, func: RValue) -> Function {
        match self.cx.graph.kind_of(func) {
            NodeKind::FunctionAddress { func } => func,
            _ => Function { id: 0 },
        }
    }

    /// The routine a value is the address of.
    pub(crate) fn as_function(&self, v: RValue) -> (r: Option<Function>)
        requires
            self.wf(),
            self.has_value(v),
        ensures
            r is Some <==> self.cx.graph.kind_of(v) is FunctionAddress,
            r is Some ==> r.unwrap() == self.callee(v) && self.cx.graph.has_function(r.unwrap()),
    {
        proof {
            reveal(Builder::wf);
        }
        self.cx.rvalue_as_function(v)
    }

    /// Counts one more result temporary and names it.
    pub(crate) fn next_result_name(&mut self, stem: &str) -> (name: String)
        requires
            old(self).wf(),
            old(self).cx.return_value_count < usize::MAX,
        ensures
            final(self).wf(),
            final(self).cx.graph == old(self).cx.graph,
            old(self).cx.same_registries(&final(self).cx),
            final(self).block == old(self).block,
            final(self).stack_var_count == old(self).stack_var_count,
            final(self).cx.return_value_count == old(self).cx.return_value_count + 1,
            name@ == stem@ + decimal((old(self).cx.return_value_count + 1) as nat),
    {
        proof {
            reveal(Builder::wf);
        }
        self.cx.return_value_count = self.cx.return_value_count + 1;
        numbered(stem, self.cx.return_value_count)
    }

    /// The first `n` of `args` made to fit `params`, and the nodes this
    /// takes: an argument whose type is not the parameter's is read as a
    /// value of the parameter's type.
    /// The node that fits the argument `a` to a parameter of type
    /// `expected`, whose type it has not: a numeric conversion between
    /// integers of one width, else a reinterpretation.
    pub open spec fn fit_node(&self, expected: Type, a: RValue) -> Node {
        if self.numeric_fit(expected, self.type_of(a)) {
            Self::cast_node(a, expected)
        } else {
            Self::bitcast_node(a, expected)
        }
    }

    pub open spec fn coerced(&self, params: Seq<Type>, args: Seq<RValue>, n: int) -> (Seq<Node>, Seq<
        RValue,
    >)
        decreases n,
    {
        if n <= 0 {
            (Seq::<Node>::empty(), Seq::<RValue>::empty())
        } else {
            let (nodes, out) = self.coerced(params, args, n - 1);
            let a = args[n - 1];
            let p = params[n - 1];
            if p != self.type_of(a) {
                (
                    nodes.push(self.fit_node(p, a)),
                    out.push(self.nth(nodes.len() as int)),
                )
            } else {
                (nodes, out.push(a))
            }
        }
    }

    /// The arguments as a call of a routine with the parameters `params`
    /// gets them: `args` as they are where each fits its parameter, else
    /// as many as there are parameters, each made to fit.
    pub open spec fn passed(&self, params: Seq<Type>, args: Seq<RValue>) -> Seq<RValue> {
        let c = self.coerced(params, args, shorter(params.len() as int, args.len() as int));
        if c.0.len() == 0 {
            args
        } else {
            c.1
        }
    }

    /// The nodes that fitting `args` to `params` takes.
    pub open spec fn fitting(&self, params: Seq<Type>, args: Seq<RValue>) -> Seq<Node> {
        self.coerced(params, args, shorter(params.len() as int, args.len() as int)).0
    }

    /// Fits the arguments of a call of `func` to its parameters.
    pub(crate) fn check_call(&mut self, _typ: &str, func: Function, args: &[RValue]) -> (r: Vec<RValue>)
        requires
            old(self).wf(),
            old(self).cx.graph.has_function(func),
            forall|k: int| 0 <= k < args@.len() ==> old(self).has_value(#[trigger] args@[k]),
        ensures
            old(self).adds(
                final(self),
                old(self).fitting(old(self).cx.graph.params(func), args@),
            ),
            old(self).same_types(final(self)),
            r@ == old(self).passed(old(self).cx.graph.params(func), args@),
            forall|k: int| 0 <= k < r@.len() ==> final(self).has_value(#[trigger] r@[k]),
    {
        let ghost params = self.cx.graph.params(func);
        let param_count = self.cx.graph.get_param_count(func);
        let n = if param_count <= args.len() {
            param_count
        } else {
            args.len()
        };
        let mut out: Vec<RValue> = Vec::new();
        let mut all_args_match = true;
        let mut i: usize = 0;
        proof {
            old(self).lemma_grew_refl();
            assert(self.cx.graph.nodes@ =~= old(self).cx.graph.nodes@ + old(self).coerced(
                params,
                args@,
                0,
            ).0);
        }
        while i < n
            invariant
                i <= n,
                n == shorter(params.len() as int, args@.len() as int),
                all_args_match == (old(self).coerced(params, args@, i as int).0.len() == 0),
                params == old(self).cx.graph.params(func),
                old(self).cx.graph.has_function(func),
                forall|k: int| 0 <= k < args@.len() ==> old(self).has_value(#[trigger] args@[k]),
                old(self).grew_into(self),
                old(self).sound(self),
                old(self).same_types(self),
                old(self).same_cursor(self),
                old(self).same_code(self),
                self.cx.graph.lists@ == old(self).cx.graph.lists@,
                self.cx.graph.nodes@ == old(self).cx.graph.nodes@ + old(self).coerced(
                    params,
                    args@,
                    i as int,
                ).0,
                out@ == old(self).coerced(params, args@, i as int).1,
                forall|k: int| 0 <= k < out@.len() ==> self.has_value(#[trigger] out@[k]),
            decreases n - i,
        {
            let ghost before = *self;
            let p = self.param_type(func, i);
            let a = args[i];
            let t = self.val_ty(a);
            if p != t {
                let b = if self.is_numeric_fit(p, t) {
                    self.cast(a, p)
                } else {
                    self.bitcast(a, p)
                };
                out.push(b);
                all_args_match = false;
                proof {
                    old(self).lemma_grew_trans(&before, self);
                    assert(self.cx.graph.nodes@ =~= old(self).cx.graph.nodes@ + old(self).coerced(
                        params,
                        args@,
                        i + 1,
                    ).0);
                }
            } else {
                out.push(a);
            }
            i = i + 1;
        }
        if all_args_match {
            copy_slice(args)
        } else {
            out
        }
    }
}

/// A copy of a list of value handles.
pub fn copy_slice(v: &[RValue]) -> (r: Vec<RValue>)
    ensures
        r@ == v@,
{
    let mut r: Vec<RValue> = Vec::new();
    let mut i: usize = 0;
    while i < v.len()
        invariant
            i <= v@.len(),
            r@ == v@.take(i as int),
        decreases v@.len() - i,
    {
        r.push(v[i]);
        proof {
            assert(v@.take(i as int).push(v@[i as int]) =~= v@.take(i + 1));
        }
        i = i + 1;
    }
    proof {
        assert(v@.take(v@.len() as int) =~= v@);
    }
    r
}

impl Builder {
    /// An argument of type `actual` for a parameter of type `expected` is
    /// converted as a number: both are integers, no vectors, of the same
    /// width.
    pub open spec fn numeric_fit(&self, expected: Type, actual: Type) -> bool {
        let types = self.cx.graph.types;
        &&& !types.is_vector_type(actual)
        &&& !types.is_vector_type(expected)
        &&& types.is_integral_type(actual)
        &&& types.is_integral_type(expected)
        &&& types.size_of(actual) == types.size_of(expected)
    }

    pub(crate) fn is_numeric_fit(&self, expected: Type, actual: Type) -> (r: bool)
        requires
            self.wf(),
            self.has_type(expected),
            self.has_type(actual),
        ensures
            r == self.numeric_fit(expected, actual),
    {
        proof {
            reveal(Builder::wf);
        }
        let types = &self.cx.graph.types;
        !types.is_vector(actual) && !types.is_vector(expected) && types.is_integral(actual)
            && types.is_integral(expected) && types.get_size(actual) == types.get_size(expected)
    }

    pub(crate) fn is_vector(&self, t: Type) -> (r: bool)
        requires
            self.wf(),
            self.has_type(t),
        ensures
            r == self.cx.graph.types.is_vector_type(t),
    {
        proof {
            reveal(Builder::wf);
        }
        self.cx.graph.types.is_vector(t)
    }

    pub(crate) fn is_pointer(&self, t: Type) -> (r: bool)
        requires
            self.wf(),
            self.has_type(t),
        ensures
            r == self.cx.graph.types.is_pointer(t),
    {
        proof {
            reveal(Builder::wf);
        }
        self.cx.graph.types.type_is_pointer(t)
    }

    /// The node that fits the argument `a`, at position `index`, to a
    /// parameter of type `expected` of the signature `signature`, whose
    /// type it has not: a numeric conversion between integers of one
    /// width; else, for a parameter passed on the stack, what the argument
    /// points to; else a reinterpretation.
    pub open spec fn ptr_fit_node(&self, signature: usize, expected: Type, a: RValue, index: int) -> Node {
        if self.numeric_fit(expected, self.type_of(a)) {
            Self::cast_node(a, expected)
        } else if self.cx.on_stack(signature, index as usize) {
            Self::deref_node(a, self.pointee_of(a))
        } else {
            Self::bitcast_node(a, expected)
        }
    }

    /// Whether the argument `a` at position `index` can be fitted to a
    /// parameter of type `expected`: what stands for a parameter passed on
    /// the stack is a pointer, and a vector is never read as a value of
    /// another kind or the other way round.
    pub open spec fn ptr_fit_ok(&self, signature: usize, expected: Type, a: RValue, index: int) -> bool {
        let actual = self.type_of(a);
        expected != actual && !self.numeric_fit(expected, actual) ==> if self.cx.on_stack(
            signature,
            index as usize,
        ) {
            self.cx.graph.types.is_pointer(actual)
        } else {
            self.cx.graph.types.is_vector_type(actual) == self.cx.graph.types.is_vector_type(
                expected,
            )
        }
    }

    /// The first `n` of `args` made to fit the parameters `params` of the
    /// signature `signature`, and the nodes this takes.
    pub open spec fn ptr_coerced(&self, signature: usize, params: Seq<Type>, args: Seq<RValue>, n: int) -> (
        Seq<Node>,
        Seq<RValue>,
    )
        decreases n,
    {
        if n <= 0 {
            (Seq::<Node>::empty(), Seq::<RValue>::empty())
        } else {
            let (nodes, out) = self.ptr_coerced(signature, params, args, n - 1);
            let a = args[n - 1];
            let p = params[n - 1];
            if p != self.type_of(a) {
                (
                    nodes.push(self.ptr_fit_node(signature, p, a, n - 1)),
                    out.push(self.nth(nodes.len() as int)),
                )
            } else {
                (nodes, out.push(a))
            }
        }
    }

    /// The signature of the function-pointer type of `func_ptr`.
    pub open spec fn signature_of(&self, func_ptr: RValue) -> usize {
        self.cx.graph.types.shape(self.type_of(func_ptr))->FunctionPtr_index
    }

    /// The arguments as a call through `func_ptr` gets them.
    pub open spec fn ptr_passed(&self, func_ptr: RValue, args: Seq<RValue>) -> Seq<RValue> {
        let params = self.cx.graph.pointer_params(self.type_of(func_ptr));
        let c = self.ptr_coerced(
            self.signature_of(func_ptr),
            params,
            args,
            shorter(params.len() as int, args.len() as int),
        );
        if c.0.len() == 0 {
            args
        } else {
            c.1
        }
    }

    /// The nodes that fitting `args` to the parameters of `func_ptr` takes.
    pub open spec fn ptr_fitting(&self, func_ptr: RValue, args: Seq<RValue>) -> Seq<Node> {
        let params = self.cx.graph.pointer_params(self.type_of(func_ptr));
        self.ptr_coerced(
            self.signature_of(func_ptr),
            params,
            args,
            shorter(params.len() as int, args.len() as int),
        ).0
    }

    /// Every argument that has a parameter can be fitted to it.
    pub open spec fn ptr_args_ok(&self, func_ptr: RValue, args: Seq<RValue>) -> bool {
        let params = self.cx.graph.pointer_params(self.type_of(func_ptr));
        forall|k: int|
            0 <= k < shorter(params.len() as int, args.len() as int) ==> #[trigger] self.ptr_fit_ok(
                self.signature_of(func_ptr),
                params[k],
                args[k],
                k,
            )
    }

    /// Signature and number of parameters of a function-pointer value.
    pub(crate) fn pointer_signature(&self, func_ptr: RValue) -> (r: (usize, usize))
        requires
            self.wf(),
            self.has_value(func_ptr),
            self.cx.graph.types.shape(self.type_of(func_ptr)) is FunctionPtr,
        ensures
            r.0 == self.signature_of(func_ptr),
            r.0 < self.cx.graph.types.signatures@.len(),
            r.1 == self.cx.graph.pointer_params(self.type_of(func_ptr)).len(),
            self.has_type(self.cx.graph.pointer_return_type(self.type_of(func_ptr))),
            forall|k: int|
                0 <= k < r.1 ==> self.has_type(
                    #[trigger] self.cx.graph.pointer_params(self.type_of(func_ptr))[k],
                ),
    {
        proof {
            reveal(Builder::wf);
        }
        let t = self.cx.graph.get_type(func_ptr);
        let sig = self.cx.graph.types.dyncast_function_ptr_type(t).unwrap();
        proof {
            assert(self.cx.graph.types.signature_ok(sig as int));
        }
        (sig, self.cx.graph.types.signatures[sig].params.len())
    }

    pub(crate) fn signature_param(&self, signature: usize, index: usize) -> (t: Type)
        requires
            self.wf(),
            signature < self.cx.graph.types.signatures@.len(),
            index < self.cx.graph.types.signatures@[signature as int].params@.len(),
        ensures
            t == self.cx.graph.types.signatures@[signature as int].params@[index as int],
            self.has_type(t),
    {
        proof {
            reveal(Builder::wf);
            assert(self.cx.graph.types.signature_ok(signature as int));
        }
        self.cx.graph.types.signatures[signature].params[index]
    }

    pub(crate) fn signature_return(&self, signature: usize) -> (t: Type)
        requires
            self.wf(),
            signature < self.cx.graph.types.signatures@.len(),
        ensures
            t == self.cx.graph.types.signatures@[signature as int].ret,
            self.has_type(t),
    {
        proof {
            reveal(Builder::wf);
            assert(self.cx.graph.types.signature_ok(signature as int));
        }
        self.cx.graph.types.signatures[signature].ret
    }

    /// Fits the arguments of a call through `func_ptr` to the parameters
    /// of its signature.
    pub(crate) fn check_ptr_call(&mut self, _typ: &str, func_ptr: RValue, args: &[RValue]) -> (r: Vec<RValue>)
        requires
            old(self).wf(),
            old(self).has_value(func_ptr),
            old(self).cx.graph.types.shape(old(self).type_of(func_ptr)) is FunctionPtr,
            forall|k: int| 0 <= k < args@.len() ==> old(self).has_value(#[trigger] args@[k]),
            old(self).ptr_args_ok(func_ptr, args@),
        ensures
            old(self).adds(final(self), old(self).ptr_fitting(func_ptr, args@)),
            old(self).same_types(final(self)),
            r@ == old(self).ptr_passed(func_ptr, args@),
            forall|k: int| 0 <= k < r@.len() ==> final(self).has_value(#[trigger] r@[k]),
    {
        let ghost params = self.cx.graph.pointer_params(self.type_of(func_ptr));
        let (signature, param_count) = self.pointer_signature(func_ptr);
        let n = if param_count <= args.len() {
            param_count
        } else {
            args.len()
        };
        let mut out: Vec<RValue> = Vec::new();
        let mut all_args_match = true;
        let mut i: usize = 0;
        proof {
            old(self).lemma_grew_refl();
            assert(self.cx.graph.nodes@ =~= old(self).cx.graph.nodes@ + old(self).ptr_coerced(
                signature,
                params,
                args@,
                0,
            ).0);
        }
        while i < n
            invariant
                i <= n,
                n == shorter(params.len() as int, args@.len() as int),
                all_args_match == (old(self).ptr_coerced(signature, params, args@, i as int).0.len()
                    == 0),
                params == old(self).cx.graph.pointer_params(old(self).type_of(func_ptr)),
                params == old(self).cx.graph.types.signatures@[signature as int].params@,
                signature == old(self).signature_of(func_ptr),
                signature < old(self).cx.graph.types.signatures@.len(),
                forall|k: int| 0 <= k < args@.len() ==> old(self).has_value(#[trigger] args@[k]),
                old(self).ptr_args_ok(func_ptr, args@),
                old(self).grew_into(self),
                old(self).sound(self),
                old(self).same_types(self),
                old(self).same_cursor(self),
                old(self).same_code(self),
                self.cx.graph.lists@ == old(self).cx.graph.lists@,
                self.cx.graph.nodes@ == old(self).cx.graph.nodes@ + old(self).ptr_coerced(
                    signature,
                    params,
                    args@,
                    i as int,
                ).0,
                out@ == old(self).ptr_coerced(signature, params, args@, i as int).1,
                forall|k: int| 0 <= k < out@.len() ==> self.has_value(#[trigger] out@[k]),
            decreases n - i,
        {
            let ghost before = *self;
            let p = self.signature_param(signature, i);
            let a = args[i];
            let t = self.val_ty(a);
            if p != t {
                proof {
                    assert(old(self).ptr_fit_ok(signature, params[i as int], args@[i as int], i as int));
                }
                let b = if self.is_numeric_fit(p, t) {
                    self.cast(a, p)
                } else if self.cx.is_on_stack(signature, i) {
                    self.deref(a).to_rvalue()
                } else {
                    self.bitcast(a, p)
                };
                out.push(b);
                all_args_match = false;
                proof {
                    old(self).lemma_grew_trans(&before, self);
                    assert(self.cx.graph.nodes@ =~= old(self).cx.graph.nodes@ + old(
                        self,
                    ).ptr_coerced(signature, params, args@, i + 1).0);
                }
            } else {
                out.push(a);
            }
            i = i + 1;
        }
        if all_args_match {
            copy_slice(args)
        } else {
            out
        }
    }
}

impl Builder {
    /// What the lowering of a call has in common, whatever is called:
    /// `fitted` are the nodes that fit the arguments, `passed` the list the
    /// call node refers to; no routine, type or block was added and the
    /// cursor has not moved.
    pub open spec fn called(&self, later: &Builder, passed: Seq<RValue>) -> bool {
        &&& self.grew_into(later)
        &&& self.sound(later)
        &&& self.same_types(later)
        &&& later.block == self.block
        &&& later.stack_var_count == self.stack_var_count
        &&& later.cx.graph.functions@ == self.cx.graph.functions@
        &&& later.cx.graph.blocks@.len() == self.cx.graph.blocks@.len()
        &&& later.cx.graph.case_lists@ == self.cx.graph.case_lists@
        &&& later.cx.graph.lists@.len() == self.cx.graph.lists@.len() + 1
        &&& prefix_of(self.cx.graph.lists@, later.cx.graph.lists@)
        &&& later.cx.graph.list(self.cx.graph.lists@.len() as usize) == passed
    }

    /// The result of a call is bound: one local named `stem` and the
    /// number of the result was declared, of the type `ret`; after the
    /// `fitted` nodes come the local and the node `call`, and the block
    /// under the cursor received the assignment of the call to the local,
    /// which is the result `r`.
    pub open spec fn bound(
        &self,
        later: &Builder,
        fitted: Seq<Node>,
        call: Node,
        ret: Type,
        stem: Seq<char>,
        r: RValue,
    ) -> bool {
        let k = fitted.len() as int;
        &&& later.cx.graph.nodes@ == self.cx.graph.nodes@ + fitted + seq![self.var_node(ret), call]
        &&& self.declares_local(
            later,
            ret,
            stem + decimal((self.cx.return_value_count + 1) as nat),
        )
        &&& later.cx.return_value_count == self.cx.return_value_count + 1
        &&& self.block_received(
            later,
            self.block,
            seq![Instr::Assign { target: self.nth_storage(k), value: self.nth(k + 1) }],
        )
        &&& r == self.nth(k)
    }

    /// Lowering of a call of the routine that `func` is the address of.
    /// Where the routine returns a value, the call is assigned to a fresh
    /// local of the block under the cursor, which is the result: the
    /// target does not accept a call whose value is not used. Where it
    /// returns none, the call is evaluated for its effects and the result
    /// is a zero of the pointer-sized integer type.
    pub open spec fn function_called(&self, later: &Builder, func: RValue, args: Seq<RValue>, r: RValue) -> bool {
        let f = self.callee(func);
        let params = self.cx.graph.params(f);
        let fitted = self.fitting(params, args);
        let k = fitted.len() as int;
        let ret = self.cx.graph.return_type(f);
        &&& self.called(later, self.passed(params, args))
        &&& if ret != self.cx.void_type {
            self.bound(later, fitted, self.call_node(f), ret, "returnValue"@, r)
        } else {
            &&& later.cx.graph.nodes@ == self.cx.graph.nodes@ + fitted + seq![
                self.call_node(f),
                Self::const_node(0, self.cx.isize_type),
            ]
            &&& later.cx.graph.vars@ == self.cx.graph.vars@
            &&& later.cx.return_value_count == self.cx.return_value_count
            &&& self.block_received(later, self.block, seq![Instr::Eval { value: self.nth(k) }])
            &&& r == self.nth(k + 1)
        }
    }

    /// Calls the routine that `func` is the address of.
    pub(crate) fn function_call(&mut self, func: RValue, args: &[RValue]) -> (r: RValue)
        requires
            old(self).wf(),
            old(self).ready(),
            old(self).has_value(func),
            old(self).cx.graph.kind_of(func) is FunctionAddress,
            forall|k: int| 0 <= k < args@.len() ==> old(self).has_value(#[trigger] args@[k]),
            old(self).cx.graph.return_type(old(self).callee(func)) != old(self).cx.void_type
                ==> old(self).cx.return_value_count < usize::MAX,
        ensures
            old(self).function_called(final(self), func, args@, r),
            final(self).ready(),
            final(self).has_value(r),
    {
        proof {
            old(self).lemma_wf();
        }
        let f = self.as_function(func).unwrap();
        let ghost params = self.cx.graph.params(f);
        let ghost fitted = self.fitting(params, args@);
        let args2 = self.check_call("call", f, args);
        let ghost s1 = *self;
        let return_type = self.return_type(f);
        let void_type = self.cx.void_type;
        if return_type != void_type {
            let name = self.next_result_name("returnValue");
            let ghost s2 = *self;
            let result = self.local(return_type, name.as_str());
            let ghost s3 = *self;
            let call = self.call_of(f, args2);
            let ghost s4 = *self;
            self.assign(result, call);
            proof {
                s1.lemma_grew_refl();
                s2.lemma_grew_trans(&s3, &s4);
                s2.lemma_grew_trans(&s4, self);
                assert(s1.grew_into(&s2)) by {
                    reveal(Builder::grew_into);
                }
                s1.lemma_grew_trans(&s2, self);
                old(self).lemma_grew_trans(&s1, self);
                assert(self.cx.graph.nodes@ =~= old(self).cx.graph.nodes@ + fitted + seq![
                    old(self).var_node(return_type),
                    old(self).call_node(f),
                ]);
                assert(self.cx.graph.instrs(self.block) =~= old(self).cx.graph.instrs(
                    old(self).block,
                ) + seq![
                    Instr::Assign {
                        target: old(self).nth_storage(fitted.len() as int),
                        value: old(self).nth(fitted.len() as int + 1),
                    },
                ]);
            }
            result.to_rvalue()
        } else {
            let call = self.call_of(f, args2);
            let ghost s2 = *self;
            self.eval(call);
            let ghost s3 = *self;
            let isize_type = self.cx.isize_type;
            let r = self.constant(isize_type, 0);
            proof {
                s1.lemma_grew_trans(&s2, &s3);
                s1.lemma_grew_trans(&s3, self);
                old(self).lemma_grew_trans(&s1, self);
                assert(self.cx.graph.nodes@ =~= old(self).cx.graph.nodes@ + fitted + seq![
                    old(self).call_node(f),
                    Self::const_node(0, isize_type),
                ]);
                assert(self.cx.graph.instrs(self.block) =~= old(self).cx.graph.instrs(
                    old(self).block,
                ) + seq![Instr::Eval { value: old(self).nth(fitted.len() as int) }]);
            }
            r
        }
    }
}

impl Builder {
    /// Lowering of a call through the function pointer `func_ptr`. Where
    /// the signature returns a value, the call is assigned to a fresh
    /// local, which is the result. Where it returns none, the call is
    /// evaluated for its effects, and a local that is assigned zero stands
    /// in as the result.
    pub open spec fn pointer_called(&self, later: &Builder, func_ptr: RValue, args: Seq<RValue>, r: RValue) -> bool {
        let fitted = self.ptr_fitting(func_ptr, args);
        let k = fitted.len() as int;
        let ret = self.cx.graph.pointer_return_type(self.type_of(func_ptr));
        &&& self.called(later, self.ptr_passed(func_ptr, args))
        &&& if ret != self.cx.void_type {
            self.bound(later, fitted, self.call_ptr_node(func_ptr), ret, "ptrReturnValue"@, r)
        } else {
            &&& later.cx.graph.nodes@ == self.cx.graph.nodes@ + fitted + seq![
                self.call_ptr_node(func_ptr),
                self.var_node(self.cx.isize_type),
                Self::const_node(0, self.cx.isize_type),
            ]
            &&& self.declares_local(
                later,
                self.cx.isize_type,
                "dummyValueThatShouldNeverBeUsed"@,
            )
            &&& later.cx.return_value_count == self.cx.return_value_count
            &&& self.block_received(
                later,
                self.block,
                seq![
                    Instr::Eval { value: self.nth(k) },
                    Instr::Assign { target: self.nth_storage(k + 1), value: self.nth(k + 2) },
                ],
            )
            &&& r == self.nth(k + 1)
        }
    }

    /// Calls the routine that `func_ptr` points to.
    pub(crate) fn function_ptr_call(&mut self, func_ptr: RValue, args: &[RValue]) -> (r: RValue)
        requires
            old(self).wf(),
            old(self).ready(),
            old(self).has_value(func_ptr),
            old(self).cx.graph.types.shape(old(self).type_of(func_ptr)) is FunctionPtr,
            forall|k: int| 0 <= k < args@.len() ==> old(self).has_value(#[trigger] args@[k]),
            old(self).ptr_args_ok(func_ptr, args@),
            old(self).cx.graph.pointer_return_type(old(self).type_of(func_ptr)) != old(
                self,
            ).cx.void_type ==> old(self).cx.return_value_count < usize::MAX,
        ensures
            old(self).pointer_called(final(self), func_ptr, args@, r),
            final(self).ready(),
            final(self).has_value(r),
    {
        proof {
            old(self).lemma_wf();
        }
        let ghost fitted = self.ptr_fitting(func_ptr, args@);
        let (signature, _) = self.pointer_signature(func_ptr);
        let return_type = self.signature_return(signature);
        let args2 = self.check_ptr_call("call", func_ptr, args);
        let ghost s1 = *self;
        let void_type = self.cx.void_type;
        if return_type != void_type {
            let name = self.next_result_name("ptrReturnValue");
            let ghost s2 = *self;
            let result = self.local(return_type, name.as_str());
            let ghost s3 = *self;
            let call = self.call_through(func_ptr, args2);
            let ghost s4 = *self;
            self.assign(result, call);
            proof {
                s2.lemma_grew_trans(&s3, &s4);
                s2.lemma_grew_trans(&s4, self);
                assert(s1.grew_into(&s2)) by {
                    reveal(Builder::grew_into);
                }
                s1.lemma_grew_trans(&s2, self);
                old(self).lemma_grew_trans(&s1, self);
                assert(self.cx.graph.nodes@ =~= old(self).cx.graph.nodes@ + fitted + seq![
                    old(self).var_node(return_type),
                    old(self).call_ptr_node(func_ptr),
                ]);
                assert(self.cx.graph.instrs(self.block) =~= old(self).cx.graph.instrs(
                    old(self).block,
                ) + seq![
                    Instr::Assign {
                        target: old(self).nth_storage(fitted.len() as int),
                        value: old(self).nth(fitted.len() as int + 1),
                    },
                ]);
            }
            result.to_rvalue()
        } else {
            let call = self.call_through(func_ptr, args2);
            let ghost s2 = *self;
            self.eval(call);
            let ghost s3 = *self;
            let isize_type = self.cx.isize_type;
            let result = self.local(isize_type, "dummyValueThatShouldNeverBeUsed");
            let ghost s4 = *self;
            let zero = self.constant(isize_type, 0);
            let ghost s5 = *self;
            self.assign(result, zero);
            proof {
                s1.lemma_grew_trans(&s2, &s3);
                s1.lemma_grew_trans(&s3, &s4);
                s1.lemma_grew_trans(&s4, &s5);
                s1.lemma_grew_trans(&s5, self);
                old(self).lemma_grew_trans(&s1, self);
                assert(self.cx.graph.nodes@ =~= old(self).cx.graph.nodes@ + fitted + seq![
                    old(self).call_ptr_node(func_ptr),
                    old(self).var_node(isize_type),
                    Self::const_node(0, isize_type),
                ]);
                assert(self.cx.graph.instrs(self.block) =~= old(self).cx.graph.instrs(
                    old(self).block,
                ) + seq![
                    Instr::Eval { value: old(self).nth(fitted.len() as int) },
                    Instr::Assign {
                        target: old(self).nth_storage(fitted.len() as int + 1),
                        value: old(self).nth(fitted.len() as int + 2),
                    },
                ]);
            }
            result.to_rvalue()
        }
    }

    /// Calls a routine that reports an overflow: the call is assigned to a
    /// fresh boolean local of the block under the cursor, which is the
    /// result.
    pub fn overflow_call(&mut self, func: Function, args: &[RValue]) -> (r: RValue)
        requires
            old(self).wf(),
            old(self).ready(),
            old(self).cx.graph.has_function(func),
            forall|k: int| 0 <= k < args@.len() ==> old(self).has_value(#[trigger] args@[k]),
            old(self).cx.return_value_count < usize::MAX,
        ensures
            old(self).called(final(self), args@),
            old(self).bound(
                final(self),
                Seq::<Node>::empty(),
                Node {
                    kind: NodeKind::Call { func, args: old(self).cx.graph.lists@.len() as usize },
                    ty: old(self).cx.graph.return_type(func),
                },
                old(self).cx.bool_type,
                "overflowReturnValue"@,
                r,
            ),
            final(self).ready(),
            final(self).has_value(r),
    {
        proof {
            old(self).lemma_wf();
        }
        let return_type = self.cx.bool_type;
        let name = self.next_result_name("overflowReturnValue");
        let ghost s1 = *self;
        let result = self.local(return_type, name.as_str());
        let ghost s2 = *self;
        let call = self.call_of(func, copy_slice(args));
        let ghost s3 = *self;
        self.assign(result, call);
        proof {
            s1.lemma_grew_trans(&s2, &s3);
            s1.lemma_grew_trans(&s3, self);
            assert(old(self).grew_into(&s1)) by {
                reveal(Builder::grew_into);
            }
            old(self).lemma_grew_trans(&s1, self);
            assert(self.cx.graph.nodes@ =~= old(self).cx.graph.nodes@ + Seq::<Node>::empty()
                + seq![old(self).var_node(return_type), old(self).call_node(func)]);
            assert(self.cx.graph.instrs(self.block) =~= old(self).cx.graph.instrs(old(self).block)
                + seq![Instr::Assign { target: old(self).nth_storage(0), value: old(self).nth(1) }]);
        }
        result.to_rvalue()
    }

    /// Whether the callee value denotes a routine that has been defined;
    /// any other callee is called as a function pointer.
    pub open spec fn calls_defined(&self, func: RValue) -> bool {
        self.cx.graph.kind_of(func) is FunctionAddress && self.cx.registered(self.callee(func))
    }

    /// Calls `func` on `args`: as the routine it is the address of where
    /// that routine has been defined, else through it as a function
    /// pointer.
    pub fn call(&mut self, _typ: Type, func: RValue, args: &[RValue]) -> (r: RValue)
        requires
            old(self).wf(),
            old(self).can_call(func, args@),
        ensures
            old(self).calls_defined(func) ==> old(self).function_called(
                final(self),
                func,
                args@,
                r,
            ),
            !old(self).calls_defined(func) ==> old(self).pointer_called(
                final(self),
                func,
                args@,
                r,
            ),
            final(self).ready(),
            final(self).has_value(r),
    {
        let defined = match self.as_function(func) {
            Some(f) => self.cx.is_registered(f),
            None => false,
        };
        if defined {
            self.function_call(func, args)
        } else {
            self.function_ptr_call(func, args)
        }
    }
}

impl Builder {
    /// Ends the block under the cursor with a return of `value`. A value
    /// that stands for a struct but is a pointer to it is first replaced
    /// by what it points to.
    pub fn ret(&mut self, value: RValue)
        requires
            old(self).wf(),
            old(self).ready(),
            old(self).has_value(value),
        ensures
            !old(self).cx.struct_as_pointer(value) ==> old(self).appends(
                final(self),
                Instr::Return { value },
            ),
            old(self).cx.struct_as_pointer(value) ==> old(self).lowers(
                final(self),
                seq![Self::deref_node(value, old(self).pointee_of(value))],
                seq![Instr::Return { value: old(self).nth(0) }],
            ) && old(self).same_types(final(self)) && old(self).same_cursor(final(self)) && old(
                self,
            ).same_routines(final(self)) && final(self).cx.graph.vars@ == old(self).cx.graph.vars@,
            final(self).cx.graph.closed(final(self).block),
    {
        if self.cx.is_struct_as_pointer(value) {
            proof {
                reveal(Builder::wf);
            }
            let d = self.deref(value);
            let ghost mid = *self;
            self.emit_in(self.block, Instr::Return { value: d.to_rvalue() });
            proof {
                old(self).lemma_grew_trans(&mid, self);
                assert(self.cx.graph.nodes@ =~= old(self).cx.graph.nodes@ + seq![
                    Self::deref_node(value, old(self).pointee_of(value)),
                ]);
                assert(self.cx.graph.instrs(self.block) =~= old(self).cx.graph.instrs(
                    old(self).block,
                ) + seq![Instr::Return { value: old(self).nth(0) }]);
            }
        } else {
            proof {
                old(self).lemma_wf();
            }
            self.emit_in(self.block, Instr::Return { value });
        }
    }

    /// Marks the point under the cursor as one that is never reached, and
    /// ends the block: with a return of no value where the routine under
    /// construction returns none, else with a return of a fresh local of
    /// the routine's return type.
    pub fn unreachable(&mut self)
        requires
            old(self).wf(),
            old(self).ready(),
        ensures
            old(self).grew_into(final(self)),
            old(self).sound(final(self)),
            old(self).same_cursor(final(self)),
            final(self).cx.graph.closed(final(self).block),
            final(self).cx.graph.blocks@.len() == old(self).cx.graph.blocks@.len(),
            final(self).cx.graph.case_lists@ == old(self).cx.graph.case_lists@,
            final(self).cx.graph.has_function(
                final(self).cx.graph.kind_of(old(self).nth(0))->Call_func,
            ),
            final(self).cx.graph.declares(
                final(self).cx.graph.kind_of(old(self).nth(0))->Call_func,
                Builtin::Unreachable,
            ),
            final(self).cx.graph.kind_of(old(self).nth(0)) is Call,
            final(self).cx.graph.list(
                final(self).cx.graph.kind_of(old(self).nth(0))->Call_args,
            ).len() == 0,
            ({
                let ret = old(self).cx.graph.return_type(
                    old(self).cx.graph.block_function(old(self).block),
                );
                if ret == old(self).cx.void_type {
                    &&& final(self).cx.graph.nodes@.len() == old(self).cx.graph.nodes@.len() + 1
                    &&& final(self).cx.graph.vars@ == old(self).cx.graph.vars@
                    &&& old(self).block_received(
                        final(self),
                        old(self).block,
                        seq![Instr::Eval { value: old(self).nth(0) }, Instr::VoidReturn],
                    )
                } else {
                    &&& final(self).cx.graph.nodes@.len() == old(self).cx.graph.nodes@.len() + 2
                    &&& final(self).cx.graph.nodes@.last() == old(self).var_node(ret)
                    &&& old(self).declares_local(final(self), ret, "unreachableReturn"@)
                    &&& old(self).block_received(
                        final(self),
                        old(self).block,
                        seq![
                            Instr::Eval { value: old(self).nth(0) },
                            Instr::Return { value: old(self).nth(1) },
                        ],
                    )
                }
            }),
    {
        proof {
            old(self).lemma_wf();
        }
        let func = self.builtin(Builtin::Unreachable);
        let ghost s1 = *self;
        let call = self.call_of(func, Vec::new());
        let ghost s2 = *self;
        self.eval(call);
        let ghost s3 = *self;
        let current = self.current_func();
        let return_type = self.return_type(current);
        let void_type = self.cx.void_type;
        proof {
            assert(s1.cx.graph.functions@[current.id as int] == old(
                self,
            ).cx.graph.functions@[current.id as int]);
            old(self).lemma_grew_trans(&s1, &s2);
            old(self).lemma_grew_trans(&s2, &s3);
            s1.lemma_grew_trans(&s2, &s3);
        }
        if return_type == void_type {
            self.emit_in(self.block, Instr::VoidReturn);
            proof {
                old(self).lemma_grew_trans(&s3, self);
                s1.lemma_grew_trans(&s3, self);
                s1.lemma_builtin_kept(self, func, Builtin::Unreachable);
                assert(self.cx.graph.instrs(self.block) =~= old(self).cx.graph.instrs(
                    old(self).block,
                ) + seq![Instr::Eval { value: old(self).nth(0) }, Instr::VoidReturn]);
            }
        } else {
            let return_value = self.local(return_type, "unreachableReturn");
            let ghost s4 = *self;
            self.emit_in(self.block, Instr::Return { value: return_value.to_rvalue() });
            proof {
                old(self).lemma_grew_trans(&s3, &s4);
                old(self).lemma_grew_trans(&s4, self);
                s1.lemma_grew_trans(&s3, &s4);
                s1.lemma_grew_trans(&s4, self);
                s1.lemma_builtin_kept(self, func, Builtin::Unreachable);
                assert(self.cx.graph.instrs(self.block) =~= old(self).cx.graph.instrs(
                    old(self).block,
                ) + seq![
                    Instr::Eval { value: old(self).nth(0) },
                    Instr::Return { value: old(self).nth(1) },
                ]);
            }
        }
    }

    /// Unwinding is not implemented: resuming an exception that is in
    /// flight is a point that is never reached, and is marked as
    /// `unreachable` marks one.
    pub fn resume(&mut self, _exn: RValue)
        requires
            old(self).wf(),
            old(self).ready(),
        ensures
            old(self).grew_into(final(self)),
            old(self).sound(final(self)),
            old(self).same_cursor(final(self)),
            final(self).cx.graph.closed(final(self).block),
            final(self).cx.graph.blocks@.len() == old(self).cx.graph.blocks@.len(),
            final(self).cx.graph.case_lists@ == old(self).cx.graph.case_lists@,
            final(self).cx.graph.has_function(
                final(self).cx.graph.kind_of(old(self).nth(0))->Call_func,
            ),
            final(self).cx.graph.declares(
                final(self).cx.graph.kind_of(old(self).nth(0))->Call_func,
                Builtin::Unreachable,
            ),
            final(self).cx.graph.kind_of(old(self).nth(0)) is Call,
            final(self).cx.graph.list(
                final(self).cx.graph.kind_of(old(self).nth(0))->Call_args,
            ).len() == 0,
            ({
                let ret = old(self).cx.graph.return_type(
                    old(self).cx.graph.block_function(old(self).block),
                );
                if ret == old(self).cx.void_type {
                    &&& final(self).cx.graph.nodes@.len() == old(self).cx.graph.nodes@.len() + 1
                    &&& final(self).cx.graph.vars@ == old(self).cx.graph.vars@
                    &&& old(self).block_received(
                        final(self),
                        old(self).block,
                        seq![Instr::Eval { value: old(self).nth(0) }, Instr::VoidReturn],
                    )
                } else {
                    &&& final(self).cx.graph.nodes@.len() == old(self).cx.graph.nodes@.len() + 2
                    &&& final(self).cx.graph.nodes@.last() == old(self).var_node(ret)
                    &&& old(self).declares_local(final(self), ret, "unreachableReturn"@)
                    &&& old(self).block_received(
                        final(self),
                        old(self).block,
                        seq![
                            Instr::Eval { value: old(self).nth(0) },
                            Instr::Return { value: old(self).nth(1) },
                        ],
                    )
                }
            }),
    {
        self.unreachable();
    }
}

impl Builder {
    /// Ends the block under the cursor with the switch `instr`, whose
    /// cases are `cases`.
    pub(crate) fn finish_switch(&mut self, value: RValue, default: Block, cases: Vec<Case>)
        requires
            old(self).wf(),
            old(self).ready(),
            old(self).has_value(value),
            old(self).cx.graph.has_block(default),
            forall|k: int| 0 <= k < cases@.len() ==> old(self).cx.graph.case_ok(#[trigger] cases@[k]),
        ensures
            old(self).grew_into(final(self)),
            old(self).sound(final(self)),
            old(self).same_cursor(final(self)),
            old(self).cx.graph.appended(
                &final(self).cx.graph,
                old(self).block,
                Instr::Switch {
                    value,
                    default,
                    cases: old(self).cx.graph.case_lists@.len() as usize,
                },
            ),
            final(self).cx.graph.case_lists@.len() == old(self).cx.graph.case_lists@.len() + 1,
            prefix_of(old(self).cx.graph.case_lists@, final(self).cx.graph.case_lists@),
            final(self).cx.graph.cases(old(self).cx.graph.case_lists@.len() as usize) == cases@,
    {
        proof {
            reveal(Builder::wf);
            reveal(Builder::grew_into);
        }
        self.cx.graph.end_with_switch(self.block, value, default, cases);
        proof {
            old(self).cx.lemma_grown(&self.cx);
        }
    }

    /// Ends the block under the cursor with a switch on `value`: for each
    /// of `cases`, in order, one entry for the one value, whether or not
    /// another case has the same target; every other value goes to
    /// `default_block`.
    pub fn switch(&mut self, value: RValue, default_block: Block, cases: Vec<(u128, Block)>)
        requires
            old(self).wf(),
            old(self).ready(),
            old(self).has_value(value),
            old(self).cx.graph.has_block(default_block),
            forall|k: int|
                0 <= k < cases@.len() ==> old(self).cx.graph.has_block((#[trigger] cases@[k]).1),
        ensures
            old(self).grew_into(final(self)),
            old(self).sound(final(self)),
            old(self).same_types(final(self)),
            old(self).same_cursor(final(self)),
            old(self).same_routines(final(self)),
            final(self).cx.graph.vars@ == old(self).cx.graph.vars@,
            final(self).cx.graph.blocks@.len() == old(self).cx.graph.blocks@.len(),
            final(self).cx.graph.nodes@.len() == old(self).cx.graph.nodes@.len() + cases@.len(),
            forall|k: int|
                0 <= k < cases@.len() ==> #[trigger] final(self).cx.graph.nodes@[old(
                    self,
                ).cx.graph.nodes@.len() + k] == Self::const_node(
                    cases@[k].0,
                    old(self).type_of(value),
                ),
            final(self).cx.graph.case_lists@.len() == old(self).cx.graph.case_lists@.len() + 1,
            prefix_of(old(self).cx.graph.case_lists@, final(self).cx.graph.case_lists@),
            final(self).cx.graph.cases(old(self).cx.graph.case_lists@.len() as usize).len()
                == cases@.len(),
            forall|k: int|
                0 <= k < cases@.len() ==> #[trigger] final(self).cx.graph.cases(
                    old(self).cx.graph.case_lists@.len() as usize,
                )[k] == (Case { low: old(self).nth(k), high: old(self).nth(k), target: cases@[k].1 }),
            old(self).block_received(
                final(self),
                old(self).block,
                seq![
                    Instr::Switch {
                        value,
                        default: default_block,
                        cases: old(self).cx.graph.case_lists@.len() as usize,
                    },
                ],
            ),
            final(self).cx.graph.closed(final(self).block),
    {
        let typ = self.val_ty(value);
        let mut gcc_cases: Vec<Case> = Vec::new();
        let mut i: usize = 0;
        proof {
            old(self).lemma_grew_refl();
        }
        while i < cases.len()
            invariant
                i <= cases@.len(),
                typ == old(self).type_of(value),
                old(self).has_type(typ),
                old(self).has_value(value),
                old(self).ready(),
                old(self).cx.graph.has_block(default_block),
                forall|k: int|
                    0 <= k < cases@.len() ==> old(self).cx.graph.has_block(
                        (#[trigger] cases@[k]).1,
                    ),
                old(self).grew_into(self),
                old(self).sound(self),
                old(self).same_types(self),
                old(self).same_cursor(self),
                old(self).same_code(self),
                self.cx.graph.lists@ == old(self).cx.graph.lists@,
                self.cx.graph.nodes@.len() == old(self).cx.graph.nodes@.len() + i,
                prefix_of(old(self).cx.graph.nodes@, self.cx.graph.nodes@),
                forall|k: int|
                    0 <= k < i ==> #[trigger] self.cx.graph.nodes@[old(self).cx.graph.nodes@.len()
                        + k] == Self::const_node(cases@[k].0, typ),
                gcc_cases@.len() == i,
                forall|k: int|
                    0 <= k < i ==> #[trigger] gcc_cases@[k] == (Case {
                        low: old(self).nth(k),
                        high: old(self).nth(k),
                        target: cases@[k].1,
                    }),
            decreases cases@.len() - i,
        {
            let ghost before = *self;
            let (on_val, dest) = cases[i];
            let c = self.constant(typ, on_val);
            gcc_cases.push(Case { low: c, high: c, target: dest });
            proof {
                old(self).lemma_grew_trans(&before, self);
            }
            i = i + 1;
        }
        let ghost mid = *self;
        proof {
            reveal(Builder::wf);
            assert forall|k: int| 0 <= k < gcc_cases@.len() implies self.cx.graph.case_ok(
                #[trigger] gcc_cases@[k],
            ) by {
                assert(old(self).cx.graph.has_block(cases@[k].1));
            }
        }
        self.finish_switch(value, default_block, gcc_cases);
        proof {
            old(self).lemma_grew_trans(&mid, self);
            assert(self.cx.graph.instrs(self.block) =~= old(self).cx.graph.instrs(old(self).block)
                + seq![
                Instr::Switch {
                    value,
                    default: default_block,
                    cases: old(self).cx.graph.case_lists@.len() as usize,
                },
            ]);
        }
    }
}

impl Builder {
    pub(crate) fn is_compatible(&self, a: Type, b: Type) -> (r: bool)
        requires
            self.wf(),
            self.has_type(a),
            self.has_type(b),
        ensures
            r == self.cx.graph.types.compatible(a, b),
    {
        proof {
            reveal(Builder::wf);
        }
        self.cx.graph.types.is_compatible_with(a, b)
    }

    /// The block `k` places after the blocks of `self`.
    pub open spec fn nth_block(&self, k: int) -> Block {
        Block { id: (self.cx.graph.blocks@.len() + k) as usize }
    }

    /// Whether the value chosen where the condition fails has to be
    /// converted to the type of the other.
    pub open spec fn select_converts(&self, then_val: RValue, else_val: RValue) -> bool {
        !self.cx.graph.types.compatible(self.type_of(then_val), self.type_of(else_val))
    }

    /// The value assigned where the condition fails.
    pub open spec fn select_else(&self, then_val: RValue, else_val: RValue) -> RValue {
        if self.select_converts(then_val, else_val) {
            self.nth(1)
        } else {
            else_val
        }
    }

    /// The lowering of a choice between two values: a local of the type of
    /// `then_val`; three new blocks, of which the first assigns `then_val`
    /// to the local and the second `else_val`, converted where its type is
    /// not compatible, and both jump to the third; the block that was
    /// under the cursor ends with the branch on `cond`; the cursor is at
    /// the third block, which is empty, and the result is the local.
    pub open spec fn selected(
        &self,
        later: &Builder,
        cond: RValue,
        then_val: RValue,
        else_val: RValue,
        r: RValue,
    ) -> bool {
        let ty = self.type_of(then_val);
        let variable = self.nth_storage(0);
        let then_block = self.nth_block(0);
        let else_block = self.nth_block(1);
        let after_block = self.nth_block(2);
        let g = later.cx.graph;
        &&& self.grew_into(later)
        &&& self.sound(later)
        &&& self.same_types(later)
        &&& self.same_routines(later)
        &&& later.stack_var_count == self.stack_var_count
        &&& later.cx.return_value_count == self.cx.return_value_count
        &&& g.case_lists@ == self.cx.graph.case_lists@
        &&& self.declares_local(later, ty, "selectVar"@)
        &&& g.nodes@ == self.cx.graph.nodes@ + if self.select_converts(then_val, else_val) {
            seq![self.var_node(ty), Self::cast_node(else_val, ty)]
        } else {
            seq![self.var_node(ty)]
        }
        &&& g.blocks@.len() == self.cx.graph.blocks@.len() + 3
        &&& g.blocks@[then_block.id as int].name@ == "then"@
        &&& g.blocks@[else_block.id as int].name@ == "else"@
        &&& g.blocks@[after_block.id as int].name@ == "after"@
        &&& g.block_function(then_block) == self.cx.graph.block_function(self.block)
        &&& g.block_function(else_block) == self.cx.graph.block_function(self.block)
        &&& g.block_function(after_block) == self.cx.graph.block_function(self.block)
        &&& self.block_received(
            later,
            self.block,
            seq![Instr::Conditional { cond, on_true: then_block, on_false: else_block }],
        )
        &&& g.instrs(then_block) == seq![
            Instr::Assign { target: variable, value: then_val },
            Instr::Jump { dest: after_block },
        ]
        &&& g.instrs(else_block) == seq![
            Instr::Assign { target: variable, value: self.select_else(then_val, else_val) },
            Instr::Jump { dest: after_block },
        ]
        &&& g.instrs(after_block) == Seq::<Instr>::empty()
        &&& later.block == after_block
        &&& r == self.nth(0)
    }

    /// The value `then_val` where `cond` holds, else `else_val`. The
    /// target has no expression for this, so control flow is built; mind
    /// that the cursor is at another block afterwards.
    pub fn select(&mut self, cond: RValue, then_val: RValue, else_val: RValue) -> (r: RValue)
        requires
            old(self).wf(),
            old(self).ready(),
            old(self).has_value(cond),
            old(self).has_value(then_val),
            old(self).has_value(else_val),
        ensures
            old(self).selected(final(self), cond, then_val, else_val, r),
            final(self).wf(),
            final(self).ready(),
    {
        proof {
            old(self).lemma_wf();
        }
        let entry = self.block;
        let ty = self.val_ty(then_val);
        let variable = self.local(ty, "selectVar");
        let ghost s1 = *self;
        let then_block = self.append_sibling_block("then");
        let ghost s2 = *self;
        let else_block = self.append_sibling_block("else");
        let ghost s3 = *self;
        let after_block = self.append_sibling_block("after");
        let ghost s4 = *self;
        proof {
            old(self).lemma_grew_trans(&s1, &s2);
            old(self).lemma_grew_trans(&s2, &s3);
            old(self).lemma_grew_trans(&s3, &s4);
        }
        self.emit_in(entry, Instr::Conditional { cond, on_true: then_block, on_false: else_block });
        let ghost s5 = *self;
        self.emit_in(then_block, Instr::Assign { target: variable, value: then_val });
        let ghost s6 = *self;
        self.emit_in(then_block, Instr::Jump { dest: after_block });
        let ghost s7 = *self;
        proof {
            old(self).lemma_grew_trans(&s4, &s5);
            old(self).lemma_grew_trans(&s5, &s6);
            old(self).lemma_grew_trans(&s6, &s7);
        }
        let else_type = self.val_ty(else_val);
        let else_val2 = if !self.is_compatible(ty, else_type) {
            self.cast(else_val, ty)
        } else {
            else_val
        };
        let ghost s8 = *self;
        self.emit_in(else_block, Instr::Assign { target: variable, value: else_val2 });
        let ghost s9 = *self;
        self.emit_in(else_block, Instr::Jump { dest: after_block });
        let ghost s10 = *self;
        self.switch_to_block(after_block);
        proof {
            if old(self).select_converts(then_val, else_val) {
                old(self).lemma_grew_trans(&s7, &s8);
            }
            old(self).lemma_grew_trans(&s8, &s9);
            old(self).lemma_grew_trans(&s9, &s10);
            assert(old(self).grew_into(self)) by {
                reveal(Builder::grew_into);
            }
            assert(self.cx.graph.nodes@ =~= old(self).cx.graph.nodes@ + if old(
                self,
            ).select_converts(then_val, else_val) {
                seq![old(self).var_node(ty), Self::cast_node(else_val, ty)]
            } else {
                seq![old(self).var_node(ty)]
            });
            assert(self.cx.graph.instrs(entry) =~= old(self).cx.graph.instrs(entry) + seq![
                Instr::Conditional { cond, on_true: then_block, on_false: else_block },
            ]);
            assert(self.cx.graph.instrs(then_block) =~= seq![
                Instr::Assign { target: variable, value: then_val },
                Instr::Jump { dest: after_block },
            ]);
            assert(self.cx.graph.instrs(else_block) =~= seq![
                Instr::Assign { target: variable, value: else_val2 },
                Instr::Jump { dest: after_block },
            ]);
        }
        variable.to_rvalue()
    }
}

impl Builder {
    /// A one-operand operator applied to `a`, of the type `ty`.
    pub(crate) fn unary(&mut self, op: UnaryOp, ty: Type, a: RValue) -> (r: RValue)
        requires
            old(self).wf(),
            old(self).has_value(a),
            old(self).has_type(ty),
        ensures
            old(self).emits(final(self), r, Self::unary_node(op, ty, a)),
    {
        proof {
            reveal(Builder::wf);
            reveal(Builder::grew_into);
        }
        let r = self.cx.graph.new_unary_op(op, ty, a);
        proof {
            old(self).cx.lemma_grown(&self.cx);
        }
        r
    }

    /// A two-operand operator applied to `a` and `b`, of the type `ty`.
    pub(crate) fn binary(&mut self, op: BinaryOp, ty: Type, a: RValue, b: RValue) -> (r: RValue)
        requires
            old(self).wf(),
            old(self).has_value(a),
            old(self).has_value(b),
            old(self).has_type(ty),
        ensures
            old(self).emits(final(self), r, Self::binary_node(op, ty, a, b)),
    {
        proof {
            reveal(Builder::wf);
            reveal(Builder::grew_into);
        }
        let r = self.cx.graph.new_binary_op(op, ty, a, b);
        proof {
            old(self).cx.lemma_grown(&self.cx);
        }
        r
    }
}

} // verus!
