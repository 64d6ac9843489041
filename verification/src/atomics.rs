//! Atomic operations. The target has no atomic instructions: each atomic
//! is a call of a builtin of the operand's width, and the extremum
//! operations, which have no builtin, are a retry loop round a
//! compare-and-exchange.

use vstd::prelude::*;
use crate::builder::Builder;
use crate::builtins::Prim;
use crate::graph::{Builtin, Instr, LValue, Node, NodeKind, RValue, Scope};
use crate::layout::{Align, Size};
use crate::ops::{
    AtomicOrdering, AtomicRmwBinOp, BinaryOp, ExtremumOperation, FetchOp, SynchronizationScope,
    UnaryOp,
};
use crate::types::{int_width, prefix_of, Type, TypeKind};

verus! {

impl Builder {
    /// The handle of the type that `p` describes.
    pub(crate) fn prim_type(&mut self, p: Prim) -> (t: Type)
        requires
            old(self).wf(),
            p.known(),
        ensures
            old(self).grew_into(final(self)),
            old(self).sound(final(self)),
            old(self).same_cursor(final(self)),
            old(self).cx.graph.types_grew(&final(self).cx.graph),
            final(self).cx.graph.types.is_prim(t, p),
            final(self).has_type(t),
    {
        proof {
            reveal(Builder::wf);
            reveal(Builder::grew_into);
        }
        let t = self.cx.graph.prim(p);
        proof {
            old(self).cx.lemma_grown(&self.cx);
        }
        t
    }

    /// A described type keeps its description when the builder goes on.
    pub proof fn lemma_prim_kept(&self, later: &Builder, t: Type, p: Prim)
        requires
            self.grew_into(later),
            self.cx.graph.types.is_prim(t, p),
        ensures
            later.cx.graph.types.is_prim(t, p),
    {
        reveal(Builder::grew_into);
        self.cx.graph.types.lemma_prim_extended(&later.cx.graph.types, t, p);
    }

    /// The node of the constant that tells a builtin the ordering `order`.
    pub open spec fn ordering_node(&self, order: AtomicOrdering) -> Node {
        Self::const_node(order.mem_ordering().code() as u128, self.cx.i32_type)
    }

    /// The constant that tells a builtin the ordering `order`.
    pub(crate) fn ordering(&mut self, order: AtomicOrdering) -> (r: RValue)
        requires
            old(self).wf(),
        ensures
            old(self).emits(final(self), r, old(self).ordering_node(order)),
    {
        proof {
            old(self).lemma_wf();
        }
        let i32_type = self.cx.i32_type;
        let code = order.to_gcc();
        self.constant(i32_type, code as u128)
    }

    /// The width in bytes of an atomic access of `size`, where a builtin
    /// of that width exists.
    pub open spec fn atomic_width(size: Size) -> bool {
        size.bytes == 1 || size.bytes == 2 || size.bytes == 4 || size.bytes == 8 || size.bytes
            == 16
    }

    /// The node `k` places after the node `base`.
    pub open spec fn at(base: int, k: int) -> RValue {
        RValue { id: (base + k) as usize }
    }

    /// From the node `base` on stand the nodes of an atomic load: the
    /// ordering, the pointer converted to the pointer type the builtin
    /// takes, and the call of the load builtin of the width `bytes` on the
    /// two, whose arguments are the list `list`.
    pub open spec fn load_at(&self, base: int, list: int, ptr: RValue, order: AtomicOrdering, bytes: u8) -> bool {
        let g = self.cx.graph;
        let call = Self::at(base, 2);
        let f = g.kind_of(call)->Call_func;
        &&& 0 <= base && base + 3 <= g.nodes@.len()
        &&& 0 <= list < g.lists@.len()
        &&& g.nodes@[base] == self.ordering_node(order)
        &&& g.kind_of(Self::at(base, 1)) == (NodeKind::Cast { value: ptr })
        &&& g.types.is_prim(g.type_of(Self::at(base, 1)), Prim::ConstVolatileVoidPtr)
        &&& g.kind_of(call) == (NodeKind::Call { func: f, args: list as usize })
        &&& g.has_function(f)
        &&& g.declares(f, Builtin::AtomicLoad { bytes })
        &&& g.type_of(call) == g.return_type(f)
        &&& g.list(list as usize) == seq![Self::at(base, 1), Self::at(base, 0)]
    }

    /// The nodes of an atomic load stay what they are when the builder
    /// goes on.
    pub proof fn lemma_load_at_kept(&self, later: &Builder, base: int, list: int, ptr: RValue, order: AtomicOrdering, bytes: u8)
        requires
            self.grew_into(later),
            self.sound(later),
            self.load_at(base, list, ptr, order, bytes),
        ensures
            later.load_at(base, list, ptr, order, bytes),
    {
        let call = Self::at(base, 2);
        let f = self.cx.graph.kind_of(call)->Call_func;
        self.lemma_builtin_kept(later, f, Builtin::AtomicLoad { bytes });
        self.lemma_prim_kept(
            later,
            self.cx.graph.type_of(Self::at(base, 1)),
            Prim::ConstVolatileVoidPtr,
        );
        reveal(Builder::grew_into);
        assert(later.cx.graph.nodes@[base] == self.cx.graph.nodes@[base]);
        assert(later.cx.graph.nodes@[base + 1] == self.cx.graph.nodes@[base + 1]);
        assert(later.cx.graph.nodes@[base + 2] == self.cx.graph.nodes@[base + 2]);
        assert(later.cx.graph.lists@[list] == self.cx.graph.lists@[list]);
        assert(later.cx.graph.functions@[f.id as int] == self.cx.graph.functions@[f.id as int]);
    }

    /// The lowering of an atomic load: three nodes, of which the last, the
    /// call of the builtin, is the result. No instruction is appended.
    pub open spec fn atomic_loaded(&self, later: &Builder, ptr: RValue, order: AtomicOrdering, size: Size, r: RValue) -> bool {
        let g = later.cx.graph;
        &&& self.grew_into(later)
        &&& self.sound(later)
        &&& self.same_cursor(later)
        &&& g.vars@ == self.cx.graph.vars@
        &&& g.blocks@ == self.cx.graph.blocks@
        &&& g.case_lists@ == self.cx.graph.case_lists@
        &&& prefix_of(self.cx.graph.functions@, g.functions@)
        &&& g.nodes@.len() == self.cx.graph.nodes@.len() + 3
        &&& prefix_of(self.cx.graph.nodes@, g.nodes@)
        &&& g.lists@.len() == self.cx.graph.lists@.len() + 1
        &&& prefix_of(self.cx.graph.lists@, g.lists@)
        &&& later.load_at(
            self.cx.graph.nodes@.len() as int,
            self.cx.graph.lists@.len() as int,
            ptr,
            order,
            size.bytes as u8,
        )
        &&& r == self.nth(2)
    }

    /// Reads what `ptr` points to atomically, with the ordering `order`.
    pub fn atomic_load(&mut self, _ty: Type, ptr: RValue, order: AtomicOrdering, size: Size) -> (r:
        RValue)
        requires
            old(self).wf(),
            old(self).has_value(ptr),
            Self::atomic_width(size),
        ensures
            old(self).atomic_loaded(final(self), ptr, order, size, r),
            final(self).wf(),
            final(self).has_value(r),
            final(self).has_type(final(self).type_of(r)),
    {
        let b = Builtin::AtomicLoad { bytes: size.bytes() as u8 };
        let f = self.builtin(b);
        let ghost s1 = *self;
        let ordering = self.ordering(order);
        let ghost s2 = *self;
        let t = self.prim_type(Prim::ConstVolatileVoidPtr);
        let ghost s3 = *self;
        let ptr2 = self.cast(ptr, t);
        let ghost s4 = *self;
        let mut args: Vec<RValue> = Vec::new();
        args.push(ptr2);
        args.push(ordering);
        let r = self.call_of(f, args);
        proof {
            old(self).lemma_grew_trans(&s1, &s2);
            old(self).lemma_grew_trans(&s2, &s3);
            old(self).lemma_grew_trans(&s3, &s4);
            old(self).lemma_grew_trans(&s4, self);
            s1.lemma_grew_trans(&s2, &s3);
            s1.lemma_grew_trans(&s3, &s4);
            s1.lemma_grew_trans(&s4, self);
            s1.lemma_builtin_kept(self, f, b);
            s3.lemma_grew_trans(&s4, self);
            s3.lemma_prim_kept(self, t, Prim::ConstVolatileVoidPtr);
            assert(s4.cx.graph.functions@ == s1.cx.graph.functions@);
            assert(self.cx.graph.list(old(self).cx.graph.lists@.len() as usize) =~= seq![
                old(self).nth(1),
                old(self).nth(0),
            ]);
        }
        r
    }
}

impl Builder {
    /// The lowering of an atomic store: the ordering, the pointer and the
    /// value converted to the types the builtin takes, and the call of the
    /// store builtin of the width `size` on the three, evaluated in the
    /// block under the cursor.
    pub open spec fn atomic_stored(&self, later: &Builder, value: RValue, ptr: RValue, order: AtomicOrdering, size: Size) -> bool {
        let g = later.cx.graph;
        let call = self.nth(3);
        let f = g.kind_of(call)->Call_func;
        let bytes = size.bytes as u8;
        &&& self.grew_into(later)
        &&& self.sound(later)
        &&& self.same_cursor(later)
        &&& g.vars@ == self.cx.graph.vars@
        &&& g.blocks@.len() == self.cx.graph.blocks@.len()
        &&& g.case_lists@ == self.cx.graph.case_lists@
        &&& prefix_of(self.cx.graph.functions@, g.functions@)
        &&& g.nodes@.len() == self.cx.graph.nodes@.len() + 4
        &&& prefix_of(self.cx.graph.nodes@, g.nodes@)
        &&& g.nodes@[self.nth(0).id as int] == self.ordering_node(order)
        &&& g.kind_of(self.nth(1)) == (NodeKind::Cast { value: ptr })
        &&& g.types.is_prim(g.type_of(self.nth(1)), Prim::VolatileVoidPtr)
        &&& g.kind_of(self.nth(2)) == (NodeKind::Cast { value })
        &&& g.types.is_prim(g.type_of(self.nth(2)), Prim::UInt { bytes })
        &&& g.kind_of(call) == (NodeKind::Call { func: f, args: self.cx.graph.lists@.len() as usize })
        &&& g.has_function(f)
        &&& g.declares(f, Builtin::AtomicStore { bytes })
        &&& g.lists@.len() == self.cx.graph.lists@.len() + 1
        &&& prefix_of(self.cx.graph.lists@, g.lists@)
        &&& g.list(self.cx.graph.lists@.len() as usize) == seq![
            self.nth(1),
            self.nth(2),
            self.nth(0),
        ]
        &&& self.block_received(later, self.block, seq![Instr::Eval { value: call }])
    }

    /// Stores `value` where `ptr` points to atomically, with the ordering
    /// `order`.
    pub fn atomic_store(&mut self, value: RValue, ptr: RValue, order: AtomicOrdering, size: Size)
        requires
            old(self).wf(),
            old(self).ready(),
            old(self).has_value(value),
            old(self).has_value(ptr),
            Self::atomic_width(size),
        ensures
            old(self).atomic_stored(final(self), value, ptr, order, size),
            final(self).wf(),
            final(self).ready(),
    {
        let b = Builtin::AtomicStore { bytes: size.bytes() as u8 };
        let f = self.builtin(b);
        let ghost s1 = *self;
        let ordering = self.ordering(order);
        let ghost s2 = *self;
        let t = self.prim_type(Prim::VolatileVoidPtr);
        let ghost s3 = *self;
        let ptr2 = self.cast(ptr, t);
        let ghost s4 = *self;
        proof {
            old(self).lemma_grew_trans(&s1, &s2);
            old(self).lemma_grew_trans(&s2, &s3);
            old(self).lemma_grew_trans(&s3, &s4);
            s1.lemma_grew_trans(&s2, &s3);
            s1.lemma_grew_trans(&s3, &s4);
            s1.lemma_builtin_kept(&s4, f, b);
            assert(s4.cx.graph.functions@ == s1.cx.graph.functions@);
        }
        let int_type = self.param_type(f, 1);
        let value2 = self.cast(value, int_type);
        let ghost s5 = *self;
        let mut args: Vec<RValue> = Vec::new();
        args.push(ptr2);
        args.push(value2);
        args.push(ordering);
        let call = self.call_of(f, args);
        let ghost s6 = *self;
        self.eval(call);
        proof {
            old(self).lemma_grew_trans(&s4, &s5);
            old(self).lemma_grew_trans(&s5, &s6);
            old(self).lemma_grew_trans(&s6, self);
            s4.lemma_grew_trans(&s5, &s6);
            s4.lemma_grew_trans(&s6, self);
            s4.lemma_builtin_kept(self, f, b);
            s3.lemma_grew_trans(&s4, self);
            s3.lemma_prim_kept(self, t, Prim::VolatileVoidPtr);
            s4.lemma_prim_kept(self, int_type, Prim::UInt { bytes: size.bytes as u8 });
            assert(self.cx.graph.list(old(self).cx.graph.lists@.len() as usize) =~= seq![
                old(self).nth(1),
                old(self).nth(2),
                old(self).nth(0),
            ]);
            assert(self.cx.graph.instrs(self.block) =~= old(self).cx.graph.instrs(old(self).block)
                + seq![Instr::Eval { value: call }]);
        }
    }

    /// The builtin of a fence of the given reach.
    pub open spec fn fence_builtin(scope: SynchronizationScope) -> Builtin {
        match scope {
            SynchronizationScope::SingleThread => Builtin::AtomicSignalFence,
            SynchronizationScope::CrossThread => Builtin::AtomicThreadFence,
        }
    }

    /// The lowering of a fence: the ordering, and the call of the fence
    /// builtin on it, evaluated in the block under the cursor.
    pub open spec fn fenced(&self, later: &Builder, order: AtomicOrdering, scope: SynchronizationScope) -> bool {
        let g = later.cx.graph;
        let call = self.nth(1);
        let f = g.kind_of(call)->Call_func;
        &&& self.grew_into(later)
        &&& self.sound(later)
        &&& self.same_cursor(later)
        &&& g.vars@ == self.cx.graph.vars@
        &&& g.blocks@.len() == self.cx.graph.blocks@.len()
        &&& g.case_lists@ == self.cx.graph.case_lists@
        &&& prefix_of(self.cx.graph.functions@, g.functions@)
        &&& g.nodes@.len() == self.cx.graph.nodes@.len() + 2
        &&& prefix_of(self.cx.graph.nodes@, g.nodes@)
        &&& g.nodes@[self.nth(0).id as int] == self.ordering_node(order)
        &&& g.kind_of(call) == (NodeKind::Call { func: f, args: self.cx.graph.lists@.len() as usize })
        &&& g.has_function(f)
        &&& g.declares(f, Self::fence_builtin(scope))
        &&& g.lists@.len() == self.cx.graph.lists@.len() + 1
        &&& prefix_of(self.cx.graph.lists@, g.lists@)
        &&& g.list(self.cx.graph.lists@.len() as usize) == seq![self.nth(0)]
        &&& self.block_received(later, self.block, seq![Instr::Eval { value: call }])
    }

    /// A fence with the ordering `order`: between threads, or against a
    /// signal handler of the same thread.
    pub fn atomic_fence(&mut self, order: AtomicOrdering, scope: SynchronizationScope)
        requires
            old(self).wf(),
            old(self).ready(),
        ensures
            old(self).fenced(final(self), order, scope),
            final(self).wf(),
            final(self).ready(),
    {
        let b = match scope {
            SynchronizationScope::SingleThread => Builtin::AtomicSignalFence,
            SynchronizationScope::CrossThread => Builtin::AtomicThreadFence,
        };
        let f = self.builtin(b);
        let ghost s1 = *self;
        let ordering = self.ordering(order);
        let ghost s2 = *self;
        let mut args: Vec<RValue> = Vec::new();
        args.push(ordering);
        let call = self.call_of(f, args);
        let ghost s3 = *self;
        self.eval(call);
        proof {
            old(self).lemma_grew_trans(&s1, &s2);
            old(self).lemma_grew_trans(&s2, &s3);
            old(self).lemma_grew_trans(&s3, self);
            s1.lemma_grew_trans(&s2, &s3);
            s1.lemma_grew_trans(&s3, self);
            s1.lemma_builtin_kept(self, f, b);
            assert(s2.cx.graph.functions@ == s1.cx.graph.functions@);
            assert(self.cx.graph.list(old(self).cx.graph.lists@.len() as usize) =~= seq![
                old(self).nth(0),
            ]);
            assert(self.cx.graph.instrs(self.block) =~= old(self).cx.graph.instrs(old(self).block)
                + seq![Instr::Eval { value: call }]);
        }
    }
}

impl Builder {
    /// Width in bytes of the type of a value.
    pub open spec fn width_of(&self, v: RValue) -> u8 {
        self.cx.graph.types.size_of(self.type_of(v)) as u8
    }

    /// Whether a value has a type whose size the target reports.
    pub open spec fn has_width(&self, v: RValue) -> bool {
        self.cx.graph.types.sized(self.type_of(v))
    }

    /// Width in bytes of the type of a value.
    pub(crate) fn width(&self, v: RValue) -> (bytes: u8)
        requires
            self.wf(),
            self.has_value(v),
            self.has_width(v),
        ensures
            bytes == self.width_of(v),
            int_width(bytes),
    {
        proof {
            reveal(Builder::wf);
        }
        let t = self.cx.graph.get_type(v);
        let size = self.cx.graph.types.get_size(t);
        size as u8
    }

    /// The type of pointers to nothing in particular, qualified volatile.
    pub open spec fn is_volatile_pointer(&self, t: Type) -> bool {
        let types = self.cx.graph.types;
        types.has(t) && types.kind(t) is Volatile && types.is_prim(
            types.kind(t).qualified(),
            Prim::VoidPtr,
        )
    }

    /// The handle of the volatile-qualified pointer type.
    pub(crate) fn volatile_pointer(&mut self) -> (t: Type)
        requires
            old(self).wf(),
        ensures
            old(self).grew_into(final(self)),
            old(self).sound(final(self)),
            old(self).same_cursor(final(self)),
            old(self).cx.graph.types_grew(&final(self).cx.graph),
            final(self).is_volatile_pointer(t),
            final(self).has_type(t),
    {
        proof {
            reveal(Builder::wf);
            reveal(Builder::grew_into);
        }
        let p = self.cx.graph.prim(Prim::VoidPtr);
        let ghost mid = self.cx.graph;
        let t = self.cx.graph.make_volatile(p);
        proof {
            mid.types.lemma_prim_extended(&self.cx.graph.types, p, Prim::VoidPtr);
            old(self).cx.lemma_grown(&self.cx);
        }
        t
    }

    /// A volatile-qualified pointer type stays one when the builder goes on.
    pub proof fn lemma_volatile_pointer_kept(&self, later: &Builder, t: Type)
        requires
            self.grew_into(later),
            self.is_volatile_pointer(t),
        ensures
            later.is_volatile_pointer(t),
    {
        reveal(Builder::grew_into);
        let types = self.cx.graph.types;
        assert(later.cx.graph.types.infos@[t.id as int] == types.infos@[t.id as int]);
        types.lemma_prim_extended(&later.cx.graph.types, types.kind(t).qualified(), Prim::VoidPtr);
    }

    /// The constant of a flag.
    pub open spec fn flag_node(&self, flag: bool) -> Node {
        Self::const_node(
            if flag {
                1
            } else {
                0
            },
            self.cx.bool_type,
        )
    }

    /// From the node `base` on stand the nodes of a compare-and-exchange:
    /// the two orderings and the weakness flag as constants; the
    /// destination converted to the volatile pointer type, the address of
    /// the storage that holds the expected value converted to a plain
    /// pointer, the new value converted to the integer the builtin takes;
    /// and the call of the builtin of the width `bytes` on the six, whose
    /// arguments are the list `list`.
    pub open spec fn exchange_at(
        &self,
        base: int,
        list: int,
        dst: RValue,
        expected: LValue,
        src: RValue,
        bytes: u8,
        order: AtomicOrdering,
        failure_order: AtomicOrdering,
        weak: bool,
    ) -> bool {
        let g = self.cx.graph;
        let call = Self::at(base, 7);
        let f = g.kind_of(call)->Call_func;
        &&& 0 <= base && base + 8 <= g.nodes@.len()
        &&& 0 <= list < g.lists@.len()
        &&& g.nodes@[base] == self.ordering_node(order)
        &&& g.nodes@[base + 1] == self.ordering_node(failure_order)
        &&& g.nodes@[base + 2] == self.flag_node(weak)
        &&& g.kind_of(Self::at(base, 3)) == (NodeKind::Cast { value: dst })
        &&& self.is_volatile_pointer(g.type_of(Self::at(base, 3)))
        &&& g.kind_of(Self::at(base, 4)) == (NodeKind::AddressOf { lvalue: expected })
        &&& g.kind_of(Self::at(base, 5)) == (NodeKind::Cast { value: Self::at(base, 4) })
        &&& g.types.is_prim(g.type_of(Self::at(base, 5)), Prim::VoidPtr)
        &&& g.kind_of(Self::at(base, 6)) == (NodeKind::Cast { value: src })
        &&& g.types.is_prim(g.type_of(Self::at(base, 6)), Prim::UInt { bytes })
        &&& g.kind_of(call) == (NodeKind::Call { func: f, args: list as usize })
        &&& g.has_function(f)
        &&& g.declares(f, Builtin::AtomicCompareExchange { bytes })
        &&& g.type_of(call) == g.return_type(f)
        &&& g.list(list as usize) == seq![
            Self::at(base, 3),
            Self::at(base, 5),
            Self::at(base, 6),
            Self::at(base, 2),
            Self::at(base, 0),
            Self::at(base, 1),
        ]
    }

    /// The nodes of a compare-and-exchange stay what they are when the
    /// builder goes on.
    pub proof fn lemma_exchange_at_kept(
        &self,
        later: &Builder,
        base: int,
        list: int,
        dst: RValue,
        expected: LValue,
        src: RValue,
        bytes: u8,
        order: AtomicOrdering,
        failure_order: AtomicOrdering,
        weak: bool,
    )
        requires
            self.grew_into(later),
            self.sound(later),
            self.exchange_at(base, list, dst, expected, src, bytes, order, failure_order, weak),
        ensures
            later.exchange_at(base, list, dst, expected, src, bytes, order, failure_order, weak),
    {
        let g = self.cx.graph;
        let call = Self::at(base, 7);
        let f = g.kind_of(call)->Call_func;
        self.lemma_builtin_kept(later, f, Builtin::AtomicCompareExchange { bytes });
        self.lemma_prim_kept(later, g.type_of(Self::at(base, 5)), Prim::VoidPtr);
        self.lemma_prim_kept(later, g.type_of(Self::at(base, 6)), Prim::UInt { bytes });
        self.lemma_volatile_pointer_kept(later, g.type_of(Self::at(base, 3)));
        reveal(Builder::grew_into);
        assert forall|k: int| 0 <= k < 8 implies later.cx.graph.nodes@[base + k]
            == #[trigger] g.nodes@[base + k] by {}
        assert(later.cx.graph.nodes@[base] == g.nodes@[base + 0]);
        assert(later.cx.graph.nodes@[base + 1] == g.nodes@[base + 1]);
        assert(later.cx.graph.nodes@[base + 2] == g.nodes@[base + 2]);
        assert(later.cx.graph.nodes@[base + 3] == g.nodes@[base + 3]);
        assert(later.cx.graph.nodes@[base + 4] == g.nodes@[base + 4]);
        assert(later.cx.graph.nodes@[base + 5] == g.nodes@[base + 5]);
        assert(later.cx.graph.nodes@[base + 6] == g.nodes@[base + 6]);
        assert(later.cx.graph.nodes@[base + 7] == g.nodes@[base + 7]);
        assert(later.cx.graph.lists@[list] == g.lists@[list]);
        assert(later.cx.graph.functions@[f.id as int] == g.functions@[f.id as int]);
    }

    /// The lowering of a compare-and-exchange: eight nodes, of which the
    /// last, the call of the builtin, is the result. No instruction is
    /// appended.
    pub open spec fn exchanged(
        &self,
        later: &Builder,
        dst: RValue,
        expected: LValue,
        src: RValue,
        order: AtomicOrdering,
        failure_order: AtomicOrdering,
        weak: bool,
        r: RValue,
    ) -> bool {
        let g = later.cx.graph;
        &&& self.grew_into(later)
        &&& self.sound(later)
        &&& self.same_cursor(later)
        &&& g.vars@ == self.cx.graph.vars@
        &&& g.blocks@ == self.cx.graph.blocks@
        &&& g.case_lists@ == self.cx.graph.case_lists@
        &&& prefix_of(self.cx.graph.functions@, g.functions@)
        &&& g.nodes@.len() == self.cx.graph.nodes@.len() + 8
        &&& prefix_of(self.cx.graph.nodes@, g.nodes@)
        &&& g.lists@.len() == self.cx.graph.lists@.len() + 1
        &&& prefix_of(self.cx.graph.lists@, g.lists@)
        &&& later.exchange_at(
            self.cx.graph.nodes@.len() as int,
            self.cx.graph.lists@.len() as int,
            dst,
            expected,
            src,
            self.width_of(src),
            order,
            failure_order,
            weak,
        )
        &&& r == self.nth(7)
    }

    /// Compares what `dst` points to with what `expected` holds and, where
    /// they are equal, replaces it by `src`; where they are not, `expected`
    /// receives what was found. The result tells whether it was replaced.
    pub(crate) fn compare_exchange(
        &mut self,
        dst: RValue,
        expected: LValue,
        src: RValue,
        order: AtomicOrdering,
        failure_order: AtomicOrdering,
        weak: bool,
    ) -> (r: RValue)
        requires
            old(self).wf(),
            old(self).has_value(dst),
            old(self).cx.graph.has_storage(expected),
            old(self).has_value(src),
            old(self).has_width(src),
        ensures
            old(self).exchanged(final(self), dst, expected, src, order, failure_order, weak, r),
            final(self).wf(),
            final(self).has_value(r),
            final(self).has_type(final(self).type_of(r)),
    {
        proof {
            old(self).lemma_wf();
        }
        let bytes = self.width(src);
        let b = Builtin::AtomicCompareExchange { bytes };
        let f = self.builtin(b);
        let ghost s1 = *self;
        let order_value = self.ordering(order);
        let ghost s2 = *self;
        let failure_value = self.ordering(failure_order);
        let ghost s3 = *self;
        let bool_type = self.cx.bool_type;
        let weak_value = self.constant(
            bool_type,
            if weak {
                1
            } else {
                0
            },
        );
        let ghost s4 = *self;
        proof {
            old(self).lemma_grew_trans(&s1, &s2);
            old(self).lemma_grew_trans(&s2, &s3);
            old(self).lemma_grew_trans(&s3, &s4);
            s1.lemma_grew_trans(&s2, &s3);
            s1.lemma_grew_trans(&s3, &s4);
        }
        let void_ptr_type = self.prim_type(Prim::VoidPtr);
        let ghost s5 = *self;
        let volatile_void_ptr_type = self.volatile_pointer();
        let ghost s6 = *self;
        let dst2 = self.cast(dst, volatile_void_ptr_type);
        let ghost s7 = *self;
        proof {
            old(self).lemma_grew_trans(&s4, &s5);
            old(self).lemma_grew_trans(&s5, &s6);
            old(self).lemma_grew_trans(&s6, &s7);
            s1.lemma_grew_trans(&s4, &s5);
            s1.lemma_grew_trans(&s5, &s6);
            s1.lemma_grew_trans(&s6, &s7);
            s5.lemma_grew_trans(&s6, &s7);
            s5.lemma_type_kept(&s7, void_ptr_type);
            assert(s7.cx.graph.has_storage(expected)) by {
                reveal(Builder::grew_into);
            }
        }
        let address = self.address(expected);
        let ghost s8 = *self;
        proof {
            s5.lemma_grew_trans(&s7, &s8);
            s5.lemma_type_kept(&s8, void_ptr_type);
        }
        let expected_value = self.cast(address, void_ptr_type);
        let ghost s9 = *self;
        proof {
            old(self).lemma_grew_trans(&s7, &s8);
            old(self).lemma_grew_trans(&s8, &s9);
            s1.lemma_grew_trans(&s7, &s8);
            s1.lemma_grew_trans(&s8, &s9);
            s1.lemma_builtin_kept(&s9, f, b);
            assert(s9.cx.graph.functions@ == s1.cx.graph.functions@);
        }
        let int_type = self.param_type(f, 2);
        let src2 = self.cast(src, int_type);
        let ghost s10 = *self;
        let mut args: Vec<RValue> = Vec::new();
        args.push(dst2);
        args.push(expected_value);
        args.push(src2);
        args.push(weak_value);
        args.push(order_value);
        args.push(failure_value);
        let r = self.call_of(f, args);
        proof {
            old(self).lemma_grew_trans(&s9, &s10);
            old(self).lemma_grew_trans(&s10, self);
            s9.lemma_grew_trans(&s10, self);
            s9.lemma_builtin_kept(self, f, b);
            s9.lemma_prim_kept(self, int_type, Prim::UInt { bytes });
            s5.lemma_grew_trans(&s8, &s9);
            s5.lemma_grew_trans(&s9, self);
            s5.lemma_prim_kept(self, void_ptr_type, Prim::VoidPtr);
            s6.lemma_grew_trans(&s7, &s8);
            s6.lemma_grew_trans(&s8, &s9);
            s6.lemma_grew_trans(&s9, self);
            s6.lemma_volatile_pointer_kept(self, volatile_void_ptr_type);
            assert(self.cx.graph.list(old(self).cx.graph.lists@.len() as usize) =~= seq![
                old(self).nth(3),
                old(self).nth(5),
                old(self).nth(6),
                old(self).nth(2),
                old(self).nth(0),
                old(self).nth(1),
            ]);
        }
        r
    }
}

impl AtomicRmwBinOp {
    /// The builtin operation of a read-modify-write that has one; the
    /// extremum operations have none.
    pub open spec fn fetch_op(self) -> Option<FetchOp> {
        match self {
            AtomicRmwBinOp::AtomicXchg => Some(FetchOp::Exchange),
            AtomicRmwBinOp::AtomicAdd => Some(FetchOp::Add),
            AtomicRmwBinOp::AtomicSub => Some(FetchOp::Sub),
            AtomicRmwBinOp::AtomicAnd => Some(FetchOp::And),
            AtomicRmwBinOp::AtomicNand => Some(FetchOp::Nand),
            AtomicRmwBinOp::AtomicOr => Some(FetchOp::Or),
            AtomicRmwBinOp::AtomicXor => Some(FetchOp::Xor),
            _ => None,
        }
    }

    /// The extremum an extremum operation keeps.
    pub open spec fn extremum(self) -> ExtremumOperation {
        match self {
            AtomicRmwBinOp::AtomicMin => ExtremumOperation::Min,
            AtomicRmwBinOp::AtomicUMin => ExtremumOperation::UMin,
            AtomicRmwBinOp::AtomicUMax => ExtremumOperation::UMax,
            _ => ExtremumOperation::Max,
        }
    }

    pub fn to_fetch_op(self) -> (r: Option<FetchOp>)
        ensures
            r == self.fetch_op(),
    {
        match self {
            AtomicRmwBinOp::AtomicXchg => Some(FetchOp::Exchange),
            AtomicRmwBinOp::AtomicAdd => Some(FetchOp::Add),
            AtomicRmwBinOp::AtomicSub => Some(FetchOp::Sub),
            AtomicRmwBinOp::AtomicAnd => Some(FetchOp::And),
            AtomicRmwBinOp::AtomicNand => Some(FetchOp::Nand),
            AtomicRmwBinOp::AtomicOr => Some(FetchOp::Or),
            AtomicRmwBinOp::AtomicXor => Some(FetchOp::Xor),
            _ => None,
        }
    }

    pub fn to_extremum(self) -> (r: ExtremumOperation)
        ensures
            r == self.extremum(),
    {
        match self {
            AtomicRmwBinOp::AtomicMin => ExtremumOperation::Min,
            AtomicRmwBinOp::AtomicUMin => ExtremumOperation::UMin,
            AtomicRmwBinOp::AtomicUMax => ExtremumOperation::UMax,
            _ => ExtremumOperation::Max,
        }
    }
}

impl Builder {
    /// The lowering of a read-modify-write that has a builtin: the
    /// ordering, the destination converted to the volatile pointer type,
    /// the operand converted to the integer the builtin takes, the call
    /// of the builtin of the operand's width on the three, and the call
    /// converted to that integer type again, which is the result. No
    /// instruction is appended.
    pub open spec fn fetched(&self, later: &Builder, op: FetchOp, dst: RValue, src: RValue, order: AtomicOrdering, r: RValue) -> bool {
        let g = later.cx.graph;
        let call = self.nth(3);
        let f = g.kind_of(call)->Call_func;
        let bytes = self.width_of(src);
        &&& self.grew_into(later)
        &&& self.sound(later)
        &&& self.same_cursor(later)
        &&& g.vars@ == self.cx.graph.vars@
        &&& g.blocks@ == self.cx.graph.blocks@
        &&& g.case_lists@ == self.cx.graph.case_lists@
        &&& prefix_of(self.cx.graph.functions@, g.functions@)
        &&& g.nodes@.len() == self.cx.graph.nodes@.len() + 5
        &&& prefix_of(self.cx.graph.nodes@, g.nodes@)
        &&& g.nodes@[self.nth(0).id as int] == self.ordering_node(order)
        &&& g.kind_of(self.nth(1)) == (NodeKind::Cast { value: dst })
        &&& later.is_volatile_pointer(g.type_of(self.nth(1)))
        &&& g.kind_of(self.nth(2)) == (NodeKind::Cast { value: src })
        &&& g.types.is_prim(g.type_of(self.nth(2)), Prim::UInt { bytes })
        &&& g.kind_of(call) == (NodeKind::Call { func: f, args: self.cx.graph.lists@.len() as usize })
        &&& g.has_function(f)
        &&& g.declares(f, Builtin::AtomicFetch { op, bytes })
        &&& g.type_of(call) == g.return_type(f)
        &&& g.lists@.len() == self.cx.graph.lists@.len() + 1
        &&& prefix_of(self.cx.graph.lists@, g.lists@)
        &&& g.list(self.cx.graph.lists@.len() as usize) == seq![
            self.nth(1),
            self.nth(2),
            self.nth(0),
        ]
        &&& g.kind_of(self.nth(4)) == (NodeKind::Cast { value: call })
        &&& g.type_of(self.nth(4)) == g.type_of(self.nth(2))
        &&& r == self.nth(4)
    }

    pub(crate) fn atomic_fetch(&mut self, op: FetchOp, dst: RValue, src: RValue, order: AtomicOrdering) -> (r:
        RValue)
        requires
            old(self).wf(),
            old(self).has_value(dst),
            old(self).has_value(src),
            old(self).has_width(src),
        ensures
            old(self).fetched(final(self), op, dst, src, order, r),
            final(self).wf(),
            final(self).has_value(r),
    {
        let bytes = self.width(src);
        let b = Builtin::AtomicFetch { op, bytes };
        let f = self.builtin(b);
        let ghost s1 = *self;
        let order_value = self.ordering(order);
        let ghost s2 = *self;
        let volatile_void_ptr_type = self.volatile_pointer();
        let ghost s3 = *self;
        let dst2 = self.cast(dst, volatile_void_ptr_type);
        let ghost s4 = *self;
        proof {
            old(self).lemma_grew_trans(&s1, &s2);
            old(self).lemma_grew_trans(&s2, &s3);
            old(self).lemma_grew_trans(&s3, &s4);
            s1.lemma_grew_trans(&s2, &s3);
            s1.lemma_grew_trans(&s3, &s4);
            s1.lemma_builtin_kept(&s4, f, b);
            assert(s4.cx.graph.functions@ == s1.cx.graph.functions@);
        }
        let new_src_type = self.param_type(f, 1);
        let src2 = self.cast(src, new_src_type);
        let ghost s5 = *self;
        let mut args: Vec<RValue> = Vec::new();
        args.push(dst2);
        args.push(src2);
        args.push(order_value);
        let res = self.call_of(f, args);
        let ghost s6 = *self;
        let r = self.cast(res, new_src_type);
        proof {
            old(self).lemma_grew_trans(&s4, &s5);
            old(self).lemma_grew_trans(&s5, &s6);
            old(self).lemma_grew_trans(&s6, self);
            s4.lemma_grew_trans(&s5, &s6);
            s4.lemma_grew_trans(&s6, self);
            s4.lemma_builtin_kept(self, f, b);
            s4.lemma_prim_kept(self, new_src_type, Prim::UInt { bytes });
            s3.lemma_grew_trans(&s4, self);
            s3.lemma_volatile_pointer_kept(self, volatile_void_ptr_type);
            assert(self.cx.graph.list(old(self).cx.graph.lists@.len() as usize) =~= seq![
                old(self).nth(1),
                old(self).nth(2),
                old(self).nth(0),
            ]);
        }
        r
    }

    /// The lowering of an extremum read-modify-write, a retry loop. The
    /// block under the cursor loads what `dst` points to, keeps it in a
    /// local that the loop works on and in a local that is the result,
    /// and jumps to the loop. The loop is one block: it goes round while
    /// what was found has to be replaced (it is below the operand for a
    /// maximum, above it for a minimum) and the compare-and-exchange that
    /// is then tried fails; it leaves for the block after it, which is
    /// empty and where the cursor is.
    pub open spec fn extremum_lowered(
        &self,
        later: &Builder,
        operation: ExtremumOperation,
        dst: RValue,
        src: RValue,
        order: AtomicOrdering,
        r: RValue,
    ) -> bool {
        let g = later.cx.graph;
        let n = self.cx.graph.nodes@.len() as int;
        let lists = self.cx.graph.lists@.len() as int;
        let bytes = self.width_of(src);
        let loaded = self.nth(2);
        let ty = g.type_of(loaded);
        let previous = self.nth_storage(3);
        let result = self.nth_storage(4);
        let loop_block = self.nth_block(0);
        let after_block = self.nth_block(1);
        let current = self.cx.graph.block_function(self.block);
        let vars = self.cx.graph.vars@.len() as int;
        &&& self.grew_into(later)
        &&& self.sound(later)
        &&& later.stack_var_count == self.stack_var_count
        &&& later.cx.return_value_count == self.cx.return_value_count
        &&& g.case_lists@ == self.cx.graph.case_lists@
        &&& prefix_of(self.cx.graph.functions@, g.functions@)
        &&& prefix_of(self.cx.graph.nodes@, g.nodes@)
        &&& prefix_of(self.cx.graph.lists@, g.lists@)
        &&& g.nodes@.len() == n + 17
        &&& g.lists@.len() == lists + 2
        &&& later.load_at(n, lists, dst, order.load_ordering(), bytes)
        &&& g.vars@.len() == self.cx.graph.vars@.len() + 2
        &&& prefix_of(self.cx.graph.vars@, g.vars@)
        &&& g.vars@[self.cx.graph.vars@.len() as int].name@ == "previous_value"@
        &&& g.vars@[self.cx.graph.vars@.len() as int].ty == ty
        &&& g.vars@[self.cx.graph.vars@.len() as int].scope == (Scope::Local {
            func: current,
        })
        &&& g.vars@[self.cx.graph.vars@.len() as int + 1].name@ == "return_value"@
        &&& g.vars@[self.cx.graph.vars@.len() as int + 1].ty == ty
        &&& g.vars@[self.cx.graph.vars@.len() as int + 1].scope == (Scope::Local {
            func: current,
        })
        &&& g.nodes@[n + 3] == self.var_node(ty)
        &&& g.nodes@[n + 4] == (Node {
            kind: NodeKind::Var { var: (self.cx.graph.vars@.len() + 1) as usize },
            ty,
        })
        &&& g.nodes@[n + 5] == if operation.signed() {
            Self::cast_node(previous.read(), self.type_of(src))
        } else {
            Self::cast_node(src, ty)
        }
        &&& g.nodes@[n + 6] == (Node {
            kind: if operation.signed() {
                NodeKind::Comparison { op: operation.replace_test(), lhs: self.nth(5), rhs: src }
            } else {
                NodeKind::Comparison {
                    op: operation.replace_test(),
                    lhs: previous.read(),
                    rhs: self.nth(5),
                }
            },
            ty: self.cx.bool_type,
        })
        &&& later.exchange_at(
            n + 7,
            lists + 1,
            dst,
            previous,
            src,
            bytes,
            order,
            order.load_ordering(),
            false,
        )
        &&& g.nodes@[n + 15] == Self::unary_node(
            UnaryOp::LogicalNegate,
            g.type_of(self.nth(14)),
            self.nth(14),
        )
        &&& g.nodes@[n + 16] == Self::binary_node(
            BinaryOp::LogicalAnd,
            self.cx.bool_type,
            self.nth(6),
            self.nth(15),
        )
        &&& g.blocks@.len() == self.cx.graph.blocks@.len() + 2
        &&& g.blocks@[loop_block.id as int].name@ == "while"@
        &&& g.blocks@[after_block.id as int].name@ == "after_while"@
        &&& g.block_function(loop_block) == current
        &&& g.block_function(after_block) == current
        &&& self.block_received(
            later,
            self.block,
            seq![
                Instr::Assign { target: previous, value: loaded },
                Instr::Assign { target: result, value: previous.read() },
                Instr::Jump { dest: loop_block },
            ],
        )
        &&& g.instrs(loop_block) == seq![
            Instr::Conditional { cond: self.nth(16), on_true: loop_block, on_false: after_block },
        ]
        &&& g.instrs(after_block) == Seq::<Instr>::empty()
        &&& later.block == after_block
        &&& r == result.read()
    }
}

impl Builder {
    /// An extremum read-modify-write: what `dst` points to becomes the
    /// larger (or the smaller) of itself and `src`; the result is what it
    /// was before. Mind that the cursor is at another block afterwards.
    pub(crate) fn atomic_extremum(
        &mut self,
        operation: ExtremumOperation,
        dst: RValue,
        src: RValue,
        order: AtomicOrdering,
    ) -> (r: RValue)
        requires
            old(self).wf(),
            old(self).ready(),
            old(self).has_value(dst),
            old(self).has_value(src),
            old(self).has_width(src),
        ensures
            old(self).extremum_lowered(final(self), operation, dst, src, order, r),
            final(self).wf(),
            final(self).ready(),
            final(self).has_value(r),
    {
        proof {
            old(self).lemma_wf();
        }
        let ghost n = self.cx.graph.nodes@.len() as int;
        let ghost lists = self.cx.graph.lists@.len() as int;
        let entry = self.block;
        let bytes = self.width(src);
        let load_ordering = order.to_load_ordering();
        let dst_type = self.val_ty(dst);
        let previous_value = self.atomic_load(
            dst_type,
            dst,
            load_ordering,
            Size::from_bytes(bytes as u64),
        );
        let ghost s1 = *self;
        let ty = self.val_ty(previous_value);
        let previous_var = self.local(ty, "previous_value");
        let ghost s2 = *self;
        let return_value = self.local(ty, "return_value");
        let ghost s3 = *self;
        self.assign(previous_var, previous_value);
        let ghost s4 = *self;
        self.assign(return_value, previous_var.to_rvalue());
        let ghost s5 = *self;
        let while_block = self.append_sibling_block("while");
        let ghost s6 = *self;
        let after_block = self.append_sibling_block("after_while");
        let ghost s7 = *self;
        self.br(while_block);
        let ghost s8 = *self;
        self.switch_to_block(while_block);
        let ghost s9 = *self;
        proof {
            old(self).lemma_grew_trans(&s1, &s2);
            old(self).lemma_grew_trans(&s2, &s3);
            old(self).lemma_grew_trans(&s3, &s4);
            old(self).lemma_grew_trans(&s4, &s5);
            old(self).lemma_grew_trans(&s5, &s6);
            old(self).lemma_grew_trans(&s6, &s7);
            old(self).lemma_grew_trans(&s7, &s8);
            assert(s8.grew_into(&s9)) by {
                s8.lemma_grew_refl();
                reveal(Builder::grew_into);
            }
            old(self).lemma_grew_trans(&s8, &s9);
            s1.lemma_grew_trans(&s2, &s3);
            s1.lemma_grew_trans(&s3, &s4);
            s1.lemma_grew_trans(&s4, &s5);
            s1.lemma_grew_trans(&s5, &s6);
            s1.lemma_grew_trans(&s6, &s7);
            s1.lemma_grew_trans(&s7, &s8);
            s1.lemma_grew_trans(&s8, &s9);
            assert(s9.cx.graph.instrs(entry) =~= old(self).cx.graph.instrs(entry) + seq![
                Instr::Assign { target: previous_var, value: previous_value },
                Instr::Assign { target: return_value, value: previous_var.read() },
                Instr::Jump { dest: while_block },
            ]);
        }
        let comparison_operator = operation.to_replace_test();
        proof {
            old(self).lemma_value_kept(&s9, src);
        }
        let signed = operation.is_signed();
        let src_type = self.val_ty(src);
        let candidate = if signed {
            self.cast(previous_var.to_rvalue(), src_type)
        } else {
            self.cast(src, ty)
        };
        let ghost s10 = *self;
        proof {
            old(self).lemma_grew_trans(&s9, &s10);
            old(self).lemma_value_kept(&s10, src);
        }
        let cond1 = if signed {
            self.comparison(comparison_operator, candidate, src)
        } else {
            self.comparison(comparison_operator, previous_var.to_rvalue(), candidate)
        };
        let ghost s11 = *self;
        proof {
            old(self).lemma_grew_trans(&s9, &s10);
            old(self).lemma_grew_trans(&s10, &s11);
            old(self).lemma_value_kept(&s11, src);
            assert(s1.cx.graph.nodes@.len() == n + 3);
            assert(s3.cx.graph.nodes@.len() == n + 5);
            assert(s9.cx.graph.nodes@.len() == n + 5);
            assert(s11.cx.graph.nodes@.len() == n + 7);
            assert(s11.cx.graph.lists@.len() == lists + 1);
            assert(s11.width_of(src) == bytes);
        }
        let compare_exchange = self.compare_exchange(
            dst,
            previous_var,
            src,
            order,
            load_ordering,
            false,
        );
        let ghost s12 = *self;
        let exchange_type = self.val_ty(compare_exchange);
        let cond2 = self.unary(UnaryOp::LogicalNegate, exchange_type, compare_exchange);
        let ghost s13 = *self;
        let bool_type = self.cx.bool_type;
        let cond = self.binary(BinaryOp::LogicalAnd, bool_type, cond1, cond2);
        let ghost s14 = *self;
        self.cond_br(cond, while_block, after_block);
        let ghost s15 = *self;
        self.switch_to_block(after_block);
        proof {
            old(self).lemma_grew_trans(&s9, &s10);
            old(self).lemma_grew_trans(&s10, &s11);
            old(self).lemma_grew_trans(&s11, &s12);
            old(self).lemma_grew_trans(&s12, &s13);
            old(self).lemma_grew_trans(&s13, &s14);
            old(self).lemma_grew_trans(&s14, &s15);
            assert(s15.grew_into(self)) by {
                s15.lemma_grew_refl();
                reveal(Builder::grew_into);
            }
            old(self).lemma_grew_trans(&s15, self);
            s1.lemma_grew_trans(&s9, &s10);
            s1.lemma_grew_trans(&s10, &s11);
            s1.lemma_grew_trans(&s11, &s12);
            s1.lemma_grew_trans(&s12, &s13);
            s1.lemma_grew_trans(&s13, &s14);
            s1.lemma_grew_trans(&s14, &s15);
            s1.lemma_grew_trans(&s15, self);
            s1.lemma_load_at_kept(self, n, lists, dst, load_ordering, bytes);
            s12.lemma_grew_trans(&s13, &s14);
            s12.lemma_grew_trans(&s14, &s15);
            s12.lemma_grew_trans(&s15, self);
            s12.lemma_exchange_at_kept(
                self,
                n + 7,
                lists + 1,
                dst,
                previous_var,
                src,
                bytes,
                order,
                load_ordering,
                false,
            );
            assert(self.cx.graph.instrs(while_block) =~= seq![
                Instr::Conditional { cond, on_true: while_block, on_false: after_block },
            ]);
            assert(self.cx.graph.instrs(entry) == s9.cx.graph.instrs(entry));
            old(self).lemma_grew_prefixes(self);
            s1.lemma_grew_prefixes(self);
            s2.lemma_grew_trans(&s3, &s4);
            s2.lemma_grew_trans(&s4, &s5);
            s2.lemma_grew_trans(&s5, &s6);
            s2.lemma_grew_trans(&s6, &s7);
            s2.lemma_grew_trans(&s7, &s8);
            s2.lemma_grew_trans(&s8, &s9);
            s2.lemma_grew_trans(&s9, &s10);
            s2.lemma_grew_trans(&s10, &s11);
            s2.lemma_grew_trans(&s11, &s12);
            s2.lemma_grew_trans(&s12, &s13);
            s2.lemma_grew_trans(&s13, &s14);
            s2.lemma_grew_trans(&s14, &s15);
            s2.lemma_grew_trans(&s15, self);
            s2.lemma_grew_prefixes(self);
            s3.lemma_grew_trans(&s4, &s5);
            s3.lemma_grew_trans(&s5, &s6);
            s3.lemma_grew_trans(&s6, &s7);
            s3.lemma_grew_trans(&s7, &s8);
            s3.lemma_grew_trans(&s8, &s9);
            s3.lemma_grew_trans(&s9, &s10);
            s3.lemma_grew_trans(&s10, &s11);
            s3.lemma_grew_trans(&s11, &s12);
            s3.lemma_grew_trans(&s12, &s13);
            s3.lemma_grew_trans(&s13, &s14);
            s3.lemma_grew_trans(&s14, &s15);
            s3.lemma_grew_trans(&s15, self);
            s3.lemma_grew_prefixes(self);
            assert(self.cx.graph.nodes@[n + 2] == s1.cx.graph.nodes@[n + 2]);
            assert(self.cx.graph.nodes@[n + 3] == s2.cx.graph.nodes@[n + 3]);
            assert(self.cx.graph.nodes@[n + 4] == s3.cx.graph.nodes@[n + 4]);
            assert(self.cx.graph.nodes@.len() == n + 17);
            assert(self.cx.graph.nodes@[n + 16] == Self::binary_node(
                BinaryOp::LogicalAnd,
                bool_type,
                cond1,
                cond2,
            ));
            assert(s14.cx.graph.nodes@[n + 15] == Self::unary_node(
                UnaryOp::LogicalNegate,
                exchange_type,
                compare_exchange,
            ));
            assert(self.cx.graph.nodes@[n + 15] == s14.cx.graph.nodes@[n + 15]);
            assert(s14.cx.graph.nodes@[n + 6] == s11.cx.graph.nodes@[n + 6]);
            assert(s14.cx.graph.nodes@[n + 5] == s11.cx.graph.nodes@[n + 5]);
            assert(self.cx.graph.nodes@[n + 6] == s14.cx.graph.nodes@[n + 6]);
            assert(self.cx.graph.nodes@[n + 5] == s14.cx.graph.nodes@[n + 5]);
            assert(self.cx.graph.nodes@[n + 14] == s12.cx.graph.nodes@[n + 14]);
            assert(self.cx.graph.blocks@.len() == old(self).cx.graph.blocks@.len() + 2);
            assert(self.cx.graph.instrs(after_block) =~= Seq::<Instr>::empty());
            assert(old(self).block_received(
                self,
                entry,
                seq![
                    Instr::Assign { target: previous_var, value: previous_value },
                    Instr::Assign { target: return_value, value: previous_var.read() },
                    Instr::Jump { dest: while_block },
                ],
            ));
            assert(self.cx.graph.vars@[old(self).cx.graph.vars@.len() as int]
                == s2.cx.graph.vars@[old(self).cx.graph.vars@.len() as int]);
            assert(self.cx.graph.vars@[old(self).cx.graph.vars@.len() as int + 1]
                == s3.cx.graph.vars@[old(self).cx.graph.vars@.len() as int + 1]);
        }
        return_value.to_rvalue()
    }
}

impl Builder {
    /// An atomic read-modify-write: what `dst` points to is combined with
    /// `src` as `op` says; the result is what it was before. An operation
    /// with a builtin is one call. An extremum is a retry loop: mind that
    /// the cursor is at another block afterwards.
    pub fn atomic_rmw(&mut self, op: AtomicRmwBinOp, dst: RValue, src: RValue, order: AtomicOrdering) -> (r:
        RValue)
        requires
            old(self).wf(),
            old(self).ready(),
            old(self).has_value(dst),
            old(self).has_value(src),
            old(self).has_width(src),
        ensures
            op.fetch_op() matches Some(f) ==> old(self).fetched(final(self), f, dst, src, order, r),
            op.fetch_op() is None ==> old(self).extremum_lowered(
                final(self),
                op.extremum(),
                dst,
                src,
                order,
                r,
            ),
            final(self).wf(),
            final(self).ready(),
            final(self).has_value(r),
    {
        match op.to_fetch_op() {
            Some(f) => self.atomic_fetch(f, dst, src, order),
            None => self.atomic_extremum(op.to_extremum(), dst, src, order),
        }
    }
}

impl Builder {
    pub open spec fn field_access_node(storage: LValue, field: usize, ty: Type) -> Node {
        Node { kind: NodeKind::FieldAccess { storage, field }, ty }
    }

    /// The address of field `field` of the struct held in `storage` was
    /// taken: the field and its address were added, and `a` is the
    /// address.
    pub open spec fn field_addressed(&self, later: &Builder, storage: LValue, field: usize, a: RValue) -> bool {
        let ty = self.cx.graph.field_type(self.cx.graph.storage_type(storage), field);
        &&& self.adds(
            later,
            seq![
                Self::field_access_node(storage, field, ty),
                Self::address_node(self.nth_storage(0), later.pointer_to(ty)),
            ],
        )
        &&& a == self.nth(1)
    }

    /// The address of field `field` of the struct held in `storage`.
    pub(crate) fn address_of_field(&mut self, storage: LValue, field: usize) -> (a: RValue)
        requires
            old(self).wf(),
            old(self).cx.graph.has_storage(storage),
            old(self).cx.graph.has_field(old(self).cx.graph.storage_type(storage), field),
        ensures
            old(self).field_addressed(final(self), storage, field, a),
            final(self).wf(),
            final(self).has_value(a),
            final(self).cx.graph.types.is_pointer(final(self).type_of(a)),
            final(self).cx.graph.blocks@ == old(self).cx.graph.blocks@,
            final(self).block == old(self).block,
    {
        let ghost ty = self.cx.graph.field_type(self.cx.graph.storage_type(storage), field);
        let f = self.field_of_storage(storage, field);
        let ghost s1 = *self;
        let a = self.address(f);
        proof {
            old(self).lemma_grew_trans(&s1, self);
            assert(self.cx.graph.nodes@ =~= old(self).cx.graph.nodes@ + seq![
                Self::field_access_node(storage, field, ty),
                Self::address_node(old(self).nth_storage(0), self.pointer_to(ty)),
            ]);
        }
        a
    }

    /// The field `field` of the struct held in `storage`.
    pub(crate) fn field_of_storage(&mut self, storage: LValue, field: usize) -> (l: LValue)
        requires
            old(self).wf(),
            old(self).cx.graph.has_storage(storage),
            old(self).cx.graph.has_field(old(self).cx.graph.storage_type(storage), field),
        ensures
            old(self).emits(
                final(self),
                l.read(),
                Self::field_access_node(
                    storage,
                    field,
                    old(self).cx.graph.field_type(old(self).cx.graph.storage_type(storage), field),
                ),
            ),
            final(self).cx.graph.has_storage(l),
    {
        proof {
            reveal(Builder::wf);
            reveal(Builder::grew_into);
        }
        let l = self.cx.graph.lvalue_access_field(storage, field);
        proof {
            old(self).cx.lemma_grown(&self.cx);
        }
        l
    }

    /// A local of a new struct type of two fields, of the types `first`
    /// and `second`, was declared under the name `name`; `result` is the
    /// local.
    pub open spec fn pair_declared(
        &self,
        later: &Builder,
        first: Type,
        second: Type,
        struct_name: Seq<char>,
        name: Seq<char>,
        result: LValue,
    ) -> bool {
        let g = later.cx.graph;
        let ty = g.storage_type(result);
        &&& later.wf()
        &&& self.grew_into(later)
        &&& self.sound(later)
        &&& self.same_cursor(later)
        &&& self.same_routines(later)
        &&& g.blocks@ == self.cx.graph.blocks@
        &&& g.case_lists@ == self.cx.graph.case_lists@
        &&& g.types.infos@.len() == self.cx.graph.types.infos@.len() + 1
        &&& g.types.structs@.len() == self.cx.graph.types.structs@.len() + 1
        &&& g.types.structs@.last().fields@ == seq![first, second]
        &&& g.types.structs@.last().name@ == struct_name
        &&& g.types.kind(ty) == (TypeKind::Struct {
            index: self.cx.graph.types.structs@.len() as usize,
        })
        &&& g.nodes@ == self.cx.graph.nodes@.push(self.var_node(ty))
        &&& self.declares_local(later, ty, name)
        &&& result == self.nth_storage(0)
        &&& g.has_field(ty, 0)
        &&& g.has_field(ty, 1)
        &&& g.field_type(ty, 0) == first
        &&& g.field_type(ty, 1) == second
    }

    /// Declares a local of a new struct type of two fields.
    pub(crate) fn declare_pair(&mut self, first: Type, second: Type, struct_name: &str, name: &str) -> (result: LValue)
        requires
            old(self).wf(),
            old(self).has_type(first),
            old(self).has_type(second),
        ensures
            old(self).pair_declared(final(self), first, second, struct_name@, name@, result),
            final(self).cx.graph.has_storage(result),
    {
        proof {
            reveal(Builder::wf);
            reveal(Builder::grew_into);
        }
        let mut fields: Vec<Type> = Vec::new();
        fields.push(first);
        fields.push(second);
        let ty = self.cx.graph.new_struct_type(struct_name, fields);
        proof {
            old(self).cx.lemma_grown(&self.cx);
            self.cx.graph.types.lemma_strip_plain(ty);
        }
        let ghost mid = *self;
        let func = self.cx.graph.get_function(self.block);
        let result = self.cx.graph.new_local(func, ty, name);
        proof {
            mid.cx.lemma_grown(&self.cx);
            assert(self.cx.graph.types.structs@.last().fields@ =~= seq![first, second]);
        }
        result
    }

    /// The lowering of a compare-and-exchange that reports what it found,
    /// by way of the builders `s1` to `s5`. The expected value is kept in
    /// a local; the exchange, `success`, works on that local; a local of a
    /// struct of the value's type and a boolean is declared, which is the
    /// result; the outcome of the exchange is stored to its second field
    /// first, so that the exchange has taken place when the local of the
    /// expected value, which holds what was found, is stored to the first.
    pub open spec fn swap_reported(
        &self,
        s1: &Builder,
        s2: &Builder,
        s3: &Builder,
        s4: &Builder,
        s5: &Builder,
        later: &Builder,
        dst: RValue,
        wanted: RValue,
        src: RValue,
        order: AtomicOrdering,
        failure_order: AtomicOrdering,
        weak: bool,
        r: RValue,
    ) -> bool {
        let expected = self.nth_storage(0);
        let success = s1.nth(7);
        let result = s2.nth_storage(0);
        let eight = Align { bytes: 8 };
        &&& self.lowers(
            s1,
            seq![self.var_node(self.type_of(wanted))],
            seq![Instr::Assign { target: expected, value: wanted }],
        )
        &&& self.declares_local(s1, self.type_of(wanted), "expected"@)
        &&& self.same_types(s1)
        &&& self.same_routines(s1)
        &&& s1.stack_var_count == self.stack_var_count
        &&& s1.cx.return_value_count == self.cx.return_value_count
        &&& s1.exchanged(s2, dst, expected, src, order, failure_order, weak, success)
        &&& exists|mid: Builder, a1: RValue, z1: RValue, a0: RValue, z0: RValue|
            #![trigger s4.field_addressed(s5, result, 0, a0), mid.field_addressed(s3, result, 1, a1), s3.stored(s4, success, a1, eight, z1), s5.stored(later, expected.read(), a0, eight, z0)]
            s2.pair_declared(
                &mid,
                self.type_of(src),
                self.cx.bool_type,
                ""@,
                "atomic_cmpxchg_result"@,
                result,
            ) && mid.field_addressed(s3, result, 1, a1) && s3.stored(s4, success, a1, eight, z1)
                && s4.field_addressed(s5, result, 0, a0) && s5.stored(
                later,
                expected.read(),
                a0,
                eight,
                z0,
            )
        &&& r == result.read()
    }
}

impl Builder {
    /// Compares what `dst` points to with `wanted` and, where they are
    /// equal, replaces it by `src`. The result is a struct of what was
    /// found and of whether it was replaced.
    #[verifier::rlimit(100)]
    #[verifier::spinoff_prover]
    pub fn atomic_cmpxchg(
        &mut self,
        dst: RValue,
        wanted: RValue,
        src: RValue,
        order: AtomicOrdering,
        failure_order: AtomicOrdering,
        weak: bool,
    ) -> (r: RValue)
        requires
            old(self).wf(),
            old(self).ready(),
            old(self).has_value(dst),
            old(self).has_value(wanted),
            old(self).has_value(src),
            old(self).has_width(src),
        ensures
            exists|s1: Builder, s2: Builder, s3: Builder, s4: Builder, s5: Builder| #[trigger]
                old(self).swap_reported(
                    &s1,
                    &s2,
                    &s3,
                    &s4,
                    &s5,
                    final(self),
                    dst,
                    wanted,
                    src,
                    order,
                    failure_order,
                    weak,
                    r,
                ),
            final(self).wf(),
            final(self).ready(),
            final(self).has_value(r),
    {
        proof {
            old(self).lemma_wf();
        }
        let wanted_type = self.val_ty(wanted);
        let src_type = self.val_ty(src);
        let bool_type = self.cx.bool_type;
        let expected = self.local(wanted_type, "expected");
        let ghost s0 = *self;
        self.assign(expected, wanted);
        let ghost s1 = *self;
        proof {
            old(self).lemma_grew_trans(&s0, &s1);
            old(self).lemma_value_kept(&s1, src);
            old(self).lemma_value_kept(&s1, dst);
            s0.lemma_grew_prefixes(&s1);
            assert(s1.cx.graph.nodes@ =~= old(self).cx.graph.nodes@ + seq![
                old(self).var_node(wanted_type),
            ]);
            assert(s1.cx.graph.instrs(s1.block) =~= old(self).cx.graph.instrs(old(self).block)
                + seq![Instr::Assign { target: expected, value: wanted }]);
        }
        let success = self.compare_exchange(dst, expected, src, order, failure_order, weak);
        let ghost s2 = *self;
        proof {
            old(self).lemma_grew_trans(&s1, &s2);
            old(self).lemma_type_kept(&s2, src_type);
            old(self).lemma_type_kept(&s2, bool_type);
        }
        let result = self.declare_pair(src_type, bool_type, "", "atomic_cmpxchg_result");
        let ghost mid = *self;
        let eight = Align { bytes: 8 };
        let a1 = self.address_of_field(result, 1);
        let ghost s3 = *self;
        proof {
            s2.lemma_grew_trans(&mid, &s3);
            s2.lemma_value_kept(&s3, success);
        }
        let z1 = self.store(success, a1, eight);
        let ghost s4 = *self;
        proof {
            mid.lemma_grew_trans(&s3, &s4);
            mid.lemma_value_kept(&s4, result.read());
            mid.lemma_grew_prefixes(&s4);
            mid.lemma_value_kept(&s4, result.read());
            mid.lemma_field_kept(&s4, mid.cx.graph.storage_type(result), 0);
        }
        let a0 = self.address_of_field(result, 0);
        let ghost s5 = *self;
        proof {
            s0.lemma_grew_trans(&s1, &s2);
            s0.lemma_grew_trans(&s2, &mid);
            s0.lemma_grew_trans(&mid, &s3);
            s0.lemma_grew_trans(&s3, &s4);
            s0.lemma_grew_trans(&s4, &s5);
            s0.lemma_value_kept(&s5, expected.read());
        }
        let z0 = self.store(expected.to_rvalue(), a0, eight);
        proof {
            mid.lemma_grew_trans(&s4, &s5);
            mid.lemma_grew_trans(&s5, self);
            mid.lemma_value_kept(self, result.read());
            assert(s2.pair_declared(&mid, src_type, bool_type, ""@, "atomic_cmpxchg_result"@, result)
                && mid.field_addressed(&s3, result, 1, a1) && s3.stored(&s4, success, a1, eight, z1)
                && s4.field_addressed(&s5, result, 0, a0) && s5.stored(
                self,
                expected.read(),
                a0,
                eight,
                z0,
            ));
            assert(old(self).swap_reported(
                &s1,
                &s2,
                &s3,
                &s4,
                &s5,
                self,
                dst,
                wanted,
                src,
                order,
                failure_order,
                weak,
                result.read(),
            ));
        }
        result.to_rvalue()
    }
}

} // verus!
