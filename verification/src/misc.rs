//! The remaining requests: floating remainder, arithmetic that reports
//! overflow, calls that may unwind, statics, hooks that emit nothing, and
//! the constructs there is no lowering for.

use vstd::prelude::*;
use rustc_span::Span;
use crate::builder::{Builder, Unsupported};
use crate::graph::{Block, Builtin, Instr, Node, NodeKind, RValue};
use crate::layout::{Align, Size};
use crate::ops::OverflowOp;
use crate::types::{prefix_of, Type, TypeKind};

verus! {

/// A position in the source text, as the surrounding compiler holds it.
/// Trusted: declared so that a position can be handed over; nothing is
/// claimed of it.
#[verifier::external_type_specification]
#[verifier::external_body]
pub struct ExSpan(rustc_span::Span);

impl Builder {
    /// Which of the two remainder builtins works on values of type `t`:
    /// the single-precision one for a type compatible with the
    /// single-precision type, else the double-precision one.
    pub open spec fn remainder_builtin(&self, t: Type) -> Builtin {
        if self.cx.graph.types.compatible(t, self.cx.float_type) {
            Builtin::Fmodf
        } else {
            Builtin::Fmod
        }
    }

    /// The lowering of a call that is not evaluated by an instruction: the
    /// call of the builtin `b` on `args` is the one node added, and the
    /// result `r`.
    pub open spec fn builtin_applied(&self, later: &Builder, b: Builtin, args: Seq<RValue>, r: RValue) -> bool {
        let g = later.cx.graph;
        let f = g.kind_of(r)->Call_func;
        &&& later.wf()
        &&& self.grew_into(later)
        &&& self.sound(later)
        &&& self.same_cursor(later)
        &&& g.vars@ == self.cx.graph.vars@
        &&& g.blocks@ == self.cx.graph.blocks@
        &&& g.case_lists@ == self.cx.graph.case_lists@
        &&& g.nodes@.len() == self.cx.graph.nodes@.len() + 1
        &&& r == self.nth(0)
        &&& g.kind_of(r) == (NodeKind::Call { func: f, args: self.cx.graph.lists@.len() as usize })
        &&& g.has_function(f)
        &&& g.declares(f, b)
        &&& g.type_of(r) == g.return_type(f)
        &&& g.lists@.len() == self.cx.graph.lists@.len() + 1
        &&& g.list(self.cx.graph.lists@.len() as usize) == args
    }

    /// Floating remainder: a call of the remainder builtin of the
    /// operands' precision.
    pub fn frem(&mut self, a: RValue, b: RValue) -> (r: RValue)
        requires
            old(self).wf(),
            old(self).can_take_remainder(a, b),
        ensures
            old(self).builtin_applied(
                final(self),
                old(self).remainder_builtin(old(self).type_of(a)),
                seq![a, b],
                r,
            ),
            final(self).has_value(r),
    {
        proof {
            old(self).lemma_wf();
        }
        let t = self.val_ty(a);
        let float_type = self.cx.float_type;
        let which = if self.is_compatible(t, float_type) {
            Builtin::Fmodf
        } else {
            Builtin::Fmod
        };
        let f = self.builtin(which);
        let ghost s1 = *self;
        let mut args: Vec<RValue> = Vec::new();
        args.push(a);
        args.push(b);
        let r = self.call_of(f, args);
        proof {
            old(self).lemma_grew_trans(&s1, self);
            s1.lemma_builtin_kept(self, f, which);
            assert(self.cx.graph.list(old(self).cx.graph.lists@.len() as usize) =~= seq![a, b]);
        }
        r
    }

    /// The lowering of arithmetic that reports overflow, by way of `s1`
    /// and `s2`: a local for the result, of the type of `lhs`; its
    /// address; and the call of the overflow builtin on the operands and
    /// the address, bound to a boolean local. The two locals are the
    /// results.
    pub open spec fn overflow_checked(
        &self,
        s1: &Builder,
        s2: &Builder,
        later: &Builder,
        oop: OverflowOp,
        lhs: RValue,
        rhs: RValue,
        r: (RValue, RValue),
    ) -> bool {
        let f = later.cx.graph.kind_of(s2.nth(1))->Call_func;
        &&& s1.wf() && self.grew_into(s1) && self.sound(s1) && self.same_cursor(s1)
        &&& s1.cx.graph.nodes@ == self.cx.graph.nodes@.push(self.var_node(self.type_of(lhs)))
        &&& self.declares_local(s1, self.type_of(lhs), "binopResult"@)
        &&& s1.cx.graph.blocks@ == self.cx.graph.blocks@
        &&& prefix_of(self.cx.graph.functions@, s1.cx.graph.functions@)
        &&& s1.cx.graph.has_function(f)
        &&& s1.cx.graph.declares(f, Builtin::Overflow { op: oop })
        &&& s1.emits_typed(
            s2,
            s1.cx.graph.nodes@.len() as usize,
            Self::address_node(self.nth_storage(0), s2.pointer_to(self.type_of(lhs))),
        )
        &&& s2.called(later, seq![lhs, rhs, self.nth(1)])
        &&& s2.bound(
            later,
            Seq::<Node>::empty(),
            Node {
                kind: NodeKind::Call { func: f, args: s2.cx.graph.lists@.len() as usize },
                ty: s2.cx.graph.return_type(f),
            },
            s2.cx.bool_type,
            "overflowReturnValue"@,
            r.1,
        )
        &&& r.0 == self.nth(0)
    }

    /// Arithmetic that reports overflow: the result of `oop` on `lhs` and
    /// `rhs`, and whether it overflowed.
    pub fn checked_binop(&mut self, oop: OverflowOp, lhs: RValue, rhs: RValue) -> (r: (RValue, RValue))
        requires
            old(self).wf(),
            old(self).ready(),
            old(self).has_value(lhs),
            old(self).has_value(rhs),
            old(self).cx.return_value_count < usize::MAX,
        ensures
            exists|s1: Builder, s2: Builder| #[trigger]
                old(self).overflow_checked(&s1, &s2, final(self), oop, lhs, rhs, r),
            final(self).wf(),
            final(self).ready(),
    {
        let t = self.val_ty(lhs);
        let f = self.builtin(Builtin::Overflow { op: oop });
        let ghost s0 = *self;
        let res = self.local(t, "binopResult");
        let ghost s1 = *self;
        let address = self.address(res);
        let ghost s2 = *self;
        proof {
            old(self).lemma_grew_trans(&s0, &s1);
            s0.lemma_grew_trans(&s1, &s2);
            s0.lemma_builtin_kept(&s1, f, Builtin::Overflow { op: oop });
            s0.lemma_builtin_kept(&s2, f, Builtin::Overflow { op: oop });
            old(self).lemma_grew_trans(&s1, &s2);
            old(self).lemma_value_kept(&s2, lhs);
            old(self).lemma_value_kept(&s2, rhs);
            s1.lemma_type_found(t);
            s0.lemma_grew_prefixes(&s1);
            old(self).lemma_grew_prefixes(&s0);
        }
        let mut args: Vec<RValue> = Vec::new();
        args.push(lhs);
        args.push(rhs);
        args.push(address);
        let overflow = self.overflow_call(f, args.as_slice());
        proof {
            assert(args@ =~= seq![lhs, rhs, old(self).nth(1)]);
            s2.lemma_grew_prefixes(self);
            let call = Node {
                kind: NodeKind::Call { func: f, args: s2.cx.graph.lists@.len() as usize },
                ty: s2.cx.graph.return_type(f),
            };
            assert((s2.cx.graph.nodes@ + Seq::<Node>::empty() + seq![
                s2.var_node(s2.cx.bool_type),
                call,
            ])[s2.cx.graph.nodes@.len() as int + 1] == call);
            assert(self.cx.graph.nodes@ == s2.cx.graph.nodes@ + Seq::<Node>::empty() + seq![
                s2.var_node(s2.cx.bool_type),
                call,
            ]);
            assert(self.cx.graph.nodes@.len() == s2.cx.graph.nodes@.len() + 2);
            assert(self.cx.graph.nodes@[s2.cx.graph.nodes@.len() as int + 1] == call);
            assert(self.cx.graph.nodes.len() == self.cx.graph.nodes@.len());
            assert(s2.nth(1).id == s2.cx.graph.nodes@.len() + 1);
            assert(self.cx.graph.kind_of(s2.nth(1)) == call.kind);
            assert(old(self).overflow_checked(&s1, &s2, self, oop, lhs, rhs, (res.read(), overflow)));
        }
        (res.to_rvalue(), overflow)
    }

    /// The lowering of a call that may unwind, by way of `mid`: the call,
    /// and a branch on a constant that always takes the way of a normal
    /// return, since unwinding is not implemented.
    pub open spec fn invoked(
        &self,
        mid: &Builder,
        later: &Builder,
        func: RValue,
        args: Seq<RValue>,
        then: Block,
        catch: Block,
        r: RValue,
    ) -> bool {
        &&& self.calls_defined(func) ==> self.function_called(mid, func, args, r)
        &&& !self.calls_defined(func) ==> self.pointer_called(mid, func, args, r)
        &&& mid.lowers(
            later,
            seq![Self::const_node(1, mid.cx.bool_type)],
            seq![Instr::Conditional { cond: mid.nth(0), on_true: then, on_false: catch }],
        )
        &&& mid.same_types(later)
        &&& mid.same_cursor(later)
        &&& mid.same_routines(later)
        &&& later.cx.graph.vars@ == mid.cx.graph.vars@
    }

    /// Calls `func` on `args` and goes on at `then`; `catch` is where an
    /// unwinding call would go on.
    pub fn invoke(&mut self, typ: Type, func: RValue, args: &[RValue], then: Block, catch: Block) -> (r:
        RValue)
        requires
            old(self).wf(),
            old(self).can_call(func, args@),
            old(self).cx.graph.has_block(then),
            old(self).cx.graph.has_block(catch),
        ensures
            exists|mid: Builder| #[trigger] old(self).invoked(&mid, final(self), func, args@, then, catch, r),
            final(self).cx.graph.closed(final(self).block),
    {
        let call_site = self.call(typ, func, args);
        let ghost mid = *self;
        proof {
            assert(mid.wf() && mid.cx.graph.has_block(then) && mid.cx.graph.has_block(catch)) by {
                if old(self).calls_defined(func) {
                    reveal(Builder::wf);
                } else {
                    reveal(Builder::wf);
                }
            }
            mid.lemma_wf();
        }
        let bool_type = self.cx.bool_type;
        let condition = self.constant(bool_type, 1);
        let ghost s2 = *self;
        self.cond_br(condition, then, catch);
        proof {
            mid.lemma_grew_trans(&s2, self);
            assert(self.cx.graph.nodes@ =~= mid.cx.graph.nodes@ + seq![
                Self::const_node(1, mid.cx.bool_type),
            ]);
            assert(self.cx.graph.instrs(self.block) =~= mid.cx.graph.instrs(mid.block) + seq![
                Instr::Conditional { cond: mid.nth(0), on_true: then, on_false: catch },
            ]);
            assert(old(self).invoked(&mid, self, func, args@, then, catch, call_site));
        }
        call_site
    }

    /// A landing pad for cleanup. Unwinding is not implemented; the local
    /// that is declared, of a struct of a pointer to bytes and a selector,
    /// only gives callers a value to pass on.
    pub fn cleanup_landing_pad(&mut self, _ty: Type, _pers_fn: RValue) -> (r: RValue)
        requires
            old(self).wf(),
        ensures
            exists|mid: Builder| #[trigger]
                mid.pair_declared(
                    final(self),
                    mid.pointer_to(old(self).cx.u8_type),
                    old(self).cx.i32_type,
                    "landing_pad"@,
                    "landing_pad"@,
                    old(self).nth_storage(0),
                ) && old(self).cx.graph.types_grew(&mid.cx.graph) && mid.same_cursor(old(self)),
            r == old(self).nth(0),
            final(self).wf(),
            final(self).has_value(r),
    {
        proof {
            old(self).lemma_wf();
        }
        let u8_type = self.cx.u8_type;
        let i32_type = self.cx.i32_type;
        let u8p = self.type_handle(TypeKind::Pointer { pointee: u8_type });
        let ghost mid = *self;
        proof {
            old(self).lemma_type_kept(&mid, i32_type);
        }
        let pad = self.declare_pair(u8p, i32_type, "landing_pad", "landing_pad");
        proof {
            assert(mid.pair_declared(
                self,
                mid.pointer_to(old(self).cx.u8_type),
                old(self).cx.i32_type,
                "landing_pad"@,
                "landing_pad"@,
                old(self).nth_storage(0),
            ));
        }
        pad.to_rvalue()
    }

    /// The address of the static that was declared as number `index`.
    pub fn get_static(&mut self, index: usize) -> (r: RValue)
        requires
            old(self).wf(),
            index < old(self).cx.statics@.len(),
        ensures
            old(self).emits_typed(
                final(self),
                r.id,
                Self::address_node(
                    old(self).cx.statics@[index as int],
                    final(self).pointer_to(
                        old(self).cx.graph.storage_type(old(self).cx.statics@[index as int]),
                    ),
                ),
            ),
            final(self).wf(),
    {
        proof {
            reveal(Builder::wf);
        }
        let storage = self.cx.statics[index];
        self.address(storage)
    }

    /// Would record a type identifier for a routine. Not supported by the
    /// target: nothing is emitted.
    pub fn type_metadata(&mut self, _function: RValue, _typeid: String)
        ensures
            *final(self) == *old(self),
    {
    }

    /// The value of a type identifier. Not supported by the target: a zero
    /// of the C `int` stands in.
    pub fn typeid_metadata(&mut self, _typeid: String) -> (r: RValue)
        requires
            old(self).wf(),
        ensures
            old(self).emits(final(self), r, Self::const_node(0, old(self).cx.int_type)),
    {
        proof {
            old(self).lemma_wf();
        }
        let int_type = self.cx.int_type;
        self.constant(int_type, 0)
    }

    /// Marks a load as one whose result never changes. The loaded value is
    /// recorded as the address of an ordinary routine; nothing is emitted.
    pub fn set_invariant_load(&mut self, load: RValue)
        requires
            old(self).wf(),
            old(self).has_value(load),
        ensures
            final(self).wf(),
            final(self).cx.normal_function_addresses@ == old(
                self,
            ).cx.normal_function_addresses@.insert(load.id),
            final(self).cx.graph == old(self).cx.graph,
            final(self).block == old(self).block,
            final(self).stack_var_count == old(self).stack_var_count,
            final(self).cx.return_value_count == old(self).cx.return_value_count,
    {
        proof {
            reveal(Builder::wf);
        }
        self.cx.record_function_address(load);
    }

    /// The start of the life of a stack slot. Nothing is emitted.
    pub fn lifetime_start(&mut self, _ptr: RValue, _size: Size)
        ensures
            *final(self) == *old(self),
    {
    }

    /// The end of the life of a stack slot. Nothing is emitted.
    pub fn lifetime_end(&mut self, _ptr: RValue, _size: Size)
        ensures
            *final(self) == *old(self),
    {
    }

    /// Would forbid the inlining of a call. Nothing is emitted.
    pub fn do_not_inline(&mut self, _llret: RValue)
        ensures
            *final(self) == *old(self),
    {
    }

    /// The position in the source that what follows comes from. Nothing is
    /// emitted.
    pub fn set_span(&mut self, _span: Span)
        ensures
            *final(self) == *old(self),
    {
    }

    /// The routine that handles exceptions. Nothing is emitted.
    pub fn set_personality_fn(&mut self, _personality: RValue)
        ensures
            *final(self) == *old(self),
    {
    }

    /// A saturating conversion to an unsigned integer: the target has
    /// none, and the caller is to build one.
    pub fn fptoui_sat(&mut self, _val: RValue, _dest_ty: Type) -> (r: Option<RValue>)
        ensures
            r is None,
            *final(self) == *old(self),
    {
        None
    }

    /// A saturating conversion to a signed integer: the target has none,
    /// and the caller is to build one.
    pub fn fptosi_sat(&mut self, _val: RValue, _dest_ty: Type) -> (r: Option<RValue>)
        ensures
            r is None,
            *final(self) == *old(self),
    {
        None
    }

    /// Stack allocation of a size only known when the program runs: not
    /// supported.
    /// No input is admitted: the lowering aborts where this would be asked.
    pub fn dynamic_alloca(&mut self, _ty: Type, _align: Align) -> (r: RValue)
        requires
            Unsupported::DynamicAlloca.is_lowered(),
    {
        unreached()
    }

    /// Stack allocation of an array of a length only known when the
    /// program runs: not supported.
    /// No input is admitted: the lowering aborts where this would be asked.
    pub fn array_alloca(&mut self, _ty: Type, _len: RValue, _align: Align) -> (r: RValue)
        requires
            Unsupported::DynamicAlloca.is_lowered(),
    {
        unreached()
    }

    /// The next argument of a variadic routine: not supported.
    /// No input is admitted: the lowering aborts where this would be asked.
    pub fn va_arg(&mut self, _list: RValue, _ty: Type) -> (r: RValue)
        requires
            Unsupported::VaArg.is_lowered(),
    {
        unreached()
    }

    /// One unit of a vector: not supported.
    /// The request is refused and nothing is emitted.
    pub fn extract_element(
        &mut self,
        _vec: RValue,
        _idx: RValue,
    ) -> (r: Result<RValue, Unsupported>)
        ensures
            r == Err::<RValue, Unsupported>(Unsupported::VectorElement),
            *final(self) == *old(self),
    {
        Err(Unsupported::VectorElement)
    }

    /// A vector all of whose units are one value: not supported.
    /// The request is refused and nothing is emitted.
    pub fn vector_splat(
        &mut self,
        _num_elts: usize,
        _elt: RValue,
    ) -> (r: Result<RValue, Unsupported>)
        ensures
            r == Err::<RValue, Unsupported>(Unsupported::VectorElement),
            *final(self) == *old(self),
    {
        Err(Unsupported::VectorElement)
    }

    /// A cleanup pad: not supported.
    /// No input is admitted: the lowering aborts where this would be asked.
    pub fn cleanup_pad(&mut self, _parent: Option<RValue>, _args: &[RValue])
        requires
            Unsupported::Unwinding.is_lowered(),
    {
        unreached()
    }

    /// The return from a cleanup pad: not supported.
    /// The request is refused and nothing is emitted.
    pub fn cleanup_ret(&mut self, _unwind: Option<Block>) -> (r: Result<(), Unsupported>)
        ensures
            r == Err::<(), Unsupported>(Unsupported::Unwinding),
            *final(self) == *old(self),
    {
        Err(Unsupported::Unwinding)
    }

    /// A catch pad: not supported.
    /// No input is admitted: the lowering aborts where this would be asked.
    pub fn catch_pad(&mut self, _parent: RValue, _args: &[RValue])
        requires
            Unsupported::Unwinding.is_lowered(),
    {
        unreached()
    }

    /// A switch between catch pads: not supported.
    /// The request is refused and nothing is emitted.
    pub fn catch_switch(
        &mut self,
        _parent: Option<RValue>,
        _unwind: Option<Block>,
        _handlers: &[Block],
    ) -> (r: Result<RValue, Unsupported>)
        ensures
            r == Err::<RValue, Unsupported>(Unsupported::Unwinding),
            *final(self) == *old(self),
    {
        Err(Unsupported::Unwinding)
    }

    /// The increment of a profiling counter: not supported.
    /// The request is refused and nothing is emitted.
    pub fn instrprof_increment(
        &mut self,
        _fn_name: RValue,
        _hash: RValue,
        _num_counters: RValue,
        _index: RValue,
    ) -> (r: Result<(), Unsupported>)
        ensures
            r == Err::<(), Unsupported>(Unsupported::InstrProf),
            *final(self) == *old(self),
    {
        Err(Unsupported::InstrProf)
    }
}

} // verus!
