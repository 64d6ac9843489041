//! Bulk memory operations: calls of the builtins that copy, move and fill
//! memory.

use vstd::prelude::*;
use crate::builder::Builder;

use crate::graph::{Builtin, Instr, NodeKind, RValue};
use crate::layout::{Align, MemFlags};
use crate::types::{prefix_of, Type, TypeKind};

verus! {

impl Builder {
    /// `r` is `value` brought to the type `ty` where pointers are
    /// involved: converted, reinterpreted, or, for a value that is no
    /// pointer and is to become one, converted to the pointer-sized
    /// integer, reinterpreted as a pointer to its own type and converted.
    #[verifier::opaque]
    pub open spec fn is_recast(&self, r: RValue, value: RValue, ty: Type) -> bool {
        let g = self.cx.graph;
        &&& g.has_value(r)
        &&& g.type_of(r) == ty
        &&& if !g.types.is_pointer(g.type_of(value)) && g.types.is_pointer(ty) {
            &&& r.id >= 2
            &&& g.kind_of(r) == (NodeKind::Cast { value: RValue { id: (r.id - 1) as usize } })
            &&& g.kind_of(RValue { id: (r.id - 1) as usize }) == (NodeKind::Bitcast {
                value: RValue { id: (r.id - 2) as usize },
            })
            &&& g.types.kind(g.type_of(RValue { id: (r.id - 1) as usize })) == (TypeKind::Pointer {
                pointee: g.type_of(value),
            })
            &&& g.nodes@[r.id - 2] == Self::cast_node(value, self.cx.isize_type)
        } else if !g.types.is_pointer(g.type_of(value)) {
            g.kind_of(r) == (NodeKind::Bitcast { value })
        } else {
            g.kind_of(r) == (NodeKind::Cast { value })
        }
    }

    /// A recast value stays one when the builder goes on.
    pub proof fn lemma_recast_kept(&self, later: &Builder, r: RValue, value: RValue, ty: Type)
        requires
            self.wf(),
            self.grew_into(later),
            self.sound(later),
            self.has_value(value),
            value.id < r.id,
            self.is_recast(r, value, ty),
        ensures
            later.is_recast(r, value, ty),
    {
        reveal(Builder::is_recast);
        self.lemma_grew_prefixes(later);
        self.lemma_value_kept(later, value);
        self.lemma_value_kept(later, r);
        let g = self.cx.graph;
        if !g.types.is_pointer(g.type_of(value)) && g.types.is_pointer(ty) {
            let p = RValue { id: (r.id - 1) as usize };
            self.lemma_value_kept(later, p);
            assert(later.cx.graph.nodes@[r.id - 2] == g.nodes@[r.id - 2]);
            self.lemma_type_kept(later, ty);
        } else {
            self.lemma_type_kept(later, ty);
        }
    }

    /// The value brought to the type `ty`, where pointers are involved.
    pub(crate) fn recast(&mut self, value: RValue, ty: Type) -> (r: RValue)
        requires
            old(self).wf(),
            old(self).has_value(value),
            old(self).has_type(ty),
            !(old(self).cx.graph.types.is_pointer(old(self).type_of(value)) && !old(
                self,
            ).cx.graph.types.is_pointer(ty)),
        ensures
            final(self).wf(),
            old(self).grew_into(final(self)),
            old(self).sound(final(self)),
            old(self).same_cursor(final(self)),
            old(self).same_code(final(self)),
            final(self).cx.graph.lists@ == old(self).cx.graph.lists@,
            final(self).is_recast(r, value, ty),
            value.id < r.id,
            r.id == final(self).cx.graph.nodes@.len() - 1,
    {
        let r = self.pointercast(value, ty);
        proof {
            reveal(Builder::is_recast);
            old(self).lemma_value_kept(self, value);
            old(self).lemma_type_kept(self, ty);
            old(self).lemma_wf();
            let g = old(self).cx.graph;
            if !g.types.is_pointer(g.type_of(value)) && g.types.is_pointer(ty) {
                self.lemma_wf();
                let via = old(self).pointer_to_type_of(self, value);
                assert(self.cx.graph.nodes@[r.id - 1] == Self::bitcast_node(
                    RValue { id: (r.id - 2) as usize },
                    via,
                ));
            }
        }
        r
    }
}

impl Builder {
    /// The lowering of a bulk memory operation: after whatever brought the
    /// operands to the types the builtin `b` takes comes, as the last
    /// node, the call of the builtin on `args`, which the block under the
    /// cursor evaluates.
    pub open spec fn bulk_called(&self, later: &Builder, b: Builtin, args: Seq<RValue>) -> bool {
        let g = later.cx.graph;
        let call = RValue { id: (g.nodes@.len() - 1) as usize };
        let f = g.kind_of(call)->Call_func;
        &&& self.grew_into(later)
        &&& self.sound(later)
        &&& self.same_cursor(later)
        &&& g.vars@ == self.cx.graph.vars@
        &&& g.blocks@.len() == self.cx.graph.blocks@.len()
        &&& g.case_lists@ == self.cx.graph.case_lists@
        &&& prefix_of(self.cx.graph.functions@, g.functions@)
        &&& prefix_of(self.cx.graph.nodes@, g.nodes@)
        &&& prefix_of(self.cx.graph.lists@, g.lists@)
        &&& g.lists@.len() == self.cx.graph.lists@.len() + 1
        &&& g.nodes@.len() == self.cx.graph.nodes@.len() + 1
        &&& g.kind_of(call) == (NodeKind::Call { func: f, args: self.cx.graph.lists@.len() as usize })
        &&& g.has_function(f)
        &&& g.declares(f, b)
        &&& g.list(self.cx.graph.lists@.len() as usize) == args
        &&& self.block_received(later, self.block, seq![Instr::Eval { value: call }])
    }

    /// The same, with any number of nodes that bring the operands to the
    /// types the builtin takes before the call.
    pub open spec fn bulk_ended(&self, later: &Builder, b: Builtin, args: Seq<RValue>) -> bool {
        let g = later.cx.graph;
        let call = RValue { id: (g.nodes@.len() - 1) as usize };
        let f = g.kind_of(call)->Call_func;
        &&& self.grew_into(later)
        &&& self.sound(later)
        &&& self.same_cursor(later)
        &&& g.vars@ == self.cx.graph.vars@
        &&& g.blocks@.len() == self.cx.graph.blocks@.len()
        &&& g.case_lists@ == self.cx.graph.case_lists@
        &&& g.lists@.len() == self.cx.graph.lists@.len() + 1
        &&& g.nodes@.len() > self.cx.graph.nodes@.len()
        &&& g.kind_of(call) == (NodeKind::Call { func: f, args: self.cx.graph.lists@.len() as usize })
        &&& g.has_function(f)
        &&& g.declares(f, b)
        &&& g.list(self.cx.graph.lists@.len() as usize) == args
        &&& self.block_received(later, self.block, seq![Instr::Eval { value: call }])
    }

    /// The lowering of a copy or a move by builtin: the size converted to
    /// the size type comes first; the call takes the destination as a
    /// pointer to bytes, the source as a pointer to anything, and the
    /// size.
    pub open spec fn copied(&self, later: &Builder, b: Builtin, dst: RValue, src: RValue, size: RValue) -> bool {
        let g = later.cx.graph;
        let args = g.list(self.cx.graph.lists@.len() as usize);
        &&& self.bulk_ended(later, b, args)
        &&& args.len() == 3
        &&& later.is_recast(args[0], dst, later.pointer_to(self.cx.i8_type))
        &&& later.is_recast(args[1], src, later.pointer_to(self.cx.void_type))
        &&& args[2] == self.nth(0)
        &&& g.nodes@[self.nth(0).id as int] == Self::cast_node(size, self.cx.usize_type)
    }

    /// Calls the builtin `b` on the three operands and evaluates the call.
    pub(crate) fn bulk_call(&mut self, b: Builtin, first: RValue, second: RValue, third: RValue)
        requires
            old(self).wf(),
            old(self).ready(),
            b.known(),
            old(self).has_value(first),
            old(self).has_value(second),
            old(self).has_value(third),
        ensures
            final(self).wf(),
            final(self).ready(),
            old(self).bulk_called(final(self), b, seq![first, second, third]),
            final(self).cx.graph.types.infos@.len() >= old(self).cx.graph.types.infos@.len(),
    {
        let f = self.builtin(b);
        let ghost s1 = *self;
        let mut args: Vec<RValue> = Vec::new();
        args.push(first);
        args.push(second);
        args.push(third);
        let call = self.call_of(f, args);
        let ghost s2 = *self;
        self.eval(call);
        proof {
            old(self).lemma_grew_trans(&s1, &s2);
            old(self).lemma_grew_trans(&s2, self);
            s1.lemma_grew_trans(&s2, self);
            s1.lemma_builtin_kept(self, f, b);
            old(self).lemma_grew_prefixes(self);
            assert(self.cx.graph.list(old(self).cx.graph.lists@.len() as usize) =~= seq![
                first,
                second,
                third,
            ]);
            assert(self.cx.graph.instrs(self.block) =~= old(self).cx.graph.instrs(old(self).block)
                + seq![Instr::Eval { value: call }]);
        }
    }

    #[verifier::rlimit(100)]
    #[verifier::spinoff_prover]
    fn copy_by(&mut self, b: Builtin, dst: RValue, src: RValue, size: RValue)
        requires
            old(self).wf(),
            old(self).ready(),
            b.known(),
            old(self).has_value(dst),
            old(self).has_value(src),
            old(self).has_value(size),
        ensures
            final(self).wf(),
            final(self).ready(),
            old(self).copied(final(self), b, dst, src, size),
    {
        proof {
            old(self).lemma_wf();
        }
        let size_t = self.cx.usize_type;
        let size2 = self.intcast(size, size_t, false);
        let ghost s1 = *self;
        let i8_type = self.cx.i8_type;
        let i8p = self.type_handle(TypeKind::Pointer { pointee: i8_type });
        let ghost s2 = *self;
        proof {
            old(self).lemma_grew_trans(&s1, &s2);
            old(self).lemma_value_kept(&s2, dst);
            old(self).lemma_value_kept(&s2, src);
            s2.lemma_wf();
            assert(s2.cx.graph.types.is_pointer(i8p)) by {
                s2.cx.graph.types.lemma_strip_plain(i8p);
            }
        }
        let dst2 = self.recast(dst, i8p);
        let ghost s3 = *self;
        let void_type = self.cx.void_type;
        proof {
            old(self).lemma_grew_trans(&s2, &s3);
            old(self).lemma_type_kept(&s3, void_type);
        }
        let void_ptr = self.type_handle(TypeKind::Pointer { pointee: void_type });
        let ghost s4 = *self;
        proof {
            old(self).lemma_grew_trans(&s3, &s4);
            old(self).lemma_value_kept(&s4, src);
            s4.lemma_wf();
            assert(s4.cx.graph.types.is_pointer(void_ptr)) by {
                s4.cx.graph.types.lemma_strip_plain(void_ptr);
            }
        }
        let src2 = self.recast(src, void_ptr);
        let ghost s5 = *self;
        proof {
            s1.lemma_grew_trans(&s2, &s3);
            s1.lemma_grew_trans(&s3, &s4);
            s1.lemma_grew_trans(&s4, &s5);
            s3.lemma_grew_trans(&s4, &s5);
            s1.lemma_value_kept(&s5, size2);
            s3.lemma_value_kept(&s5, dst2);
        }
        self.bulk_call(b, dst2, src2, size2);
        proof {
            old(self).lemma_grew_trans(&s4, &s5);
            old(self).lemma_grew_trans(&s5, self);
            s1.lemma_grew_trans(&s2, &s3);
            s1.lemma_grew_trans(&s3, &s4);
            s1.lemma_grew_trans(&s4, &s5);
            s1.lemma_grew_trans(&s5, self);
            s1.lemma_grew_prefixes(self);
            s2.lemma_grew_trans(&s3, &s4);
            s2.lemma_grew_trans(&s4, &s5);
            s2.lemma_grew_trans(&s5, self);
            s3.lemma_grew_trans(&s4, &s5);
            s3.lemma_grew_trans(&s5, self);
            s4.lemma_grew_trans(&s5, self);
            s2.lemma_type_kept(self, i8p);
            s4.lemma_type_kept(self, void_ptr);
            self.lemma_type_found(i8p);
            self.lemma_type_found(void_ptr);
            old(self).lemma_value_kept(&s3, dst);
            old(self).lemma_value_kept(&s5, src);
            s3.lemma_recast_kept(self, dst2, dst, i8p);
            s5.lemma_recast_kept(self, src2, src, void_ptr);
        }
    }

    /// Copies `size` bytes from `src` to `dst`, which do not overlap. A
    /// copy that is to bypass the caches cannot be asked for.
    pub fn memcpy(
        &mut self,
        dst: RValue,
        _dst_align: Align,
        src: RValue,
        _src_align: Align,
        size: RValue,
        flags: MemFlags,
    )
        requires
            old(self).wf(),
            old(self).ready(),
            old(self).has_value(dst),
            old(self).has_value(src),
            old(self).has_value(size),
            !flags.nontemporal,
        ensures
            final(self).wf(),
            final(self).ready(),
            old(self).copied(final(self), Builtin::Memcpy, dst, src, size),
    {
        self.copy_by(Builtin::Memcpy, dst, src, size)
    }

    /// The lowering of a fill: the call takes the pointer as a pointer to
    /// bytes, the fill byte as a C `int`, and the size converted to the
    /// size type.
    pub open spec fn filled(&self, later: &Builder, ptr: RValue, fill_byte: RValue, size: RValue) -> bool {
        let g = later.cx.graph;
        let args = g.list(self.cx.graph.lists@.len() as usize);
        let n = g.nodes@.len() as int;
        &&& self.bulk_ended(later, Builtin::Memset, args)
        &&& args.len() == 3
        &&& later.is_recast(args[0], ptr, later.pointer_to(self.cx.i8_type))
        &&& args[1] == Self::at(n, -3)
        &&& args[2] == Self::at(n, -2)
        &&& n >= 3
        &&& g.nodes@[n - 3] == Self::cast_node(fill_byte, self.cx.i32_type)
        &&& g.nodes@[n - 2] == Self::cast_node(size, self.cx.usize_type)
    }

    /// Fills `size` bytes from `ptr` on with `fill_byte`.
    #[verifier::rlimit(100)]
    #[verifier::spinoff_prover]
    pub fn memset(&mut self, ptr: RValue, fill_byte: RValue, size: RValue, _align: Align, flags: MemFlags)
        requires
            old(self).wf(),
            old(self).ready(),
            old(self).has_value(ptr),
            old(self).has_value(fill_byte),
            old(self).has_value(size),
        ensures
            final(self).wf(),
            final(self).ready(),
            old(self).filled(final(self), ptr, fill_byte, size),
    {
        proof {
            old(self).lemma_wf();
        }
        let i8_type = self.cx.i8_type;
        let i8p = self.type_handle(TypeKind::Pointer { pointee: i8_type });
        let ghost s1 = *self;
        proof {
            old(self).lemma_value_kept(&s1, ptr);
            s1.lemma_wf();
            assert(s1.cx.graph.types.is_pointer(i8p)) by {
                s1.cx.graph.types.lemma_strip_plain(i8p);
            }
        }
        let ptr2 = self.recast(ptr, i8p);
        let ghost s2 = *self;
        let i32_type = self.cx.i32_type;
        let size_t = self.cx.usize_type;
        proof {
            old(self).lemma_grew_trans(&s1, &s2);
            old(self).lemma_type_kept(&s2, i32_type);
            old(self).lemma_type_kept(&s2, size_t);
            old(self).lemma_value_kept(&s2, fill_byte);
            old(self).lemma_value_kept(&s2, size);
        }
        let fill = self.cast(fill_byte, i32_type);
        let ghost s3 = *self;
        let size2 = self.intcast(size, size_t, false);
        let ghost s4 = *self;
        proof {
            s2.lemma_grew_trans(&s3, &s4);
            s2.lemma_value_kept(&s4, ptr2);
        }
        self.bulk_call(Builtin::Memset, ptr2, fill, size2);
        proof {
            old(self).lemma_grew_trans(&s2, &s3);
            old(self).lemma_grew_trans(&s3, &s4);
            old(self).lemma_grew_trans(&s4, self);
            s1.lemma_grew_trans(&s2, &s3);
            s1.lemma_grew_trans(&s3, &s4);
            s1.lemma_grew_trans(&s4, self);
            s2.lemma_grew_trans(&s3, &s4);
            s2.lemma_grew_trans(&s4, self);
            s3.lemma_grew_trans(&s4, self);
            s3.lemma_grew_prefixes(self);
            s4.lemma_grew_prefixes(self);
            s1.lemma_type_kept(self, i8p);
            self.lemma_type_found(i8p);
            old(self).lemma_value_kept(&s2, ptr);
            s2.lemma_recast_kept(self, ptr2, ptr, i8p);
            old(self).lemma_grew_prefixes(&s4);
            let n = self.cx.graph.nodes@.len() as int;
            assert(s4.cx.graph.nodes@.len() == n - 1);
            assert(s3.cx.graph.nodes@.len() == n - 2);
            assert(s2.cx.graph.nodes@.len() == n - 3);
            assert(self.cx.graph.nodes@[n - 3] == s3.cx.graph.nodes@[n - 3]);
            assert(self.cx.graph.nodes@[n - 2] == s4.cx.graph.nodes@[n - 2]);
        }
    }
}

impl Builder {
    /// The lowering of a move that is to bypass the caches, for which the
    /// target has no builtin: by way of `s1` and `s2`, what `src` points
    /// to is loaded as `val`, `dst` is brought to the type of pointers to
    /// the type of `val` as `ptr`, and `val` is stored through `ptr`. This
    /// moves one value of the source's type; it does not bypass anything.
    pub open spec fn moved_by_value(
        &self,
        s1: &Builder,
        s2: &Builder,
        later: &Builder,
        dst: RValue,
        dst_align: Align,
        src: RValue,
        val: RValue,
        ptr: RValue,
        zero: RValue,
    ) -> bool {
        &&& self.loaded(s1, src, val)
        &&& s1.grew_into(s2)
        &&& s1.sound(s2)
        &&& s1.same_cursor(s2)
        &&& s1.same_code(s2)
        &&& s2.cx.graph.lists@ == s1.cx.graph.lists@
        &&& s2.is_recast(ptr, dst, s2.pointer_to(s1.type_of(val)))
        &&& s2.stored(later, val, ptr, dst_align, zero)
    }

    /// Moves `size` bytes from `src` to `dst`, which may overlap. Where
    /// the move is to bypass the caches, one value of the type `src`
    /// points to is loaded and stored instead.
    #[verifier::rlimit(100)]
    #[verifier::spinoff_prover]
    pub fn memmove(
        &mut self,
        dst: RValue,
        dst_align: Align,
        src: RValue,
        src_align: Align,
        size: RValue,
        flags: MemFlags,
    )
        requires
            old(self).wf(),
            old(self).ready(),
            old(self).has_value(dst),
            old(self).has_value(src),
            old(self).has_value(size),
            flags.nontemporal ==> old(self).cx.graph.types.is_pointer(old(self).type_of(src))
                && old(self).cx.return_value_count < usize::MAX,
        ensures
            final(self).wf(),
            final(self).ready(),
            !flags.nontemporal ==> old(self).copied(final(self), Builtin::Memmove, dst, src, size),
            flags.nontemporal ==> exists|
                s1: Builder,
                s2: Builder,
                val: RValue,
                ptr: RValue,
                zero: RValue,
            | #[trigger]
                old(self).moved_by_value(&s1, &s2, final(self), dst, dst_align, src, val, ptr, zero),
    {
        if flags.nontemporal {
            let src_type = self.val_ty(src);
            let val = self.load(src_type, src, src_align);
            let ghost s1 = *self;
            let val_type = self.val_ty(val);
            let ptr_type = self.type_handle(TypeKind::Pointer { pointee: val_type });
            let ghost mid = *self;
            proof {
                old(self).lemma_grew_trans(&s1, &mid);
                old(self).lemma_value_kept(&mid, dst);
                mid.lemma_wf();
                assert(mid.cx.graph.types.is_pointer(ptr_type)) by {
                    mid.cx.graph.types.lemma_strip_plain(ptr_type);
                }
            }
            let ptr = self.recast(dst, ptr_type);
            let ghost s2 = *self;
            proof {
                s1.lemma_grew_trans(&mid, &s2);
                s1.lemma_value_kept(&s2, val);
                mid.lemma_type_kept(&s2, ptr_type);
                s2.lemma_type_found(ptr_type);
                reveal(Builder::is_recast);
                assert(s2.type_of(ptr) == ptr_type);
                assert(s2.cx.graph.types.is_pointer(s2.type_of(ptr)));
            }
            let zero = self.store_with_flags(val, ptr, dst_align, flags);
            proof {
                assert(old(self).moved_by_value(&s1, &s2, self, dst, dst_align, src, val, ptr, zero));
            }
        } else {
            self.copy_by(Builtin::Memmove, dst, src, size);
        }
    }
}

} // verus!
