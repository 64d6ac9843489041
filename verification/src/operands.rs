//! Operands and places: what a value of the frontend is in the graph, how
//! it is loaded from memory, and how one value is written to every
//! element of an array.

use vstd::prelude::*;
use crate::builder::Builder;
use crate::graph::{Block, Builtin, Instr, LValue, Node, NodeKind, RValue};
use crate::layout::{
    rounded_up, Abi, Align, Layout, LoadMetadata, MemFlags, OperandRef, OperandValue, PlaceRef,
    Scalar, WrappingRange,
};
use crate::ops::{ComparisonOp, IntPredicate};
use crate::types::{prefix_of, Type, TypeKind};

verus! {

impl Builder {
    /// A value in the form it is kept in memory. A boolean is to be
    /// widened to its storage type, which the widening leaves to be: the
    /// value is returned as it is.
    pub fn from_immediate(&mut self, val: RValue) -> (r: RValue)
        requires
            old(self).wf(),
            old(self).has_value(val),
        ensures
            r == val,
            old(self).unchanged(final(self)),
            *final(self) == *old(self),
    {
        proof {
            old(self).lemma_wf();
            old(self).lemma_grew_refl();
        }
        let t = self.val_ty(val);
        if t == self.cx.bool_type {
            let i8_type = self.cx.i8_type;
            proof {
                reveal(Builder::wf);
                old(self).cx.graph.types.lemma_strip_plain(i8_type);
                old(self).cx.graph.types.lemma_strip_plain(t);
            }
            self.zext(val, i8_type)
        } else {
            val
        }
    }

    /// A value loaded from memory in the form it is computed with: a
    /// boolean, kept as a byte, is narrowed to the boolean type.
    pub fn to_immediate_scalar(&mut self, val: RValue, scalar: Scalar) -> (r: RValue)
        requires
            old(self).wf(),
            old(self).has_value(val),
        ensures
            scalar.boolean() ==> old(self).emits(
                final(self),
                r,
                Self::cast_node(val, old(self).cx.bool_type),
            ),
            !scalar.boolean() ==> r == val && old(self).unchanged(final(self)),
            final(self).wf(),
            final(self).has_value(r),
    {
        proof {
            old(self).lemma_wf();
            old(self).lemma_grew_refl();
        }
        if scalar.is_bool() {
            let bool_type = self.cx.bool_type;
            return self.trunc(val, bool_type);
        }
        val
    }

    /// A value loaded from memory in the form it is computed with, for a
    /// value of the layout `layout`.
    pub fn to_immediate(&mut self, val: RValue, layout: Layout) -> (r: RValue)
        requires
            old(self).wf(),
            old(self).has_value(val),
        ensures
            Self::narrows(layout) ==> old(self).emits(
                final(self),
                r,
                Self::cast_node(val, old(self).cx.bool_type),
            ),
            !Self::narrows(layout) ==> r == val && old(self).unchanged(final(self)),
            final(self).wf(),
            final(self).has_value(r),
    {
        match layout.abi {
            Abi::Scalar { scalar } => self.to_immediate_scalar(val, scalar),
            _ => {
                proof {
                    old(self).lemma_wf();
                    old(self).lemma_grew_refl();
                }
                val
            },
        }
    }

    /// A value of the layout is a boolean scalar, which is narrowed when it
    /// has been loaded.
    pub open spec fn narrows(layout: Layout) -> bool {
        layout.abi matches Abi::Scalar { scalar } && scalar.boolean()
    }

    /// Would attach the range of valid values to a load. The target takes
    /// no such metadata: nothing is emitted.
    pub fn range_metadata(&mut self, _load: RValue, _range: WrappingRange)
        ensures
            *final(self) == *old(self),
    {
    }

    /// Would mark a loaded pointer as never null. The target takes no such
    /// metadata: nothing is emitted.
    pub fn nonnull_metadata(&mut self, _load: RValue)
        ensures
            *final(self) == *old(self),
    {
    }

    /// Attaches to the load `load` of a scalar the metadata that applies to
    /// it, and tells which that was.
    pub fn scalar_load_metadata(&mut self, load: RValue, scalar: Scalar) -> (r: LoadMetadata)
        ensures
            r == scalar.load_metadata(),
            *final(self) == *old(self),
    {
        let m = scalar.to_load_metadata();
        match m {
            LoadMetadata::Range { range } => self.range_metadata(load, range),
            LoadMetadata::NonNull => self.nonnull_metadata(load),
            LoadMetadata::Nothing => {},
        }
        m
    }

    /// The lowering of the load of a value held as one value of the
    /// graph: the load, and the narrowing where the value is a boolean.
    pub open spec fn immediate_loaded(&self, later: &Builder, place: PlaceRef, r: RValue) -> bool {
        if Self::narrows(place.layout) {
            &&& self.lowers(
                later,
                seq![
                    Self::deref_node(place.llval, self.pointee_of(place.llval)),
                    self.var_node(self.pointee_of(place.llval)),
                    Self::cast_node(self.nth(1), self.cx.bool_type),
                ],
                seq![Instr::Assign { target: self.nth_storage(1), value: self.nth(0) }],
            )
            &&& r == self.nth(2)
        } else {
            &&& self.lowers(
                later,
                seq![
                    Self::deref_node(place.llval, self.pointee_of(place.llval)),
                    self.var_node(self.pointee_of(place.llval)),
                ],
                seq![Instr::Assign { target: self.nth_storage(1), value: self.nth(0) }],
            )
            &&& r == self.nth(1)
        }
    }

    /// The lowering of the load of field `index` of the pair that `ptr`
    /// points to, by way of `s1` and `s2`: the address of the field, the
    /// load through it, and the narrowing where the field is a boolean.
    pub open spec fn field_loaded(
        &self,
        s1: &Builder,
        s2: &Builder,
        later: &Builder,
        pair_type: Type,
        ptr: RValue,
        index: u64,
        scalar: Scalar,
        r: RValue,
    ) -> bool {
        let address = RValue { id: (s1.cx.graph.nodes@.len() - 1) as usize };
        let loaded = RValue { id: (s2.cx.graph.nodes@.len() - 1) as usize };
        &&& self.adds(s1, self.struct_gep_nodes(s1, pair_type, ptr, index))
        &&& s1.loaded(s2, address, loaded)
        &&& if scalar.boolean() {
            s2.emits(later, r, Self::cast_node(loaded, self.cx.bool_type))
        } else {
            r == loaded && s2.unchanged(later)
        }
    }

    /// Loads field `index` of the pair that `ptr` points to.
    pub(crate) fn load_field(&mut self, pair_type: Type, ptr: RValue, index: u64, scalar: Scalar, align: Align) -> (r: (
        RValue,
        Ghost<Builder>,
        Ghost<Builder>,
    ))
        requires
            old(self).wf(),
            old(self).ready(),
            old(self).has_value(ptr),
            old(self).has_type(pair_type),
            old(self).cx.graph.types.is_pointer(old(self).type_of(ptr)),
            old(self).cx.graph.types.shape(pair_type) is Struct,
            index <= 1,
            old(self).cx.graph.has_field(old(self).pointee_of(ptr), index as usize),
            old(self).cx.return_value_count < usize::MAX,
        ensures
            old(self).field_loaded(&r.1@, &r.2@, final(self), pair_type, ptr, index, scalar, r.0),
            final(self).wf(),
            final(self).ready(),
            final(self).has_value(r.0),
            old(self).grew_into(final(self)),
            old(self).sound(final(self)),
            final(self).block == old(self).block,
            final(self).cx.return_value_count == old(self).cx.return_value_count + 1,
    {
        let llptr = self.struct_gep(pair_type, ptr, index);
        let ghost s1 = *self;
        let t = self.val_ty(llptr);
        let load = self.load(t, llptr, align);
        let ghost s2 = *self;
        let _ = self.scalar_load_metadata(load, scalar);
        let r = if scalar.is_bool() {
            let bool_type = self.cx.bool_type;
            proof {
                s2.lemma_wf();
            }
            self.trunc(load, bool_type)
        } else {
            proof {
                s2.lemma_grew_refl();
            }
            load
        };
        proof {
            old(self).lemma_grew_trans(&s1, &s2);
            old(self).lemma_grew_trans(&s2, self);
        }
        (r, Ghost(s1), Ghost(s2))
    }

    /// The lowering of the load of a pair: the load of its first field,
    /// which leads to the builder `mid`, and the load of its second.
    pub open spec fn pair_steps(
        &self,
        s1: &Builder,
        s2: &Builder,
        mid: &Builder,
        s3: &Builder,
        s4: &Builder,
        later: &Builder,
        place: PlaceRef,
        a: RValue,
        b: RValue,
    ) -> bool {
        match place.layout.abi {
            Abi::ScalarPair { first, second } => self.field_loaded(
                s1,
                s2,
                mid,
                place.layout.gcc_type,
                place.llval,
                0,
                first,
                a,
            ) && mid.field_loaded(s3, s4, later, place.layout.gcc_type, place.llval, 1, second, b),
            _ => false,
        }
    }

    /// The value is the pair of the two fields of the place, loaded one
    /// after the other.
    pub open spec fn pair_loaded(&self, later: &Builder, place: PlaceRef, val: OperandValue) -> bool {
        &&& val is Pair
        &&& exists|s1: Builder, s2: Builder, mid: Builder, s3: Builder, s4: Builder| #[trigger]
            self.pair_steps(&s1, &s2, &mid, &s3, &s4, later, place, val->first, val->second)
    }

    /// What a load of an operand from the place `place` makes of it.
    pub open spec fn operand_loaded(&self, later: &Builder, place: PlaceRef, r: OperandRef) -> bool {
        &&& r.layout == place.layout
        &&& if place.layout.zero_sized() {
            r.val == OperandValue::ZeroSized && self.unchanged(later)
        } else if place.llextra is Some {
            r.val == (OperandValue::Ref {
                ptr: place.llval,
                extra: place.llextra,
                align: place.align,
            }) && self.unchanged(later)
        } else if place.layout.immediate() {
            r.val matches OperandValue::Immediate { value } && self.immediate_loaded(
                later,
                place,
                value,
            )
        } else if place.layout.abi is ScalarPair {
            self.pair_loaded(later, place, r.val)
        } else {
            r.val == (OperandValue::Ref { ptr: place.llval, extra: None, align: place.align })
                && self.unchanged(later)
        }
    }

    /// Whether an operand can be loaded from `place`: an unsized place,
    /// and no other, carries what goes with its pointer; where a value is
    /// to be loaded the place's pointer is one; and where a pair is, it
    /// points to a struct of two fields, which is the type of the layout.
    pub open spec fn can_load(&self, place: PlaceRef) -> bool {
        &&& place.llextra is Some <==> place.layout.unsized_()
        &&& self.has_value(place.llval)
        &&& self.has_type(place.layout.gcc_type)
        &&& !place.layout.zero_sized() && place.llextra is None && place.layout.immediate()
            ==> self.cx.graph.types.is_pointer(self.type_of(place.llval))
            && self.cx.return_value_count < usize::MAX
        &&& !place.layout.zero_sized() && place.llextra is None && !place.layout.immediate()
            && place.layout.abi is ScalarPair ==> {
            &&& self.cx.graph.types.is_pointer(self.type_of(place.llval))
            &&& self.cx.graph.types.shape(place.layout.gcc_type) is Struct
            &&& self.cx.graph.has_field(self.pointee_of(place.llval), 0)
            &&& self.cx.graph.has_field(self.pointee_of(place.llval), 1)
            &&& self.cx.return_value_count < usize::MAX - 1
        }
    }

    /// Loads an operand from `place`: nothing for a type of size zero; the
    /// place itself for an unsized place and for a value that is kept in
    /// memory; the value for a value held as one; the two values for a
    /// pair.
    pub fn load_operand(&mut self, place: PlaceRef) -> (r: OperandRef)
        requires
            old(self).wf(),
            old(self).ready(),
            old(self).can_load(place),
        ensures
            old(self).operand_loaded(final(self), place, r),
            final(self).wf(),
            final(self).ready(),
    {
        proof {
            old(self).lemma_wf();
            old(self).lemma_grew_refl();
        }
        if place.layout.is_zst() {
            return OperandRef { val: OperandValue::ZeroSized, layout: place.layout };
        }
        let val = match place.llextra {
            Some(llextra) => OperandValue::Ref {
                ptr: place.llval,
                extra: Some(llextra),
                align: place.align,
            },
            None => {
                if place.layout.is_gcc_immediate() {
                    let t = self.val_ty(place.llval);
                    let load = self.load(t, place.llval, place.align);
                    let ghost s1 = *self;
                    match place.layout.abi {
                        Abi::Scalar { scalar } => {
                            let _ = self.scalar_load_metadata(load, scalar);
                        },
                        _ => {},
                    }
                    let value = self.to_immediate(load, place.layout);
                    proof {
                        old(self).lemma_grew_trans(&s1, self);
                        if Self::narrows(place.layout) {
                            assert(self.cx.graph.nodes@ =~= old(self).cx.graph.nodes@ + seq![
                                Self::deref_node(place.llval, old(self).pointee_of(place.llval)),
                                old(self).var_node(old(self).pointee_of(place.llval)),
                                Self::cast_node(old(self).nth(1), old(self).cx.bool_type),
                            ]);
                        }
                    }
                    OperandValue::Immediate { value }
                } else {
                    match place.layout.abi {
                        Abi::ScalarPair { first, second } => {
                            let pair_type = place.layout.gcc_type;
                            let b_offset = first.size.align_to(second.align);
                            let (a, s1, s2) = self.load_field(
                                pair_type,
                                place.llval,
                                0,
                                first,
                                place.align,
                            );
                            let ghost mid = *self;
                            proof {
                                old(self).lemma_value_kept(&mid, place.llval);
                                old(self).lemma_type_kept(&mid, pair_type);
                                old(self).lemma_pointee_held(place.llval);
                                old(self).lemma_type_kept(&mid, old(self).type_of(place.llval));
                                old(self).lemma_field_kept(
                                    &mid,
                                    old(self).pointee_of(place.llval),
                                    1,
                                );
                            }
                            let (b, s3, s4) = self.load_field(
                                pair_type,
                                place.llval,
                                1,
                                second,
                                place.align.restrict_for_offset(b_offset),
                            );
                            proof {
                                assert(old(self).pair_steps(
                                    &s1@,
                                    &s2@,
                                    &mid,
                                    &s3@,
                                    &s4@,
                                    self,
                                    place,
                                    a,
                                    b,
                                ));
                                let pair = OperandValue::Pair { first: a, second: b };
                                assert(old(self).pair_steps(
                                    &s1@,
                                    &s2@,
                                    &mid,
                                    &s3@,
                                    &s4@,
                                    self,
                                    place,
                                    pair->first,
                                    pair->second,
                                ));
                                assert(old(self).pair_loaded(
                                    self,
                                    place,
                                    OperandValue::Pair { first: a, second: b },
                                ));
                            }
                            OperandValue::Pair { first: a, second: b }
                        },
                        _ => OperandValue::Ref { ptr: place.llval, extra: None, align: place.align },
                    }
                }
            },
        };
        OperandRef { val, layout: place.layout }
    }
}

/// The loop that writes one value to every element of an array: its
/// blocks, the local that points to the element to be written next, and
/// the pointer past the last element.
#[derive(Clone, Copy, PartialEq, Eq, Structural, Debug)]
pub struct RepeatLoop {
    pub header: Block,
    pub body: Block,
    pub next: Block,
    pub current: LValue,
    pub end: RValue,
}

impl Builder {
    pub open spec fn usize_node(&self, n: u64) -> Node {
        Self::const_node(n as u128, self.cx.usize_type)
    }

    /// A constant of the pointer-sized unsigned type.
    pub(crate) fn const_usize(&mut self, n: u64) -> (r: RValue)
        requires
            old(self).wf(),
        ensures
            old(self).emits(final(self), r, old(self).usize_node(n)),
            final(self).wf(),
    {
        proof {
            old(self).lemma_wf();
        }
        let t = self.cx.usize_type;
        self.constant(t, n as u128)
    }

    /// The nodes of the address of element `index` of the array that
    /// `ptr` points to, from the node `base` on: a zero, the array, the
    /// element and its address.
    pub open spec fn projected_at(&self, later: &Builder, base: int, ptr: RValue, index: RValue) -> Seq<
        Node,
    > {
        let p = self.pointee_of(ptr);
        let e = self.cx.graph.element_type(p);
        seq![
            self.usize_node(0),
            Self::deref_node(ptr, p),
            Self::element_node(Self::at(base, 1), index, e),
            Self::address_node(LValue { id: (base + 2) as usize }, later.pointer_to(e)),
        ]
    }

    /// The address of element `index` of the array that `ptr` points to.
    pub(crate) fn project_index(&mut self, ptr: RValue, index: RValue) -> (r: RValue)
        requires
            old(self).wf(),
            old(self).has_value(ptr),
            old(self).has_value(index),
            old(self).cx.graph.types.is_pointer(old(self).type_of(ptr)),
            old(self).cx.graph.types.is_pointer(old(self).pointee_of(ptr)) || old(
                self,
            ).cx.graph.types.shape(old(self).pointee_of(ptr)) is Array,
        ensures
            old(self).adds(
                final(self),
                old(self).projected_at(
                    final(self),
                    old(self).cx.graph.nodes@.len() as int,
                    ptr,
                    index,
                ),
            ),
            r == old(self).nth(3),
            final(self).wf(),
            final(self).has_value(r),
            final(self).cx.graph.types.is_pointer(final(self).type_of(r)),
            final(self).pointee_of(r) == old(self).cx.graph.element_type(old(self).pointee_of(ptr)),
            final(self).cx.graph.types.kind(final(self).type_of(r)) == (TypeKind::Pointer {
                pointee: old(self).cx.graph.element_type(old(self).pointee_of(ptr)),
            }),
            final(self).type_of(r) == final(self).pointer_to(
                old(self).cx.graph.element_type(old(self).pointee_of(ptr)),
            ),
    {
        let zero = self.const_usize(0);
        let ghost s1 = *self;
        let array = self.deref(ptr);
        let ghost s2 = *self;
        let e = self.element(array.to_rvalue(), index);
        let ghost s3 = *self;
        let r = self.address(e);
        proof {
            old(self).lemma_grew_trans(&s1, &s2);
            old(self).lemma_grew_trans(&s2, &s3);
            old(self).lemma_grew_trans(&s3, self);
            assert(self.cx.graph.nodes@ =~= old(self).cx.graph.nodes@ + old(self).projected_at(
                self,
                old(self).cx.graph.nodes@.len() as int,
                ptr,
                index,
            ));
        }
        r
    }

    /// The loop has been set up: the number of elements as a constant, the
    /// addresses of the first element and of the one past the last, three
    /// new blocks, and a local that holds the address of the element to be
    /// written next, which the block that was under the cursor assigns the
    /// first address to before it jumps to the header block. The cursor is
    /// at the header block, which is empty like the other two.
    pub open spec fn repeat_set_up(&self, later: &Builder, count: u64, dest: PlaceRef, lp: RepeatLoop) -> bool {
        let g = later.cx.graph;
        let n = self.cx.graph.nodes@.len() as int;
        let elem = self.cx.graph.element_type(self.pointee_of(dest.llval));
        let ptr_type = later.pointer_to(elem);
        &&& self.grew_into(later)
        &&& self.sound(later)
        &&& later.wf()
        &&& later.stack_var_count == self.stack_var_count
        &&& later.cx.return_value_count == self.cx.return_value_count
        &&& self.same_routines(later)
        &&& g.case_lists@ == self.cx.graph.case_lists@
        &&& g.nodes@.len() == n + 11
        &&& prefix_of(self.cx.graph.nodes@, g.nodes@)
        &&& g.nodes@[n] == self.usize_node(0)
        &&& g.nodes@[n + 1] == self.usize_node(count)
        &&& later.holds_at(n + 2, self.projected_at(later, n + 2, dest.llval, self.nth(0)))
        &&& later.holds_at(n + 6, self.projected_at(later, n + 6, dest.llval, self.nth(1)))
        &&& g.nodes@[n + 10] == self.var_node(ptr_type)
        &&& g.types.kind(ptr_type) == (TypeKind::Pointer { pointee: elem })
        &&& self.declares_local(later, ptr_type, "loop_var"@)
        &&& g.blocks@.len() == self.cx.graph.blocks@.len() + 3
        &&& g.blocks@[lp.header.id as int].name@ == "repeat_loop_header"@
        &&& g.blocks@[lp.body.id as int].name@ == "repeat_loop_body"@
        &&& g.blocks@[lp.next.id as int].name@ == "repeat_loop_next"@
        &&& lp.header == self.nth_block(0)
        &&& lp.body == self.nth_block(1)
        &&& lp.next == self.nth_block(2)
        &&& lp.header.id == self.cx.graph.blocks@.len()
        &&& lp.body.id == self.cx.graph.blocks@.len() + 1
        &&& lp.next.id == self.cx.graph.blocks@.len() + 2
        &&& lp.current == self.nth_storage(10)
        &&& lp.end == self.nth(9)
        &&& self.block_received(
            later,
            self.block,
            seq![
                Instr::Assign { target: lp.current, value: self.nth(5) },
                Instr::Jump { dest: lp.header },
            ],
        )
        &&& g.instrs(lp.header) == Seq::<Instr>::empty()
        &&& g.instrs(lp.body) == Seq::<Instr>::empty()
        &&& g.instrs(lp.next) == Seq::<Instr>::empty()
        &&& g.block_function(lp.header) == self.cx.graph.block_function(self.block)
        &&& g.block_function(lp.body) == self.cx.graph.block_function(self.block)
        &&& g.block_function(lp.next) == self.cx.graph.block_function(self.block)
        &&& later.block == lp.header
        &&& g.has_storage(lp.current)
        &&& g.has_value(lp.end)
        &&& g.types.is_pointer(g.storage_type(lp.current))
    }

    /// Whether the elements of the array at `dest` can be addressed: the
    /// place's pointer points to an array, or to a pointer.
    pub open spec fn can_repeat(&self, dest: PlaceRef) -> bool {
        &&& self.has_value(dest.llval)
        &&& self.cx.graph.types.is_pointer(self.type_of(dest.llval))
        &&& self.cx.graph.types.is_pointer(self.pointee_of(dest.llval))
            || self.cx.graph.types.shape(self.pointee_of(dest.llval)) is Array
    }

    pub(crate) fn repeat_setup(&mut self, count: u64, dest: PlaceRef) -> (lp: RepeatLoop)
        requires
            old(self).wf(),
            old(self).ready(),
            old(self).can_repeat(dest),
        ensures
            old(self).repeat_set_up(final(self), count, dest, lp),
            final(self).ready(),
    {
        proof {
            old(self).lemma_wf();
        }
        let ghost n = self.cx.graph.nodes@.len() as int;
        let entry = self.block;
        let zero = self.const_usize(0);
        let ghost s1 = *self;
        let count_value = self.const_usize(count);
        let ghost s2 = *self;
        proof {
            old(self).lemma_grew_trans(&s1, &s2);
            old(self).lemma_value_kept(&s2, dest.llval);
            old(self).lemma_pointee_held(dest.llval);
            old(self).lemma_type_kept(&s2, old(self).pointee_of(dest.llval));
        }
        let start = self.project_index(dest.llval, zero);
        let ghost s3 = *self;
        proof {
            old(self).lemma_grew_trans(&s2, &s3);
            s1.lemma_grew_trans(&s2, &s3);
            old(self).lemma_value_kept(&s3, dest.llval);
            s2.lemma_value_kept(&s3, count_value);
            old(self).lemma_type_kept(&s3, old(self).pointee_of(dest.llval));
            s2.lemma_added_holds(&s3, s2.projected_at(&s3, n + 2, dest.llval, zero));
        }
        let end = self.project_index(dest.llval, count_value);
        let ghost s4 = *self;
        let header_bb = self.append_sibling_block("repeat_loop_header");
        let ghost s5 = *self;
        let body_bb = self.append_sibling_block("repeat_loop_body");
        let ghost s6 = *self;
        let next_bb = self.append_sibling_block("repeat_loop_next");
        let ghost s7 = *self;
        proof {
            old(self).lemma_grew_trans(&s3, &s4);
            old(self).lemma_grew_trans(&s4, &s5);
            old(self).lemma_grew_trans(&s5, &s6);
            old(self).lemma_grew_trans(&s6, &s7);
            s3.lemma_grew_trans(&s4, &s5);
            s3.lemma_grew_trans(&s5, &s6);
            s3.lemma_grew_trans(&s6, &s7);
            s3.lemma_value_kept(&s7, start);
            s3.lemma_added_holds(&s4, s3.projected_at(&s4, n + 6, dest.llval, count_value));
        }
        let ptr_type = self.val_ty(start);
        let current = self.local(ptr_type, "loop_var");
        let ghost s8 = *self;
        proof {
            s3.lemma_grew_trans(&s7, &s8);
            s3.lemma_value_kept(&s8, start);
        }
        self.emit_in(entry, Instr::Assign { target: current, value: start });
        let ghost s9 = *self;
        self.emit_in(entry, Instr::Jump { dest: header_bb });
        let ghost s10 = *self;
        self.switch_to_block(header_bb);
        proof {
            old(self).lemma_grew_trans(&s7, &s8);
            old(self).lemma_grew_trans(&s8, &s9);
            old(self).lemma_grew_trans(&s9, &s10);
            assert(old(self).grew_into(self)) by {
                reveal(Builder::grew_into);
            }
            s3.lemma_grew_trans(&s7, &s8);
            s3.lemma_grew_trans(&s8, &s9);
            s3.lemma_grew_trans(&s9, &s10);
            assert(s3.grew_into(self)) by {
                reveal(Builder::grew_into);
            }
            s4.lemma_grew_trans(&s5, &s6);
            s4.lemma_grew_trans(&s6, &s7);
            s4.lemma_grew_trans(&s7, &s8);
            s4.lemma_grew_trans(&s8, &s9);
            s4.lemma_grew_trans(&s9, &s10);
            assert(s4.grew_into(self)) by {
                reveal(Builder::grew_into);
            }
            old(self).lemma_grew_prefixes(self);
            s1.lemma_grew_trans(&s3, self);
            s1.lemma_grew_prefixes(self);
            s2.lemma_grew_trans(&s3, self);
            s2.lemma_grew_prefixes(self);
            s3.lemma_holds_kept(self, n + 2, s2.projected_at(&s3, n + 2, dest.llval, zero));
            s4.lemma_holds_kept(self, n + 6, s3.projected_at(&s4, n + 6, dest.llval, count_value));
            s3.lemma_type_found(s3.type_of(start));
            s3.lemma_type_kept(self, s3.type_of(start));
            s3.lemma_type_kept(&s4, s3.type_of(start));
            self.lemma_type_found(ptr_type);
            s4.lemma_type_found(s4.type_of(end));
            s4.lemma_type_kept(self, s4.type_of(end));
            self.lemma_type_found(s4.type_of(end));
            assert(s2.projected_at(&s3, n + 2, dest.llval, zero) =~= old(self).projected_at(
                self,
                n + 2,
                dest.llval,
                old(self).nth(0),
            ));
            assert(s3.projected_at(&s4, n + 6, dest.llval, count_value) =~= old(
                self,
            ).projected_at(self, n + 6, dest.llval, old(self).nth(1)));
            assert(self.cx.graph.instrs(entry) =~= old(self).cx.graph.instrs(entry) + seq![
                Instr::Assign { target: current, value: start },
                Instr::Jump { dest: header_bb },
            ]);
            s8.lemma_grew_trans(&s9, &s10);
            s8.lemma_grew_prefixes(&s10);
        }
        RepeatLoop { header: header_bb, body: body_bb, next: next_bb, current, end }
    }
}

impl Builder {
    /// The loop tests whether there is an element left: the header block,
    /// which was under the cursor, compares the address of the element to
    /// be written next with the address past the last and goes to the
    /// body block where they differ, to the block after the loop where
    /// they do not. The cursor is at the body block.
    pub open spec fn repeat_begun(&self, later: &Builder, lp: RepeatLoop) -> bool {
        let g = later.cx.graph;
        &&& self.grew_into(later)
        &&& self.sound(later)
        &&& later.wf()
        &&& self.same_types(later)
        &&& self.same_routines(later)
        &&& later.stack_var_count == self.stack_var_count
        &&& later.cx.return_value_count == self.cx.return_value_count
        &&& g.vars@ == self.cx.graph.vars@
        &&& g.case_lists@ == self.cx.graph.case_lists@
        &&& g.nodes@ == self.cx.graph.nodes@.push(
            Node {
                kind: NodeKind::Comparison {
                    op: ComparisonOp::NotEquals,
                    lhs: lp.current.read(),
                    rhs: lp.end,
                },
                ty: self.cx.bool_type,
            },
        )
        &&& g.blocks@.len() == self.cx.graph.blocks@.len()
        &&& self.block_received(
            later,
            self.block,
            seq![Instr::Conditional { cond: self.nth(0), on_true: lp.body, on_false: lp.next }],
        )
        &&& later.block == lp.body
    }

    pub(crate) fn repeat_test(&mut self, lp: RepeatLoop)
        requires
            old(self).wf(),
            old(self).ready(),
            old(self).cx.graph.has_storage(lp.current),
            old(self).has_value(lp.end),
            old(self).cx.graph.has_block(lp.body),
            old(self).cx.graph.has_block(lp.next),
        ensures
            old(self).repeat_begun(final(self), lp),
    {
        let header = self.block;
        let keep_going = self.icmp(IntPredicate::IntNE, lp.current.to_rvalue(), lp.end);
        let ghost s1 = *self;
        self.cond_br(keep_going, lp.body, lp.next);
        let ghost s2 = *self;
        self.switch_to_block(lp.body);
        proof {
            old(self).lemma_grew_trans(&s1, &s2);
            assert(old(self).grew_into(self)) by {
                reveal(Builder::grew_into);
            }
            assert(self.cx.graph.instrs(header) =~= old(self).cx.graph.instrs(header) + seq![
                Instr::Conditional { cond: keep_going, on_true: lp.body, on_false: lp.next },
            ]);
        }
    }

    /// The loop goes on to the next element: the body block, which was
    /// under the cursor, assigns the address of the element after the
    /// current one to the local and jumps back to the header block. The
    /// cursor is at the block after the loop.
    pub open spec fn repeat_ended(&self, later: &Builder, lp: RepeatLoop) -> bool {
        let g = later.cx.graph;
        let elem = self.cx.graph.element_type(self.cx.graph.storage_type(lp.current));
        &&& self.grew_into(later)
        &&& self.sound(later)
        &&& later.wf()
        &&& self.same_routines(later)
        &&& later.stack_var_count == self.stack_var_count
        &&& later.cx.return_value_count == self.cx.return_value_count
        &&& g.vars@ == self.cx.graph.vars@
        &&& g.case_lists@ == self.cx.graph.case_lists@
        &&& g.nodes@ == self.cx.graph.nodes@ + seq![
            self.usize_node(1),
            Self::element_node(lp.current.read(), self.nth(0), elem),
            Self::address_node(self.nth_storage(1), later.pointer_to(elem)),
        ]
        &&& g.blocks@.len() == self.cx.graph.blocks@.len()
        &&& self.block_received(
            later,
            self.block,
            seq![
                Instr::Assign { target: lp.current, value: self.nth(2) },
                Instr::Jump { dest: lp.header },
            ],
        )
        &&& later.block == lp.next
    }

    /// Ends the body of the loop `lp`, which the cursor is in: the local
    /// of the loop is advanced by one element, and the loop goes round.
    pub fn end_repeat(&mut self, lp: RepeatLoop)
        requires
            old(self).wf(),
            old(self).ready(),
            old(self).cx.graph.has_storage(lp.current),
            old(self).cx.graph.types.is_pointer(old(self).cx.graph.storage_type(lp.current)),
            old(self).cx.graph.has_block(lp.header),
            old(self).cx.graph.has_block(lp.next),
        ensures
            old(self).repeat_ended(final(self), lp),
    {
        let body = self.block;
        let one = self.const_usize(1);
        let ghost s1 = *self;
        let e = self.element(lp.current.to_rvalue(), one);
        let ghost s2 = *self;
        let next = self.address(e);
        let ghost s3 = *self;
        proof {
            old(self).lemma_grew_trans(&s1, &s2);
            old(self).lemma_grew_trans(&s2, &s3);
            old(self).lemma_grew_prefixes(&s3);
            assert(s3.cx.graph.has_storage(lp.current));
        }
        self.assign(lp.current, next);
        let ghost s4 = *self;
        self.br(lp.header);
        let ghost s5 = *self;
        self.switch_to_block(lp.next);
        proof {
            old(self).lemma_grew_trans(&s3, &s4);
            old(self).lemma_grew_trans(&s4, &s5);
            assert(old(self).grew_into(self)) by {
                reveal(Builder::grew_into);
            }
            assert(self.cx.graph.nodes@ =~= old(self).cx.graph.nodes@ + seq![
                old(self).usize_node(1),
                Self::element_node(
                    lp.current.read(),
                    old(self).nth(0),
                    old(self).cx.graph.element_type(old(self).cx.graph.storage_type(lp.current)),
                ),
                Self::address_node(
                    old(self).nth_storage(1),
                    self.pointer_to(
                        old(self).cx.graph.element_type(
                            old(self).cx.graph.storage_type(lp.current),
                        ),
                    ),
                ),
            ]) by {
                s3.lemma_grew_trans(&s4, &s5);
                s3.lemma_value_kept(&s5, next);
                s3.lemma_type_kept(&s5, s3.type_of(next));
                s3.lemma_type_found(s3.type_of(next));
                s5.lemma_type_found(s3.type_of(next));
            }
            assert(self.cx.graph.instrs(body) =~= old(self).cx.graph.instrs(body) + seq![
                Instr::Assign { target: lp.current, value: next },
                Instr::Jump { dest: lp.header },
            ]);
        }
    }

    /// Begins a loop over the `count` elements of the array at `dest`. The
    /// cursor is then in the body of the loop, where the element that the
    /// local of the loop points to is to be written; `end_repeat` ends the
    /// body.
    pub fn begin_repeat(&mut self, count: u64, dest: PlaceRef) -> (r: (RepeatLoop, Ghost<Builder>))
        requires
            old(self).wf(),
            old(self).ready(),
            old(self).can_repeat(dest),
        ensures
            old(self).repeat_set_up(&r.1@, count, dest, r.0),
            r.1@.repeat_begun(final(self), r.0),
            final(self).ready(),
    {
        let lp = self.repeat_setup(count, dest);
        let ghost s1 = *self;
        proof {
            s1.lemma_wf();
        }
        self.repeat_test(lp);
        proof {
            assert(self.cx.graph.blocks@[lp.body.id as int] == s1.cx.graph.blocks@[lp.body.id as int]);
        }
        (lp, Ghost(s1))
    }

    /// The place of the element that the loop writes next: the local of
    /// the loop points to it; its layout is that of the operand, and its
    /// alignment that of the array, lowered for the size of an element.
    pub open spec fn element_place(lp: RepeatLoop, cg_elem: OperandRef, dest: PlaceRef) -> PlaceRef {
        PlaceRef {
            llval: lp.current.read(),
            llextra: None,
            layout: cg_elem.layout,
            align: restricted_align(dest.align, cg_elem.layout),
        }
    }

    /// What the writing of an operand to every element of the array at
    /// `dest` asks of the operand: its values are of the graph; an operand
    /// held in memory is sized; and for a pair the elements are structs of
    /// two fields.
    pub open spec fn can_write_repeatedly(&self, cg_elem: OperandRef, dest: PlaceRef) -> bool {
        let elem = self.cx.graph.element_type(self.pointee_of(dest.llval));
        &&& self.ready()
        &&& self.can_repeat(dest)
        &&& match cg_elem.val {
            OperandValue::ZeroSized => true,
            OperandValue::Ref { ptr, extra, .. } => extra is None && self.has_value(ptr),
            OperandValue::Immediate { value } => self.has_value(value),
            OperandValue::Pair { first, second } => {
                &&& self.has_value(first)
                &&& self.has_value(second)
                &&& cg_elem.layout.abi is ScalarPair
                &&& self.has_type(cg_elem.layout.gcc_type)
                &&& self.cx.graph.types.shape(cg_elem.layout.gcc_type) is Struct
                &&& self.has_type(elem)
                &&& self.cx.graph.has_field(elem, 0)
                &&& self.cx.graph.has_field(elem, 1)
            },
        }
    }

    /// The lowering of the writing of one operand to every element of an
    /// array, by way of the builders `s1`, `s2` and `s3`: the loop is set
    /// up and tests whether there is an element left; its body stores the
    /// operand to the element that the local of the loop points to and
    /// goes on to the next element.
    pub open spec fn written_repeatedly(
        &self,
        s1: &Builder,
        s2: &Builder,
        s3: &Builder,
        later: &Builder,
        cg_elem: OperandRef,
        count: u64,
        dest: PlaceRef,
        lp: RepeatLoop,
    ) -> bool {
        &&& self.repeat_set_up(s1, count, dest, lp)
        &&& s1.repeat_begun(s2, lp)
        &&& s2.operand_stored(s3, cg_elem.val, Self::element_place(lp, cg_elem, dest))
        &&& s2.stored_only(s3)
        &&& s3.repeat_ended(later, lp)
    }

    /// Writes the operand `cg_elem` to each of the `count` elements of the
    /// array at `dest`. Mind that the cursor is at another block
    /// afterwards.
    #[verifier::rlimit(100)]
    #[verifier::spinoff_prover]
    pub fn write_operand_repeatedly(&mut self, cg_elem: OperandRef, count: u64, dest: PlaceRef)
        requires
            old(self).wf(),
            old(self).can_write_repeatedly(cg_elem, dest),
        ensures
            exists|s1: Builder, s2: Builder, s3: Builder, lp: RepeatLoop| #[trigger]
                old(self).written_repeatedly(&s1, &s2, &s3, final(self), cg_elem, count, dest, lp),
            final(self).wf(),
            final(self).ready(),
    {
        let ghost elem = self.cx.graph.element_type(self.pointee_of(dest.llval));
        let (lp, s1) = self.begin_repeat(count, dest);
        let ghost s2 = *self;
        let align = dest.align.restrict_for_offset(cg_elem.layout.size);
        let place = PlaceRef {
            llval: lp.current.to_rvalue(),
            llextra: None,
            layout: cg_elem.layout,
            align,
        };
        proof {
            old(self).lemma_grew_trans(&s1@, &s2);
            s1@.lemma_value_kept(&s2, lp.current.read());
            s1@.lemma_grew_prefixes(&s2);
            s2.lemma_wf();
            assert(place == Self::element_place(lp, cg_elem, dest));
            assert(s2.cx.graph.has_storage(lp.current));
            assert(s2.cx.graph.types.is_pointer(s2.type_of(lp.current.read())));
            match cg_elem.val {
                OperandValue::ZeroSized => {},
                OperandValue::Ref { ptr, .. } => {
                    old(self).lemma_value_kept(&s2, ptr);
                },
                OperandValue::Immediate { value } => {
                    old(self).lemma_value_kept(&s2, value);
                },
                OperandValue::Pair { first, second } => {
                    old(self).lemma_value_kept(&s2, first);
                    old(self).lemma_value_kept(&s2, second);
                    old(self).lemma_type_kept(&s2, cg_elem.layout.gcc_type);
                    old(self).lemma_type_kept(&s2, elem);
                    old(self).lemma_field_kept(&s2, elem, 0);
                    old(self).lemma_field_kept(&s2, elem, 1);
                    let t = s1@.type_of(lp.current.read());
                    assert(s1@.cx.graph.nodes.len() == s1@.cx.graph.nodes@.len());
                    assert(lp.current.id == old(self).cx.graph.nodes@.len() + 10);
                    assert(s1@.cx.graph.nodes@[lp.current.id as int] == old(self).var_node(
                        s1@.pointer_to(elem),
                    ));
                    assert(t == s1@.pointer_to(elem));
                    s1@.lemma_wf();
                    s1@.cx.graph.types.lemma_strip_plain(t);
                    assert(s2.type_of(lp.current.read()) == t);
                    assert(s2.pointee_of(lp.current.read()) == elem);
                },
            }
        }
        self.store_operand(cg_elem.val, place);
        let ghost s3 = *self;
        proof {
            s2.lemma_value_kept(&s3, lp.current.read());
            s2.lemma_grew_prefixes(&s3);
            s1@.lemma_grew_prefixes(&s2);
            assert(s3.cx.graph.blocks@[lp.next.id as int] == s2.cx.graph.blocks@[lp.next.id as int]);
            assert(s3.cx.graph.blocks@[lp.header.id as int]
                == s2.cx.graph.blocks@[lp.header.id as int]);
            assert(s2.cx.graph.blocks@[lp.next.id as int] == s1@.cx.graph.blocks@[lp.next.id as int]);
            assert(s2.cx.graph.blocks@[lp.header.id as int].instrs@.len() > 0);
        }
        self.end_repeat(lp);
        proof {
            assert(self.cx.graph.blocks@[lp.next.id as int] == s3.cx.graph.blocks@[lp.next.id as int]);
            assert(old(self).written_repeatedly(&s1@, &s2, &s3, self, cg_elem, count, dest, lp));
        }
    }
}

impl Builder {
    /// The place of the first and of the second scalar of a pair in a
    /// struct: the alignment of the second is that of the struct, lowered
    /// for the offset at which the second scalar lies.
    pub open spec fn second_align(dest: PlaceRef) -> Align {
        match dest.layout.abi {
            Abi::ScalarPair { first, second } => Align {
                bytes: crate::layout::restricted(
                    dest.align.bytes as nat,
                    rounded_up(first.size.bytes as int, second.align.bytes as int) as nat,
                ) as u64,
            },
            _ => dest.align,
        }
    }

    /// The last node of the graph.
    pub open spec fn last(&self) -> RValue {
        RValue { id: (self.cx.graph.nodes@.len() - 1) as usize }
    }

    /// What the store of an operand value to a place asks: the block under
    /// the cursor can receive instructions; the values are of the graph;
    /// an operand that is held in memory is sized; and for a pair the
    /// place is a struct of two fields that its pointer points to.
    pub open spec fn can_store_operand(&self, val: OperandValue, dest: PlaceRef) -> bool {
        &&& self.ready()
        &&& self.has_value(dest.llval)
        &&& match val {
            OperandValue::ZeroSized => true,
            OperandValue::Ref { ptr, extra, .. } => extra is None && self.has_value(ptr),
            OperandValue::Immediate { value } => self.can_store(value, dest.llval),
            OperandValue::Pair { first, second } => {
                &&& self.has_value(first)
                &&& self.has_value(second)
                &&& dest.layout.abi is ScalarPair
                &&& self.has_type(dest.layout.gcc_type)
                &&& self.cx.graph.types.shape(dest.layout.gcc_type) is Struct
                &&& self.cx.graph.types.is_pointer(self.type_of(dest.llval))
                &&& self.cx.graph.has_field(self.pointee_of(dest.llval), 0)
                &&& self.cx.graph.has_field(self.pointee_of(dest.llval), 1)
            },
        }
    }

    /// The two stores of a pair, by way of the builders `s1`, `s2` and
    /// `s3`: the address of the first field, the store of the first value
    /// through it, the address of the second field, and the store of the
    /// second value through that.
    pub open spec fn pair_stored(
        &self,
        s1: &Builder,
        s2: &Builder,
        s3: &Builder,
        later: &Builder,
        first: RValue,
        second: RValue,
        dest: PlaceRef,
        z1: RValue,
        z2: RValue,
    ) -> bool {
        let ty = dest.layout.gcc_type;
        &&& self.adds(s1, self.struct_gep_nodes(s1, ty, dest.llval, 0))
        &&& s1.stored(s2, first, s1.last(), dest.align, z1)
        &&& s2.adds(s3, s2.struct_gep_nodes(s3, ty, dest.llval, 1))
        &&& s3.stored(later, second, s3.last(), Self::second_align(dest), z2)
    }

    /// The lowering of the store of an operand value to a place. Nothing
    /// is stored of an operand of no size. An operand held in memory is
    /// copied, as many bytes as its layout has, unless it has none. An
    /// operand held as one value is stored through the pointer of the
    /// place. Of a pair the two values are stored to the two fields of the
    /// struct at the place.
    pub open spec fn operand_stored(&self, later: &Builder, val: OperandValue, dest: PlaceRef) -> bool {
        match val {
            OperandValue::ZeroSized => self.unchanged(later),
            OperandValue::Ref { ptr, .. } => if dest.layout.size.bytes == 0 {
                self.unchanged(later)
            } else {
                exists|mid: Builder| #[trigger]
                    self.emits(&mid, self.nth(0), self.usize_node(dest.layout.size.bytes))
                        && mid.copied(later, Builtin::Memcpy, dest.llval, ptr, self.nth(0))
            },
            OperandValue::Immediate { value } => exists|zero: RValue| #[trigger]
                self.stored(later, value, dest.llval, dest.align, zero),
            OperandValue::Pair { first, second } => exists|
                s1: Builder,
                s2: Builder,
                s3: Builder,
                z1: RValue,
                z2: RValue,
            | #[trigger]
                self.pair_stored(&s1, &s2, &s3, later, first, second, dest, z1, z2),
        }
    }

    /// What a store leaves as it was: the cursor and the counters, the
    /// variables, and every block but the one under the cursor.
    pub open spec fn stored_only(&self, later: &Builder) -> bool {
        &&& later.wf()
        &&& later.ready()
        &&& self.grew_into(later)
        &&& self.sound(later)
        &&& self.same_cursor(later)
        &&& later.cx.graph.vars@ == self.cx.graph.vars@
        &&& later.cx.graph.case_lists@ == self.cx.graph.case_lists@
        &&& later.cx.graph.blocks@.len() == self.cx.graph.blocks@.len()
        &&& forall|c: int|
            0 <= c < self.cx.graph.blocks@.len() && c != self.block.id
                ==> #[trigger] later.cx.graph.blocks@[c] == self.cx.graph.blocks@[c]
    }

    /// Stores an operand value to a place.
    #[verifier::rlimit(100)]
    #[verifier::spinoff_prover]
    pub fn store_operand(&mut self, val: OperandValue, dest: PlaceRef)
        requires
            old(self).wf(),
            old(self).can_store_operand(val, dest),
        ensures
            old(self).operand_stored(final(self), val, dest),
            old(self).stored_only(final(self)),
    {
        proof {
            old(self).lemma_wf();
            old(self).lemma_grew_refl();
        }
        match val {
            OperandValue::ZeroSized => {},
            OperandValue::Ref { ptr, extra: _, align } => {
                if dest.layout.size.bytes() != 0 {
                    let size = self.const_usize(dest.layout.size.bytes());
                    let ghost mid = *self;
                    proof {
                        old(self).lemma_value_kept(&mid, dest.llval);
                        old(self).lemma_value_kept(&mid, ptr);
                        mid.lemma_wf();
                    }
                    self.memcpy(dest.llval, dest.align, ptr, align, size, MemFlags::empty());
                    proof {
                        old(self).lemma_grew_trans(&mid, self);
                        assert(old(self).emits(
                            &mid,
                            old(self).nth(0),
                            old(self).usize_node(dest.layout.size.bytes),
                        ));
                        assert(mid.copied(self, Builtin::Memcpy, dest.llval, ptr, old(self).nth(0)));
                    }
                }
            },
            OperandValue::Immediate { value } => {
                let val2 = self.from_immediate(value);
                let zero = self.store(val2, dest.llval, dest.align);
                proof {
                    assert(old(self).stored(self, value, dest.llval, dest.align, zero));
                }
            },
            OperandValue::Pair { first, second } => {
                let ty = dest.layout.gcc_type;
                let second_align = match dest.layout.abi {
                    Abi::ScalarPair { first: a, second: b } => dest.align.restrict_for_offset(
                        a.size.align_to(b.align),
                    ),
                    _ => dest.align,
                };
                let llptr = self.struct_gep(ty, dest.llval, 0);
                let ghost s1 = *self;
                proof {
                    old(self).lemma_value_kept(&s1, first);
                    s1.lemma_wf();
                }
                let val1 = self.from_immediate(first);
                let z1 = self.store(val1, llptr, dest.align);
                let ghost s2 = *self;
                proof {
                    old(self).lemma_grew_trans(&s1, &s2);
                    old(self).lemma_value_kept(&s2, dest.llval);
                    old(self).lemma_value_kept(&s2, second);
                    old(self).lemma_type_kept(&s2, ty);
                    old(self).lemma_pointee_held(dest.llval);
                    old(self).lemma_type_kept(&s2, old(self).pointee_of(dest.llval));
                    old(self).lemma_field_kept(&s2, old(self).pointee_of(dest.llval), 1);
                }
                let llptr = self.struct_gep(ty, dest.llval, 1);
                let ghost s3 = *self;
                proof {
                    s2.lemma_value_kept(&s3, second);
                    s3.lemma_wf();
                }
                let val2 = self.from_immediate(second);
                let z2 = self.store(val2, llptr, second_align);
                proof {
                    old(self).lemma_grew_trans(&s2, &s3);
                    old(self).lemma_grew_trans(&s3, self);
                    assert(second_align == Self::second_align(dest));
                    assert(old(self).pair_stored(&s1, &s2, &s3, self, first, second, dest, z1, z2));
                }
            },
        }
    }
}

/// The alignment of the elements of an array aligned to `align`, for
/// elements of the layout `layout`.
pub open spec fn restricted_align(align: Align, layout: Layout) -> Align {
    Align { bytes: crate::layout::restricted(align.bytes as nat, layout.size.bytes as nat) as u64 }
}

} // verus!
