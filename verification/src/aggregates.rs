//! Members of aggregate values: extraction, insertion, and the shuffle of
//! vector units.

use vstd::prelude::*;
use crate::builder::Builder;
use crate::graph::{Instr, LValue, Node, NodeKind, RValue};
use crate::types::{Type, TypeKind};

verus! {

impl Builder {
    pub open spec fn field_of_node(aggregate: RValue, field: usize, ty: Type) -> Node {
        Node { kind: NodeKind::FieldOf { aggregate, field }, ty }
    }

    /// The field `field` of a struct value.
    pub(crate) fn field_of(&mut self, aggregate: RValue, field: usize) -> (r: RValue)
        requires
            old(self).wf(),
            old(self).has_value(aggregate),
            old(self).cx.graph.has_field(old(self).type_of(aggregate), field),
        ensures
            old(self).emits(
                final(self),
                r,
                Self::field_of_node(
                    aggregate,
                    field,
                    old(self).cx.graph.field_type(old(self).type_of(aggregate), field),
                ),
            ),
            final(self).has_type(final(self).type_of(r)),
    {
        proof {
            reveal(Builder::wf);
            reveal(Builder::grew_into);
        }
        let r = self.cx.graph.access_field(aggregate, field);
        proof {
            old(self).cx.lemma_grown(&self.cx);
            self.cx.graph.lemma_typed(r);
        }
        r
    }

    /// How member `idx` of a value of type `t` is reached: as an element
    /// of an array, through a pointer to a struct, or as a field of a
    /// struct value.
    pub open spec fn is_array_value(&self, t: Type) -> bool {
        self.cx.graph.types.shape(t) is Array
    }

    pub open spec fn is_struct_pointer(&self, t: Type, idx: u64) -> bool {
        self.cx.graph.types.is_pointer(t) && self.cx.graph.has_field(
            self.cx.graph.types.pointee(t),
            idx as usize,
        )
    }

    pub open spec fn is_struct_value(&self, t: Type, idx: u64) -> bool {
        self.cx.graph.has_field(t, idx as usize)
    }

    /// The nodes of the extraction of member `idx` of `aggregate`.
    pub open spec fn extract_nodes(&self, later: &Builder, aggregate: RValue, idx: u64) -> Seq<Node> {
        let t = self.type_of(aggregate);
        if self.is_array_value(t) {
            let e = self.cx.graph.element_type(t);
            seq![
                Self::const_node(idx as u128, self.cx.u64_type),
                Self::element_node(aggregate, self.nth(0), e),
                Self::address_node(self.nth_storage(1), later.pointer_to(e)),
            ]
        } else if self.cx.graph.types.is_pointer(t) {
            seq![
                Self::deref_field_node(
                    aggregate,
                    idx as usize,
                    self.cx.graph.field_type(self.pointee_of(aggregate), idx as usize),
                ),
            ]
        } else {
            seq![
                Self::field_of_node(aggregate, idx as usize, self.cx.graph.field_type(t, idx as usize)),
            ]
        }
    }

    /// Member `idx` of `aggregate`: for an array the address of the
    /// element; for a pointer to a struct, which stands for the struct,
    /// the field of what it points to; for a struct value its field. No
    /// other value has members to extract.
    pub fn extract_value(&mut self, aggregate_value: RValue, idx: u64) -> (r: RValue)
        requires
            old(self).wf(),
            old(self).can_extract(aggregate_value, idx),
        ensures
            old(self).adds(final(self), old(self).extract_nodes(final(self), aggregate_value, idx)),
            r.id == final(self).cx.graph.nodes@.len() - 1,
            final(self).has_value(r),
    {
        proof {
            old(self).lemma_wf();
        }
        let value_type = self.val_ty(aggregate_value);
        match self.shape_of(value_type) {
            TypeKind::Array { .. } => {
                let u64_type = self.cx.u64_type;
                let index = self.constant(u64_type, idx as u128);
                let ghost s1 = *self;
                let element = self.element(aggregate_value, index);
                let ghost s2 = *self;
                let r = self.address(element);
                proof {
                    old(self).lemma_grew_trans(&s1, &s2);
                    old(self).lemma_grew_trans(&s2, self);
                    assert(self.cx.graph.nodes@ =~= old(self).cx.graph.nodes@ + old(
                        self,
                    ).extract_nodes(self, aggregate_value, idx));
                }
                r
            },
            TypeKind::Pointer { .. } => {
                let l = self.deref_field(aggregate_value, idx as usize);
                proof {
                    assert(self.cx.graph.nodes@ =~= old(self).cx.graph.nodes@ + old(
                        self,
                    ).extract_nodes(self, aggregate_value, idx));
                }
                l.to_rvalue()
            },
            _ => {
                let r = self.field_of(aggregate_value, idx as usize);
                proof {
                    assert(self.cx.graph.nodes@ =~= old(self).cx.graph.nodes@ + old(
                        self,
                    ).extract_nodes(self, aggregate_value, idx));
                }
                r
            },
        }
    }

    /// The storage of member `idx` of `aggregate`, and the node or nodes
    /// that denote it.
    pub open spec fn member_nodes(&self, aggregate: RValue, idx: u64) -> Seq<Node> {
        let t = self.type_of(aggregate);
        if self.is_array_value(t) {
            seq![
                Self::const_node(idx as u128, self.cx.u64_type),
                Self::element_node(aggregate, self.nth(0), self.cx.graph.element_type(t)),
            ]
        } else if self.cx.graph.types.is_pointer(t) {
            seq![
                Self::deref_field_node(
                    aggregate,
                    idx as usize,
                    self.cx.graph.field_type(self.pointee_of(aggregate), idx as usize),
                ),
            ]
        } else {
            seq![
                Self::field_access_node(
                    LValue { id: aggregate.id },
                    idx as usize,
                    self.cx.graph.field_type(t, idx as usize),
                ),
            ]
        }
    }

    /// Type of member `idx` of `aggregate`.
    pub open spec fn member_type(&self, aggregate: RValue, idx: u64) -> Type {
        let t = self.type_of(aggregate);
        if self.is_array_value(t) {
            self.cx.graph.element_type(t)
        } else if self.cx.graph.types.is_pointer(t) {
            self.cx.graph.field_type(self.pointee_of(aggregate), idx as usize)
        } else {
            self.cx.graph.field_type(t, idx as usize)
        }
    }

    /// The nodes of the insertion of `value` as member `idx` of
    /// `aggregate`: the member's storage (an element of an array, a field
    /// reached through a pointer to a struct, or a field of a struct held
    /// in storage) and, where the value is not of the member's type, the
    /// value converted to it.
    pub open spec fn insert_nodes(&self, aggregate: RValue, value: RValue, idx: u64) -> Seq<Node> {
        let member = self.member_nodes(aggregate, idx);
        let ty = self.member_type(aggregate, idx);
        if ty != self.type_of(value) {
            member.push(Self::cast_node(value, ty))
        } else {
            member
        }
    }

    /// The instruction of the insertion: the assignment to the member.
    pub open spec fn insert_instr(&self, aggregate: RValue, value: RValue, idx: u64) -> Instr {
        let k = self.member_nodes(aggregate, idx).len() as int;
        Instr::Assign {
            target: self.nth_storage(k - 1),
            value: if self.member_type(aggregate, idx) != self.type_of(value) {
                self.nth(k)
            } else {
                value
            },
        }
    }

    /// Assigns `value` to member `idx` of `aggregate`: an element of an
    /// array, or a field of the struct that a pointer, which stands for
    /// it, points to. The value is converted where it is not of the
    /// member's type. The result is the aggregate itself.
    pub fn insert_value(&mut self, aggregate_value: RValue, value: RValue, idx: u64) -> (r: RValue)
        requires
            old(self).wf(),
            old(self).can_insert(aggregate_value, value, idx),
        ensures
            old(self).lowers(
                final(self),
                old(self).insert_nodes(aggregate_value, value, idx),
                seq![old(self).insert_instr(aggregate_value, value, idx)],
            ),
            old(self).same_types(final(self)),
            old(self).same_cursor(final(self)),
            old(self).same_routines(final(self)),
            final(self).cx.graph.vars@ == old(self).cx.graph.vars@,
            final(self).ready(),
            r == aggregate_value,
    {
        proof {
            old(self).lemma_wf();
        }
        let value_type = self.val_ty(aggregate_value);
        let ghost member = self.member_nodes(aggregate_value, idx);
        let lvalue = match self.shape_of(value_type) {
            TypeKind::Array { .. } => {
                let u64_type = self.cx.u64_type;
                let index = self.constant(u64_type, idx as u128);
                let ghost s1 = *self;
                let l = self.element(aggregate_value, index);
                proof {
                    old(self).lemma_grew_trans(&s1, self);
                    assert(self.cx.graph.nodes@ =~= old(self).cx.graph.nodes@ + member);
                }
                l
            },
            TypeKind::Pointer { .. } => {
                let l = self.deref_field(aggregate_value, idx as usize);
                proof {
                    assert(self.cx.graph.nodes@ =~= old(self).cx.graph.nodes@ + member);
                }
                l
            },
            _ => {
                let l = self.field_of_storage(LValue { id: aggregate_value.id }, idx as usize);
                proof {
                    assert(self.cx.graph.nodes@ =~= old(self).cx.graph.nodes@ + member);
                }
                l
            },
        };
        let ghost s2 = *self;
        let lvalue_type = self.val_ty(lvalue.to_rvalue());
        let value_ty = self.val_ty(value);
        let value2 = if lvalue_type != value_ty {
            self.cast(value, lvalue_type)
        } else {
            value
        };
        let ghost s3 = *self;
        self.assign(lvalue, value2);
        proof {
            if lvalue_type != value_ty {
                old(self).lemma_grew_trans(&s2, &s3);
            }
            old(self).lemma_grew_trans(&s3, self);
            assert(self.cx.graph.nodes@ =~= old(self).cx.graph.nodes@ + old(self).insert_nodes(
                aggregate_value,
                value,
                idx,
            ));
            assert(self.cx.graph.instrs(self.block) =~= old(self).cx.graph.instrs(old(self).block)
                + seq![old(self).insert_instr(aggregate_value, value, idx)]);
        }
        aggregate_value
    }
}

impl Builder {
    /// Number of fields of the struct type of a value.
    pub open spec fn field_count(&self, v: RValue) -> int {
        self.cx.graph.types.structs@[self.cx.graph.types.shape(
            self.type_of(v),
        )->Struct_index as int].fields@.len() as int
    }

    /// Number of fields of the struct type of a value.
    pub(crate) fn count_fields(&self, v: RValue) -> (n: usize)
        requires
            self.wf(),
            self.has_value(v),
            self.cx.graph.types.shape(self.type_of(v)) is Struct,
        ensures
            n == self.field_count(v),
            forall|i: usize| i < n ==> self.cx.graph.has_field(self.type_of(v), i),
    {
        proof {
            reveal(Builder::wf);
        }
        let t = self.cx.graph.get_type(v);
        self.cx.graph.get_field_count(t)
    }

    /// The nodes that read the fields of the struct `mask` one by one and
    /// convert each to the type `elem`.
    pub open spec fn mask_unit_nodes(&self, mask: RValue, count: int, elem: Type) -> Seq<Node> {
        self.mask_unit_nodes_at(self.cx.graph.nodes@.len() as int, mask, count, elem)
    }

    /// The same nodes, placed from the node `base` on.
    pub open spec fn mask_unit_nodes_at(&self, base: int, mask: RValue, count: int, elem: Type) -> Seq<
        Node,
    > {
        Seq::new(
            (2 * count) as nat,
            |k: int|
                if k % 2 == 0 {
                    Self::field_of_node(
                        mask,
                        (k / 2) as usize,
                        self.cx.graph.field_type(self.type_of(mask), (k / 2) as usize),
                    )
                } else {
                    Self::cast_node(Self::at(base, k - 1), elem)
                },
        )
    }

    /// The values at every second place after the nodes of `self`,
    /// `count` of them.
    pub open spec fn odd_places(&self, count: int) -> Seq<RValue> {
        Self::odd_places_at(self.cx.graph.nodes@.len() as int, count)
    }

    /// The values at every second place from the node `base` on.
    pub open spec fn odd_places_at(base: int, count: int) -> Seq<RValue> {
        Seq::new(count as nat, |i: int| Self::at(base, 2 * i + 1))
    }

    /// The values at the `count` places after the nodes of `self`.
    pub open spec fn places(&self, count: int) -> Seq<RValue> {
        Self::places_at(self.cx.graph.nodes@.len() as int, count)
    }

    /// The values at the `count` places from the node `base` on.
    pub open spec fn places_at(base: int, count: int) -> Seq<RValue> {
        Seq::new(count as nat, |i: int| Self::at(base, i))
    }

    /// The fields of `mask`, each converted to `elem`.
    pub(crate) fn mask_units(&mut self, mask: RValue, count: usize, elem: Type) -> (out: Vec<RValue>)
        requires
            old(self).wf(),
            old(self).has_value(mask),
            old(self).has_type(elem),
            old(self).cx.graph.types.shape(old(self).type_of(mask)) is Struct,
            count == old(self).field_count(mask),
        ensures
            old(self).adds(final(self), old(self).mask_unit_nodes(mask, count as int, elem)),
            old(self).same_types(final(self)),
            out@ == old(self).odd_places(count as int),
            forall|k: int| 0 <= k < out@.len() ==> final(self).has_value(#[trigger] out@[k]),
    {
        let mut out: Vec<RValue> = Vec::new();
        let mut i: usize = 0;
        proof {
            old(self).lemma_grew_refl();
            assert(self.cx.graph.nodes@ =~= old(self).cx.graph.nodes@ + old(self).mask_unit_nodes(
                mask,
                0,
                elem,
            ));
            assert(out@ =~= old(self).odd_places(0));
        }
        while i < count
            invariant
                i <= count,
                old(self).wf(),
                old(self).has_value(mask),
                old(self).has_type(elem),
                old(self).cx.graph.types.shape(old(self).type_of(mask)) is Struct,
                count == old(self).field_count(mask),
                old(self).grew_into(self),
                old(self).sound(self),
                old(self).same_types(self),
                old(self).same_cursor(self),
                old(self).same_code(self),
                self.cx.graph.lists@ == old(self).cx.graph.lists@,
                self.cx.graph.nodes@ == old(self).cx.graph.nodes@ + old(self).mask_unit_nodes(
                    mask,
                    i as int,
                    elem,
                ),
                out@ == old(self).odd_places(i as int),
                forall|k: int| 0 <= k < out@.len() ==> self.has_value(#[trigger] out@[k]),
            decreases count - i,
        {
            let ghost before = *self;
            proof {
                old(self).lemma_value_kept(self, mask);
            }
            let field = self.field_of(mask, i);
            let ghost mid = *self;
            let unit = self.cast(field, elem);
            out.push(unit);
            proof {
                before.lemma_grew_trans(&mid, self);
                old(self).lemma_grew_trans(&before, self);
                assert(self.cx.graph.nodes@ =~= old(self).cx.graph.nodes@ + old(
                    self,
                ).mask_unit_nodes(mask, i + 1, elem));
                assert(out@ =~= old(self).odd_places(i + 1));
            }
            i = i + 1;
        }
        out
    }

    /// `count` zeros of the type `ty`, each a node of its own.
    pub(crate) fn zeros(&mut self, ty: Type, count: usize) -> (out: Vec<RValue>)
        requires
            old(self).wf(),
            old(self).has_type(ty),
        ensures
            old(self).adds(
                final(self),
                Seq::new(count as nat, |k: int| Self::const_node(0, ty)),
            ),
            old(self).same_types(final(self)),
            out@ == old(self).places(count as int),
            forall|k: int| 0 <= k < out@.len() ==> final(self).has_value(#[trigger] out@[k]),
    {
        let mut out: Vec<RValue> = Vec::new();
        let mut i: usize = 0;
        proof {
            old(self).lemma_grew_refl();
            assert(self.cx.graph.nodes@ =~= old(self).cx.graph.nodes@ + Seq::new(
                0,
                |k: int| Self::const_node(0, ty),
            ));
            assert(out@ =~= old(self).places(0));
        }
        while i < count
            invariant
                i <= count,
                old(self).has_type(ty),
                old(self).grew_into(self),
                old(self).sound(self),
                old(self).same_types(self),
                old(self).same_cursor(self),
                old(self).same_code(self),
                self.cx.graph.lists@ == old(self).cx.graph.lists@,
                self.cx.graph.nodes@ == old(self).cx.graph.nodes@ + Seq::new(
                    i as nat,
                    |k: int| Self::const_node(0, ty),
                ),
                out@ == old(self).places(i as int),
                forall|k: int| 0 <= k < out@.len() ==> self.has_value(#[trigger] out@[k]),
            decreases count - i,
        {
            let ghost before = *self;
            let zero = self.constant(ty, 0);
            out.push(zero);
            proof {
                old(self).lemma_grew_trans(&before, self);
                assert(self.cx.graph.nodes@ =~= old(self).cx.graph.nodes@ + Seq::new(
                    (i + 1) as nat,
                    |k: int| Self::const_node(0, ty),
                ));
                assert(out@ =~= old(self).places(i + 1));
            }
            i = i + 1;
        }
        out
    }

    /// The nodes that read the first `count` elements of the array `array`
    /// one by one: for each its index, a constant of the type `index_ty`,
    /// and the element.
    pub open spec fn array_unit_nodes(&self, array: RValue, count: int, index_ty: Type) -> Seq<Node> {
        Self::array_unit_nodes_at(
            self.cx.graph.nodes@.len() as int,
            array,
            count,
            index_ty,
            self.cx.graph.element_type(self.type_of(array)),
        )
    }

    /// The same nodes, placed from the node `base` on, for elements of
    /// the type `elem`.
    pub open spec fn array_unit_nodes_at(base: int, array: RValue, count: int, index_ty: Type, elem: Type) -> Seq<
        Node,
    > {
        Seq::new(
            (2 * count) as nat,
            |k: int|
                if k % 2 == 0 {
                    Self::const_node((k / 2) as u128, index_ty)
                } else {
                    Self::element_node(array, Self::at(base, k - 1), elem)
                },
        )
    }

    /// The first `count` elements of the array `array`, one by one.
    pub(crate) fn array_units(&mut self, array: RValue, count: usize, index_ty: Type) -> (out: Vec<
        RValue,
    >)
        requires
            old(self).wf(),
            old(self).has_value(array),
            old(self).has_type(index_ty),
            old(self).cx.graph.types.shape(old(self).type_of(array)) is Array,
        ensures
            old(self).adds(final(self), old(self).array_unit_nodes(array, count as int, index_ty)),
            old(self).same_types(final(self)),
            out@ == old(self).odd_places(count as int),
            forall|k: int| 0 <= k < out@.len() ==> final(self).has_value(#[trigger] out@[k]),
    {
        let mut out: Vec<RValue> = Vec::new();
        let mut i: usize = 0;
        proof {
            old(self).lemma_grew_refl();
            assert(self.cx.graph.nodes@ =~= old(self).cx.graph.nodes@ + old(self).array_unit_nodes(
                array,
                0,
                index_ty,
            ));
            assert(out@ =~= old(self).odd_places(0));
        }
        while i < count
            invariant
                i <= count,
                old(self).wf(),
                old(self).has_value(array),
                old(self).has_type(index_ty),
                old(self).cx.graph.types.shape(old(self).type_of(array)) is Array,
                old(self).grew_into(self),
                old(self).sound(self),
                old(self).same_types(self),
                old(self).same_cursor(self),
                old(self).same_code(self),
                self.cx.graph.lists@ == old(self).cx.graph.lists@,
                self.cx.graph.nodes@ == old(self).cx.graph.nodes@ + old(self).array_unit_nodes(
                    array,
                    i as int,
                    index_ty,
                ),
                out@ == old(self).odd_places(i as int),
                forall|k: int| 0 <= k < out@.len() ==> self.has_value(#[trigger] out@[k]),
            decreases count - i,
        {
            let ghost before = *self;
            proof {
                old(self).lemma_value_kept(self, array);
            }
            let index = self.constant(index_ty, i as u128);
            let ghost mid = *self;
            let unit = self.element(array, index);
            out.push(unit.to_rvalue());
            proof {
                before.lemma_grew_trans(&mid, self);
                old(self).lemma_grew_trans(&before, self);
                assert(self.cx.graph.nodes@ =~= old(self).cx.graph.nodes@ + old(
                    self,
                ).array_unit_nodes(array, i + 1, index_ty));
                assert(out@ =~= old(self).odd_places(i + 1));
            }
            i = i + 1;
        }
        out
    }
}

impl Builder {
    /// From the node `base` on stand the nodes `nodes`.
    #[verifier::opaque]
    pub open spec fn holds_at(&self, base: int, nodes: Seq<Node>) -> bool {
        &&& 0 <= base
        &&& base + nodes.len() <= self.cx.graph.nodes@.len()
        &&& forall|k: int|
            0 <= k < nodes.len() ==> self.cx.graph.nodes@[base + k] == #[trigger] nodes[k]
    }

    /// Nodes stay where they stand when the builder goes on.
    pub proof fn lemma_holds_kept(&self, later: &Builder, base: int, nodes: Seq<Node>)
        requires
            self.grew_into(later),
            self.holds_at(base, nodes),
        ensures
            later.holds_at(base, nodes),
    {
        reveal(Builder::holds_at);
        self.lemma_grew_prefixes(later);
        assert forall|k: int| 0 <= k < nodes.len() implies later.cx.graph.nodes@[base + k]
            == #[trigger] nodes[k] by {
            assert(self.cx.graph.nodes@[base + k] == nodes[k]);
        }
    }

    /// Nodes that were added stand after the nodes there were.
    pub proof fn lemma_added_holds(&self, later: &Builder, nodes: Seq<Node>)
        requires
            later.cx.graph.nodes@ == self.cx.graph.nodes@ + nodes,
        ensures
            later.holds_at(self.cx.graph.nodes@.len() as int, nodes),
            later.cx.graph.nodes@.len() == self.cx.graph.nodes@.len() + nodes.len(),
    {
        reveal(Builder::holds_at);
    }

    pub open spec fn vector_node(list: int, ty: Type) -> Node {
        Node { kind: NodeKind::VectorLiteral { elements: list as usize }, ty }
    }

    pub open spec fn perm_node(first: RValue, second: RValue, mask: RValue, ty: Type) -> Node {
        Node { kind: NodeKind::VectorPerm { first, second, mask }, ty }
    }

    /// The vector of type `ty` made of `elements`.
    pub(crate) fn vector_of(&mut self, ty: Type, elements: Vec<RValue>) -> (r: RValue)
        requires
            old(self).wf(),
            old(self).has_type(ty),
            forall|k: int| 0 <= k < elements@.len() ==> old(self).has_value(#[trigger] elements@[k]),
        ensures
            old(self).emits_with_list(
                final(self),
                r,
                Self::vector_node(old(self).cx.graph.lists@.len() as int, ty),
                elements@,
            ),
    {
        proof {
            reveal(Builder::wf);
            reveal(Builder::grew_into);
        }
        let r = self.cx.graph.new_rvalue_from_vector(ty, elements);
        proof {
            old(self).cx.lemma_grown(&self.cx);
        }
        r
    }

    /// The vector whose units are picked from `first` and `second` as
    /// `mask` says.
    pub(crate) fn perm(&mut self, first: RValue, second: RValue, mask: RValue) -> (r: RValue)
        requires
            old(self).wf(),
            old(self).has_value(first),
            old(self).has_value(second),
            old(self).has_value(mask),
        ensures
            old(self).emits(
                final(self),
                r,
                Self::perm_node(first, second, mask, old(self).type_of(first)),
            ),
    {
        proof {
            reveal(Builder::wf);
            reveal(Builder::grew_into);
        }
        let r = self.cx.graph.new_rvalue_vector_perm(first, second, mask);
        proof {
            old(self).cx.lemma_grown(&self.cx);
        }
        r
    }
}

/// `count` times the value `v`.
pub fn repeated(v: RValue, count: usize) -> (out: Vec<RValue>)
    ensures
        out@ == Seq::new(count as nat, |i: int| v),
{
    let mut out: Vec<RValue> = Vec::new();
    let mut i: usize = 0;
    proof {
        assert(out@ =~= Seq::new(0, |i: int| v));
    }
    while i < count
        invariant
            i <= count,
            out@ == Seq::new(i as nat, |k: int| v),
        decreases count - i,
    {
        out.push(v);
        proof {
            assert(out@ =~= Seq::new((i + 1) as nat, |k: int| v));
        }
        i = i + 1;
    }
    out
}

/// The values of `a` followed by those of `b`.
pub fn joined(a: Vec<RValue>, b: &Vec<RValue>) -> (out: Vec<RValue>)
    ensures
        out@ == a@ + b@,
{
    let mut out = a;
    let mut i: usize = 0;
    let ghost start = out@;
    proof {
        assert(out@ =~= start + b@.take(0));
    }
    while i < b.len()
        invariant
            i <= b@.len(),
            out@ == start + b@.take(i as int),
        decreases b@.len() - i,
    {
        out.push(b[i]);
        proof {
            assert(out@ =~= start + b@.take(i + 1));
        }
        i = i + 1;
    }
    proof {
        assert(b@.take(b@.len() as int) =~= b@);
    }
    out
}

impl Builder {
    /// Number of units of the vector type of a value.
    pub open spec fn unit_count(&self, v: RValue) -> int {
        self.cx.graph.types.shape(self.type_of(v))->Vector_len as int
    }

    /// Type of the units of the vector type of a value.
    pub open spec fn unit_type(&self, v: RValue) -> Type {
        self.cx.graph.types.shape(self.type_of(v))->Vector_element
    }

    /// Type of the units of the mask of a shuffle of vectors like `v`:
    /// that of the vector's units where they are integers, else the C
    /// `int`.
    pub open spec fn mask_unit_type(&self, v: RValue) -> Type {
        if self.cx.graph.types.is_integral_type(self.unit_type(v)) {
            self.unit_type(v)
        } else {
            self.cx.int_type
        }
    }

    /// The nodes that make an array-typed reading of `vector` and read its
    /// first `count` elements.
    pub open spec fn unpacked_at(base: int, vector: RValue, count: int, array: Type, index_ty: Type, elem: Type) -> Seq<
        Node,
    > {
        seq![Self::bitcast_node(vector, array)] + Self::array_unit_nodes_at(
            base + 1,
            Self::at(base, 0),
            count,
            index_ty,
            elem,
        )
    }

    /// Reads `vector` as an array of type `array` and takes its first
    /// `count` elements.
    pub(crate) fn unpack(&mut self, vector: RValue, count: usize, array: Type) -> (out: Vec<RValue>)
        requires
            old(self).wf(),
            old(self).has_value(vector),
            old(self).has_type(array),
            old(self).cx.graph.types.shape(array) is Array,
        ensures
            old(self).adds(
                final(self),
                Self::unpacked_at(
                    old(self).cx.graph.nodes@.len() as int,
                    vector,
                    count as int,
                    array,
                    old(self).cx.int_type,
                    old(self).cx.graph.element_type(array),
                ),
            ),
            old(self).same_types(final(self)),
            out@ == Self::odd_places_at(old(self).cx.graph.nodes@.len() as int + 1, count as int),
            forall|k: int| 0 <= k < out@.len() ==> final(self).has_value(#[trigger] out@[k]),
    {
        proof {
            old(self).lemma_wf();
        }
        let int_type = self.cx.int_type;
        let arr = self.bitcast(vector, array);
        let ghost s1 = *self;
        let out = self.array_units(arr, count, int_type);
        proof {
            old(self).lemma_grew_trans(&s1, self);
            assert(self.cx.graph.nodes@ =~= old(self).cx.graph.nodes@ + Self::unpacked_at(
                old(self).cx.graph.nodes@.len() as int,
                vector,
                count as int,
                array,
                int_type,
                old(self).cx.graph.element_type(array),
            ));
        }
        out
    }

    /// The list `index` holds `contents`.
    pub open spec fn list_is(&self, index: int, contents: Seq<RValue>) -> bool {
        0 <= index < self.cx.graph.lists@.len() && self.cx.graph.list(index as usize) == contents
    }

    /// A list keeps its contents when the builder goes on.
    pub proof fn lemma_list_kept(&self, later: &Builder, index: int, contents: Seq<RValue>)
        requires
            self.grew_into(later),
            self.list_is(index, contents),
        ensures
            later.list_is(index, contents),
    {
        self.lemma_grew_prefixes(later);
        assert(later.cx.graph.lists@[index] == self.cx.graph.lists@[index]);
    }

    /// Nothing but nodes, lists and types was added, and the cursor has
    /// not moved.
    pub open spec fn computes(&self, later: &Builder) -> bool {
        &&& later.wf()
        &&& self.grew_into(later)
        &&& self.sound(later)
        &&& self.same_cursor(later)
        &&& self.same_code(later)
    }

    /// The units of the mask of a shuffle: the `m` fields of `mask`, each
    /// converted to `mask_elem`, and `pad` zeros after them.
    pub open spec fn mask_built(&self, later: &Builder, mask: RValue, m: int, pad: int, mask_elem: Type) -> bool {
        let n = self.cx.graph.nodes@.len() as int;
        &&& later.holds_at(n, self.mask_unit_nodes_at(n, mask, m, mask_elem))
        &&& later.holds_at(n + 2 * m, Seq::new(pad as nat, |k: int| Self::const_node(0, mask_elem)))
    }

    pub(crate) fn build_mask(&mut self, mask: RValue, m: usize, v: usize, mask_elem: Type) -> (out: Vec<
        RValue,
    >)
        requires
            old(self).wf(),
            old(self).has_value(mask),
            old(self).has_type(mask_elem),
            old(self).cx.graph.types.shape(old(self).type_of(mask)) is Struct,
            m == old(self).field_count(mask),
        ensures
            old(self).computes(final(self)),
            old(self).same_types(final(self)),
            final(self).cx.graph.lists@ == old(self).cx.graph.lists@,
            old(self).mask_built(
                final(self),
                mask,
                m as int,
                if m < v {
                    v - m
                } else {
                    0
                },
                mask_elem,
            ),
            final(self).cx.graph.nodes@.len() == old(self).cx.graph.nodes@.len() + 2 * m + if m
                < v {
                v - m
            } else {
                0
            },
            out@ == Self::odd_places_at(old(self).cx.graph.nodes@.len() as int, m as int)
                + Self::places_at(
                old(self).cx.graph.nodes@.len() + 2 * m,
                if m < v {
                    v - m
                } else {
                    0
                },
            ),
            forall|k: int| 0 <= k < out@.len() ==> final(self).has_value(#[trigger] out@[k]),
    {
        let ghost n = self.cx.graph.nodes@.len() as int;
        let units = self.mask_units(mask, m, mask_elem);
        let ghost s1 = *self;
        proof {
            old(self).lemma_added_holds(&s1, old(self).mask_unit_nodes_at(n, mask, m as int, mask_elem));
        }
        if m < v {
            let padding = self.zeros(mask_elem, v - m);
            let out = joined(units, &padding);
            proof {
                old(self).lemma_grew_trans(&s1, self);
                s1.lemma_added_holds(
                    self,
                    Seq::new((v - m) as nat, |k: int| Self::const_node(0, mask_elem)),
                );
                s1.lemma_holds_kept(self, n, old(self).mask_unit_nodes_at(n, mask, m as int, mask_elem));
                assert forall|k: int| 0 <= k < out@.len() implies self.has_value(
                    #[trigger] out@[k],
                ) by {
                    if k < m {
                        assert(s1.has_value(units@[k]));
                    } else {
                        assert(self.has_value(padding@[k - m]));
                    }
                }
            }
            out
        } else {
            proof {
                reveal(Builder::holds_at);
                assert(units@ =~= Self::odd_places_at(n, m as int) + Self::places_at(n + 2 * m, 0));
            }
            units
        }
    }

    /// The operands of a shuffle whose mask is longer than they are, from
    /// the node `base` and the list `list` on: the `v` units of `v1` and
    /// of `v2`, read through arrays of type `array`, made one vector of
    /// type `result`, and a second vector of `m` times one zero.
    pub open spec fn widened_at(
        &self,
        base: int,
        list: int,
        v1: RValue,
        v2: RValue,
        v: int,
        m: int,
        array: Type,
        result: Type,
        elem: Type,
    ) -> bool {
        let int_type = self.cx.int_type;
        &&& self.holds_at(base, Self::unpacked_at(base, v1, v, array, int_type, elem))
        &&& self.holds_at(
            base + 1 + 2 * v,
            Self::unpacked_at(base + 1 + 2 * v, v2, v, array, int_type, elem),
        )
        &&& self.holds_at(
            base + 2 + 4 * v,
            seq![
                Self::vector_node(list, result),
                Self::const_node(0, elem),
                Self::vector_node(list + 1, result),
            ],
        )
        &&& self.list_is(
            list,
            Self::odd_places_at(base + 1, v) + Self::odd_places_at(base + 2 + 2 * v, v),
        )
        &&& self.list_is(list + 1, Seq::new(m as nat, |i: int| Self::at(base, 3 + 4 * v)))
    }

    pub proof fn lemma_widened_kept(
        &self,
        later: &Builder,
        base: int,
        list: int,
        v1: RValue,
        v2: RValue,
        v: int,
        m: int,
        array: Type,
        result: Type,
        elem: Type,
    )
        requires
            self.grew_into(later),
            self.sound(later),
            self.widened_at(base, list, v1, v2, v, m, array, result, elem),
        ensures
            later.widened_at(base, list, v1, v2, v, m, array, result, elem),
    {
        let int_type = self.cx.int_type;
        self.lemma_holds_kept(later, base, Self::unpacked_at(base, v1, v, array, int_type, elem));
        self.lemma_holds_kept(
            later,
            base + 1 + 2 * v,
            Self::unpacked_at(base + 1 + 2 * v, v2, v, array, int_type, elem),
        );
        self.lemma_holds_kept(
            later,
            base + 2 + 4 * v,
            seq![
                Self::vector_node(list, result),
                Self::const_node(0, elem),
                Self::vector_node(list + 1, result),
            ],
        );
        self.lemma_list_kept(
            later,
            list,
            Self::odd_places_at(base + 1, v) + Self::odd_places_at(base + 2 + 2 * v, v),
        );
        self.lemma_list_kept(later, list + 1, Seq::new(m as nat, |i: int| Self::at(base, 3 + 4 * v)));
    }

    pub(crate) fn widen(&mut self, v1: RValue, v2: RValue, v: usize, m: usize, array: Type, result: Type) -> (r: (
        RValue,
        RValue,
    ))
        requires
            old(self).wf(),
            old(self).has_value(v1),
            old(self).has_value(v2),
            old(self).has_type(array),
            old(self).has_type(result),
            old(self).cx.graph.types.shape(array) is Array,
        ensures
            old(self).computes(final(self)),
            old(self).same_types(final(self)),
            final(self).widened_at(
                old(self).cx.graph.nodes@.len() as int,
                old(self).cx.graph.lists@.len() as int,
                v1,
                v2,
                v as int,
                m as int,
                array,
                result,
                old(self).cx.graph.element_type(array),
            ),
            final(self).cx.graph.nodes@.len() == old(self).cx.graph.nodes@.len() + 4 * v + 5,
            final(self).cx.graph.lists@.len() == old(self).cx.graph.lists@.len() + 2,
            r.0 == Self::at(old(self).cx.graph.nodes@.len() as int, 2 + 4 * v),
            r.1 == Self::at(old(self).cx.graph.nodes@.len() as int, 4 + 4 * v),
            final(self).has_value(r.0),
            final(self).has_value(r.1),
            final(self).type_of(r.0) == result,
    {
        proof {
            old(self).lemma_wf();
        }
        let ghost base = self.cx.graph.nodes@.len() as int;
        let ghost list = self.cx.graph.lists@.len() as int;
        let ghost elem = self.cx.graph.element_type(array);
        let int_type = self.cx.int_type;
        let e1 = self.unpack(v1, v, array);
        let ghost t1 = *self;
        let e2 = self.unpack(v2, v, array);
        let ghost t2 = *self;
        let elements = joined(e1, &e2);
        proof {
            old(self).lemma_grew_trans(&t1, &t2);
            assert forall|k: int| 0 <= k < elements@.len() implies t2.has_value(
                #[trigger] elements@[k],
            ) by {
                if k < v {
                    assert(t1.has_value(e1@[k]));
                } else {
                    assert(t2.has_value(e2@[k - v]));
                }
            }
        }
        let nv1 = self.vector_of(result, elements);
        let ghost t3 = *self;
        proof {
            old(self).lemma_wf();
            assert(t3.has_type(elem)) by {
                reveal(Builder::wf);
                old(self).cx.graph.types.lemma_strip_plain(array);
                let u = old(self).cx.graph.types.strip(array);
                assert(old(self).cx.graph.types.infos@[u.id as int].kind.within(
                    u.id as int,
                    old(self).cx.graph.types.structs.len() as int,
                    old(self).cx.graph.types.signatures.len() as int,
                ));
            }
        }
        let elem_type = match self.shape_of(array) {
            TypeKind::Array { element, .. } => element,
            _ => array,
        };
        let zero = self.constant(elem_type, 0);
        let ghost t4 = *self;
        let nv2 = self.vector_of(result, repeated(zero, m));
        proof {
            old(self).lemma_grew_trans(&t2, &t3);
            old(self).lemma_grew_trans(&t3, &t4);
            old(self).lemma_grew_trans(&t4, self);
            t1.lemma_grew_trans(&t2, &t3);
            t1.lemma_grew_trans(&t3, &t4);
            t1.lemma_grew_trans(&t4, self);
            t2.lemma_grew_trans(&t3, &t4);
            t2.lemma_grew_trans(&t4, self);
            t3.lemma_grew_trans(&t4, self);
            old(self).lemma_added_holds(&t1, Self::unpacked_at(base, v1, v as int, array, int_type, elem));
            t1.lemma_added_holds(
                &t2,
                Self::unpacked_at(base + 1 + 2 * v, v2, v as int, array, int_type, elem),
            );
            t1.lemma_holds_kept(self, base, Self::unpacked_at(base, v1, v as int, array, int_type, elem));
            t2.lemma_holds_kept(
                self,
                base + 1 + 2 * v,
                Self::unpacked_at(base + 1 + 2 * v, v2, v as int, array, int_type, elem),
            );
            assert(t3.list_is(list, elements@));
            t3.lemma_list_kept(self, list, elements@);
            assert(self.holds_at(
                base + 2 + 4 * v,
                seq![
                    Self::vector_node(list, result),
                    Self::const_node(0, elem),
                    Self::vector_node(list + 1, result),
                ],
            )) by {
                reveal(Builder::holds_at);
                t3.lemma_grew_prefixes(self);
                t4.lemma_grew_prefixes(self);
            }
            assert(self.cx.graph.list((list + 1) as usize) =~= Seq::new(
                m as nat,
                |i: int| Self::at(base, 3 + 4 * v),
            ));
        }
        (nv1, nv2)
    }
}

impl Builder {
    /// From the node `base` on stand the mask of a shuffle, a vector of
    /// type `mask_type` made of the list `list`, which holds `units`, and
    /// the permutation of `first` and `second` by it, of the type `ty`.
    pub open spec fn permuted_at(
        &self,
        base: int,
        list: int,
        first: RValue,
        second: RValue,
        ty: Type,
        mask_type: Type,
        units: Seq<RValue>,
    ) -> bool {
        &&& self.holds_at(
            base,
            seq![
                Self::vector_node(list, mask_type),
                Self::perm_node(first, second, Self::at(base, 0), ty),
            ],
        )
        &&& self.list_is(list, units)
    }

    pub proof fn lemma_permuted_kept(
        &self,
        later: &Builder,
        base: int,
        list: int,
        first: RValue,
        second: RValue,
        ty: Type,
        mask_type: Type,
        units: Seq<RValue>,
    )
        requires
            self.grew_into(later),
            self.permuted_at(base, list, first, second, ty, mask_type, units),
        ensures
            later.permuted_at(base, list, first, second, ty, mask_type, units),
    {
        self.lemma_holds_kept(
            later,
            base,
            seq![
                Self::vector_node(list, mask_type),
                Self::perm_node(first, second, Self::at(base, 0), ty),
            ],
        );
        self.lemma_list_kept(later, list, units);
    }

    pub(crate) fn permute(&mut self, first: RValue, second: RValue, units: Vec<RValue>, mask_type: Type) -> (r:
        RValue)
        requires
            old(self).wf(),
            old(self).has_value(first),
            old(self).has_value(second),
            old(self).has_type(mask_type),
            forall|k: int| 0 <= k < units@.len() ==> old(self).has_value(#[trigger] units@[k]),
        ensures
            old(self).computes(final(self)),
            old(self).same_types(final(self)),
            final(self).permuted_at(
                old(self).cx.graph.nodes@.len() as int,
                old(self).cx.graph.lists@.len() as int,
                first,
                second,
                old(self).type_of(first),
                mask_type,
                units@,
            ),
            final(self).cx.graph.nodes@.len() == old(self).cx.graph.nodes@.len() + 2,
            final(self).cx.graph.lists@.len() == old(self).cx.graph.lists@.len() + 1,
            r == Self::at(old(self).cx.graph.nodes@.len() as int, 1),
            final(self).has_value(r),
    {
        let mask = self.vector_of(mask_type, units);
        let ghost s1 = *self;
        let r = self.perm(first, second, mask);
        proof {
            old(self).lemma_grew_trans(&s1, self);
            s1.lemma_grew_prefixes(self);
            assert(self.cx.graph.lists@[old(self).cx.graph.lists@.len() as int]
                == s1.cx.graph.lists@[old(self).cx.graph.lists@.len() as int]);
            reveal(Builder::holds_at);
        }
        r
    }

    /// From the node `base` on stand the nodes that take the first `m`
    /// units of the vector `vector`, read through an array of type
    /// `array`, and make them a vector of type `result`, of the list
    /// `list`.
    pub open spec fn narrowed_at(
        &self,
        base: int,
        list: int,
        vector: RValue,
        m: int,
        array: Type,
        result: Type,
        elem: Type,
    ) -> bool {
        &&& self.holds_at(base, Self::unpacked_at(base, vector, m, array, self.cx.int_type, elem))
        &&& self.holds_at(base + 1 + 2 * m, seq![Self::vector_node(list, result)])
        &&& self.list_is(list, Self::odd_places_at(base + 1, m))
    }

    pub(crate) fn narrow(&mut self, vector: RValue, m: usize, array: Type, result: Type) -> (r: RValue)
        requires
            old(self).wf(),
            old(self).has_value(vector),
            old(self).has_type(array),
            old(self).has_type(result),
            old(self).cx.graph.types.shape(array) is Array,
        ensures
            old(self).computes(final(self)),
            old(self).same_types(final(self)),
            final(self).narrowed_at(
                old(self).cx.graph.nodes@.len() as int,
                old(self).cx.graph.lists@.len() as int,
                vector,
                m as int,
                array,
                result,
                old(self).cx.graph.element_type(array),
            ),
            final(self).cx.graph.nodes@.len() == old(self).cx.graph.nodes@.len() + 2 * m + 2,
            final(self).cx.graph.lists@.len() == old(self).cx.graph.lists@.len() + 1,
            r == Self::at(old(self).cx.graph.nodes@.len() as int, 1 + 2 * m),
            final(self).has_value(r),
    {
        proof {
            old(self).lemma_wf();
        }
        let ghost base = self.cx.graph.nodes@.len() as int;
        let ghost elem = self.cx.graph.element_type(array);
        let elements = self.unpack(vector, m, array);
        let ghost s1 = *self;
        let r = self.vector_of(result, elements);
        proof {
            old(self).lemma_grew_trans(&s1, self);
            old(self).lemma_added_holds(
                &s1,
                Self::unpacked_at(base, vector, m as int, array, old(self).cx.int_type, elem),
            );
            s1.lemma_holds_kept(
                self,
                base,
                Self::unpacked_at(base, vector, m as int, array, old(self).cx.int_type, elem),
            );
            assert(self.holds_at(
                base + 1 + 2 * m,
                seq![Self::vector_node(old(self).cx.graph.lists@.len() as int, result)],
            )) by {
                reveal(Builder::holds_at);
            }
        }
        r
    }

    /// Number of zeros that pad a mask of `m` indices to `v` units.
    pub open spec fn padding(m: int, v: int) -> int {
        if m < v {
            v - m
        } else {
            0
        }
    }

    /// The lowering of a shuffle of the units of `v1` and `v2` by `mask`,
    /// a struct of as many indices as the result has units. The indices
    /// are converted one by one, to be made a vector, padded with zeros to
    /// the number of units of the operands. Where the mask is longer than
    /// the operands, the operands are replaced: the first by the units of
    /// both, the second by zeros. The mask and the permutation follow.
    /// Where the numbers of units differ, the first units of the
    /// permutation, as many as the mask has indices, are made the result;
    /// else the permutation is.
    pub open spec fn shuffled(&self, later: &Builder, v1: RValue, v2: RValue, mask: RValue, r: RValue) -> bool {
        let n = self.cx.graph.nodes@.len() as int;
        let lists = self.cx.graph.lists@.len() as int;
        let m = self.field_count(mask);
        let v = self.unit_count(v1);
        let elem = self.unit_type(v1);
        let mask_elem = self.mask_unit_type(v1);
        let pad = Self::padding(m, v);
        let array = later.type_for(TypeKind::Array { element: elem, len: v as u64 });
        let result = later.type_for(TypeKind::Vector { element: elem, len: m as u64 });
        let mask_type = later.type_for(
            TypeKind::Vector { element: mask_elem, len: (m + pad) as u64 },
        );
        let wide = v < m;
        let join_at = n + 2 * m + pad;
        let perm_at = if wide {
            join_at + 4 * v + 5
        } else {
            join_at
        };
        let cut_at = perm_at + 2;
        let mask_list = if wide {
            lists + 2
        } else {
            lists
        };
        &&& self.computes(later)
        &&& self.mask_built(later, mask, m, pad, mask_elem)
        &&& wide ==> later.widened_at(join_at, lists, v1, v2, v, m, array, result, elem)
        &&& later.permuted_at(
            perm_at,
            mask_list,
            if wide {
                Self::at(join_at, 2 + 4 * v)
            } else {
                v1
            },
            if wide {
                Self::at(join_at, 4 + 4 * v)
            } else {
                v2
            },
            if wide {
                result
            } else {
                self.type_of(v1)
            },
            mask_type,
            Self::odd_places_at(n, m) + Self::places_at(n + 2 * m, pad),
        )
        &&& v != m ==> later.narrowed_at(cut_at, mask_list + 1, Self::at(perm_at, 1), m, array, result, elem)
        &&& later.cx.graph.nodes@.len() == if v != m {
            cut_at + 2 * m + 2
        } else {
            cut_at
        }
        &&& r == Self::at(later.cx.graph.nodes@.len() as int, -1)
    }

    /// Element type and number of units of the vector type of a value.
    pub(crate) fn vector_parts(&self, v: RValue) -> (r: (Type, u64))
        requires
            self.wf(),
            self.has_value(v),
            self.cx.graph.types.is_vector_type(self.type_of(v)),
        ensures
            r.0 == self.unit_type(v),
            r.1 == self.unit_count(v),
            self.has_type(r.0),
    {
        proof {
            reveal(Builder::wf);
        }
        let t = self.cx.graph.get_type(v);
        self.cx.graph.types.dyncast_vector(t).unwrap()
    }

    pub(crate) fn is_integral(&self, t: Type) -> (r: bool)
        requires
            self.wf(),
            self.has_type(t),
        ensures
            r == self.cx.graph.types.is_integral_type(t),
    {
        proof {
            reveal(Builder::wf);
        }
        self.cx.graph.types.is_integral(t)
    }

    /// Shuffles the units of `v1` and `v2` as `mask` says: a struct of
    /// indices, one for each unit of the result.
    #[verifier::rlimit(100)]
    #[verifier::spinoff_prover]
    pub fn shuffle_vector(&mut self, v1: RValue, v2: RValue, mask: RValue) -> (r: RValue)
        requires
            old(self).wf(),
            old(self).can_shuffle(v1, v2, mask),
        ensures
            old(self).shuffled(final(self), v1, v2, mask, r),
            final(self).has_value(r),
    {
        proof {
            old(self).lemma_wf();
        }
        let ghost n = self.cx.graph.nodes@.len() as int;
        let ghost lists = self.cx.graph.lists@.len() as int;
        let (element_type, vec_units) = self.vector_parts(v1);
        let vec_num_units = vec_units as usize;
        let mask_num_units = self.count_fields(mask);
        let int_type = self.cx.int_type;
        let mask_element_type = if self.is_integral(element_type) {
            element_type
        } else {
            int_type
        };
        let ghost m = mask_num_units as int;
        let ghost v = vec_num_units as int;
        let ghost pad = Self::padding(m, v);
        let vector_elements = self.build_mask(mask, mask_num_units, vec_num_units, mask_element_type);
        let ghost s1 = *self;
        let array_type = self.type_handle(TypeKind::Array { element: element_type, len: vec_units });
        let ghost s2 = *self;
        let result_type = self.type_handle(
            TypeKind::Vector { element: element_type, len: mask_num_units as u64 },
        );
        let ghost s3 = *self;
        let new_mask_num_units = if mask_num_units < vec_num_units {
            vec_num_units
        } else {
            mask_num_units
        };
        let mask_type = self.type_handle(
            TypeKind::Vector { element: mask_element_type, len: new_mask_num_units as u64 },
        );
        let ghost s4 = *self;
        proof {
            old(self).lemma_grew_trans(&s1, &s2);
            old(self).lemma_grew_trans(&s2, &s3);
            old(self).lemma_grew_trans(&s3, &s4);
            s1.lemma_grew_trans(&s2, &s3);
            s1.lemma_grew_trans(&s3, &s4);
            s2.lemma_grew_trans(&s3, &s4);
            s2.lemma_type_kept(&s4, array_type);
            s3.lemma_type_kept(&s4, result_type);
            old(self).lemma_value_kept(&s4, v1);
            old(self).lemma_value_kept(&s4, v2);
            s1.lemma_grew_prefixes(&s4);
        }
        let (first, second) = if vec_num_units < mask_num_units {
            self.widen(v1, v2, vec_num_units, mask_num_units, array_type, result_type)
        } else {
            proof {
                s4.lemma_grew_refl();
            }
            (v1, v2)
        };
        let ghost s5 = *self;
        proof {
            s1.lemma_grew_trans(&s4, &s5);
            s1.lemma_grew_prefixes(&s5);
            s4.lemma_type_kept(&s5, mask_type);
        }
        let result = self.permute(first, second, vector_elements, mask_type);
        let ghost s6 = *self;
        proof {
            s4.lemma_grew_trans(&s5, &s6);
            s4.lemma_type_kept(&s6, array_type);
            s4.lemma_type_kept(&s6, result_type);
        }
        let r = if vec_num_units != mask_num_units {
            self.narrow(result, mask_num_units, array_type, result_type)
        } else {
            proof {
                s6.lemma_grew_refl();
            }
            result
        };
        proof {
            old(self).lemma_grew_trans(&s4, &s5);
            old(self).lemma_grew_trans(&s5, &s6);
            old(self).lemma_grew_trans(&s6, self);
            s1.lemma_grew_trans(&s5, &s6);
            s1.lemma_grew_trans(&s6, self);
            s4.lemma_grew_trans(&s6, self);
            s5.lemma_grew_trans(&s6, self);
            s1.lemma_holds_kept(self, n, old(self).mask_unit_nodes_at(n, mask, m, mask_element_type));
            s1.lemma_holds_kept(
                self,
                n + 2 * m,
                Seq::new(pad as nat, |k: int| Self::const_node(0, mask_element_type)),
            );
            s4.lemma_type_kept(self, array_type);
            s4.lemma_type_kept(self, result_type);
            s4.lemma_type_kept(self, mask_type);
            self.lemma_type_found(array_type);
            self.lemma_type_found(result_type);
            self.lemma_type_found(mask_type);
            let join_at = n + 2 * m + pad;
            if v < m {
                s5.lemma_widened_kept(
                    self,
                    join_at,
                    lists,
                    v1,
                    v2,
                    v,
                    m,
                    array_type,
                    result_type,
                    element_type,
                );
            }
            s6.lemma_permuted_kept(
                self,
                s5.cx.graph.nodes@.len() as int,
                s5.cx.graph.lists@.len() as int,
                first,
                second,
                s5.type_of(first),
                mask_type,
                vector_elements@,
            );
        }
        r
    }
}

} // verus!
