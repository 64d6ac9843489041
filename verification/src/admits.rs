//! What the requests ask of their arguments, as tests. A caller that
//! cannot prove that a request may be made asks here first: each test
//! answers exactly whether the request it is named after may be made.

use vstd::prelude::*;
use crate::builder::{shorter, Builder};
use crate::graph::{Block, LValue, RValue};
use crate::layout::{Abi, OperandRef, OperandValue, PlaceRef};
use crate::types::{Type, TypeKind};

verus! {

impl Builder {
    /// Whether the handle denotes a value of the graph.
    pub fn holds_value(&self, v: RValue) -> (r: bool)
        ensures
            r == self.has_value(v),
    {
        v.id < self.cx.graph.nodes.len()
    }

    /// Whether the handle denotes storage of the graph.
    pub fn holds_storage(&self, l: LValue) -> (r: bool)
        ensures
            r == self.cx.graph.has_storage(l),
    {
        l.id < self.cx.graph.nodes.len() && self.cx.graph.as_lvalue(RValue { id: l.id }).is_some()
    }

    /// Whether the handle denotes a type of the graph.
    pub fn holds_type(&self, t: Type) -> (r: bool)
        ensures
            r == self.has_type(t),
    {
        t.id < self.cx.graph.types.infos.len()
    }

    /// Whether the handle denotes a block of the graph.
    pub fn holds_block(&self, b: Block) -> (r: bool)
        ensures
            r == self.cx.graph.has_block(b),
    {
        b.id < self.cx.graph.blocks.len()
    }

    /// Whether every handle of `vs` denotes a value of the graph.
    pub fn holds_values(&self, vs: &[RValue]) -> (r: bool)
        ensures
            r == (forall|k: int| 0 <= k < vs@.len() ==> self.has_value(#[trigger] vs@[k])),
    {
        let mut k: usize = 0;
        while k < vs.len()
            invariant
                k <= vs@.len(),
                forall|j: int| 0 <= j < k ==> self.has_value(#[trigger] vs@[j]),
            decreases vs@.len() - k,
        {
            if !self.holds_value(vs[k]) {
                proof {
                    assert(!self.has_value(vs@[k as int]));
                }
                return false;
            }
            k = k + 1;
        }
        true
    }

    /// Whether the block under the cursor can still receive instructions.
    pub fn is_ready(&self) -> (r: bool)
        requires
            self.wf(),
        ensures
            r == self.ready(),
    {
        proof {
            self.lemma_wf();
        }
        !self.cx.graph.is_closed(self.block)
    }

    /// Whether `v` is a value of the graph whose type is a pointer type.
    pub fn points(&self, v: RValue) -> (r: bool)
        requires
            self.wf(),
        ensures
            r == (self.has_value(v) && self.cx.graph.types.is_pointer(self.type_of(v))),
    {
        if !self.holds_value(v) {
            return false;
        }
        let t = self.val_ty(v);
        self.is_pointer(t)
    }

    /// Whether `t` is a pointer type or an array type.
    pub open spec fn indexable(&self, t: Type) -> bool {
        self.cx.graph.types.is_pointer(t) || self.cx.graph.types.shape(t) is Array
    }

    pub fn is_indexable(&self, t: Type) -> (r: bool)
        requires
            self.wf(),
            self.has_type(t),
        ensures
            r == self.indexable(t),
    {
        match self.shape_of(t) {
            TypeKind::Pointer { .. } => true,
            TypeKind::Array { .. } => true,
            _ => false,
        }
    }

    /// Whether `t` is a struct type that has a field `field`.
    pub fn is_field(&self, t: Type, field: usize) -> (r: bool)
        requires
            self.wf(),
            self.has_type(t),
        ensures
            r == self.cx.graph.has_field(t, field),
    {
        match self.shape_of(t) {
            TypeKind::Struct { index } => field < self.cx.graph.types.structs[index].fields.len(),
            _ => false,
        }
    }

    /// The type that the pointer type `t` points to.
    pub fn pointee(&self, t: Type) -> (r: Option<Type>)
        requires
            self.wf(),
            self.has_type(t),
        ensures
            r is Some <==> self.cx.graph.types.is_pointer(t),
            r is Some ==> r.unwrap() == self.cx.graph.types.pointee(t) && self.has_type(r.unwrap()),
    {
        proof {
            self.lemma_wf();
        }
        self.cx.graph.types.get_pointee(t)
    }
}

impl Builder {
    /// What a store of `val` through `ptr` asks.
    pub open spec fn can_store(&self, val: RValue, ptr: RValue) -> bool {
        &&& self.ready()
        &&& self.has_value(val)
        &&& self.has_value(ptr)
        &&& self.type_of(ptr) == self.type_of(val) ==> self.cx.graph.types.is_pointer(
            self.type_of(ptr),
        )
    }

    pub fn admits_store(&self, val: RValue, ptr: RValue) -> (r: bool)
        requires
            self.wf(),
        ensures
            r == self.can_store(val, ptr),
    {
        if !self.is_ready() || !self.holds_value(val) || !self.holds_value(ptr) {
            return false;
        }
        let pt = self.val_ty(ptr);
        let vt = self.val_ty(val);
        pt != vt || self.is_pointer(pt)
    }

    /// What an address computation from `ptr` with `indices` asks.
    pub open spec fn can_index(&self, ptr: RValue, indices: Seq<RValue>) -> bool {
        &&& self.has_value(ptr)
        &&& forall|k: int| 0 <= k < indices.len() ==> self.has_value(#[trigger] indices[k])
        &&& indices.len() > 0 ==> self.indexable(self.type_of(ptr))
    }

    pub fn admits_gep(&self, ptr: RValue, indices: &[RValue]) -> (r: bool)
        requires
            self.wf(),
        ensures
            r == self.can_index(ptr, indices@),
    {
        if !self.holds_value(ptr) || !self.holds_values(indices) {
            return false;
        }
        if indices.len() == 0 {
            return true;
        }
        let t = self.val_ty(ptr);
        self.is_indexable(t)
    }

    /// What an address computation within an object asks: one index into
    /// what `ptr` points into, or two, the second into what `ptr` points
    /// to.
    pub open spec fn can_index_within(&self, ptr: RValue, indices: Seq<RValue>) -> bool {
        &&& self.has_value(ptr)
        &&& indices.len() == 1 || indices.len() == 2
        &&& forall|k: int| 0 <= k < indices.len() ==> self.has_value(#[trigger] indices[k])
        &&& indices.len() == 1 ==> self.indexable(self.type_of(ptr))
        &&& indices.len() == 2 ==> self.cx.graph.types.is_pointer(self.type_of(ptr))
            && self.indexable(self.pointee_of(ptr))
    }

    pub fn admits_inbounds_gep(&self, ptr: RValue, indices: &[RValue]) -> (r: bool)
        requires
            self.wf(),
        ensures
            r == self.can_index_within(ptr, indices@),
    {
        if !self.holds_value(ptr) || !self.holds_values(indices) {
            return false;
        }
        let t = self.val_ty(ptr);
        if indices.len() == 1 {
            self.is_indexable(t)
        } else if indices.len() == 2 {
            match self.pointee(t) {
                Some(p) => self.is_indexable(p),
                None => false,
            }
        } else {
            false
        }
    }

    /// What the address of member `idx` of the aggregate of type
    /// `value_type` that `ptr` points to asks.
    pub open spec fn can_address_member(&self, value_type: Type, ptr: RValue, idx: u64) -> bool {
        &&& self.has_value(ptr)
        &&& self.has_type(value_type)
        &&& self.cx.graph.types.is_pointer(self.type_of(ptr))
        &&& idx <= usize::MAX
        &&& match self.cx.graph.types.shape(value_type) {
            TypeKind::Array { .. } => idx <= i64::MAX && self.indexable(self.pointee_of(ptr)),
            TypeKind::Vector { .. } => idx <= i64::MAX,
            TypeKind::Struct { .. } => self.cx.graph.has_field(self.pointee_of(ptr), idx as usize),
            _ => false,
        }
    }

    pub fn admits_struct_gep(&self, value_type: Type, ptr: RValue, idx: u64) -> (r: bool)
        requires
            self.wf(),
        ensures
            r == self.can_address_member(value_type, ptr, idx),
    {
        if !self.holds_value(ptr) || !self.holds_type(value_type) || idx > usize::MAX as u64 {
            return false;
        }
        let t = self.val_ty(ptr);
        match self.pointee(t) {
            Some(p) => match self.shape_of(value_type) {
                TypeKind::Array { .. } => idx <= i64::MAX as u64 && self.is_indexable(p),
                TypeKind::Vector { .. } => idx <= i64::MAX as u64,
                TypeKind::Struct { .. } => self.is_field(p, idx as usize),
                _ => false,
            },
            None => false,
        }
    }

    /// What the extraction of member `idx` of `aggregate` asks.
    pub open spec fn can_extract(&self, aggregate: RValue, idx: u64) -> bool {
        let t = self.type_of(aggregate);
        &&& self.has_value(aggregate)
        &&& idx <= usize::MAX
        &&& if self.is_array_value(t) {
            idx <= i64::MAX
        } else {
            !self.cx.graph.types.is_vector_type(t) && (self.is_struct_pointer(t, idx) || (
            !self.cx.graph.types.is_pointer(t) && self.is_struct_value(t, idx)))
        }
    }

    pub fn admits_extract_value(&self, aggregate: RValue, idx: u64) -> (r: bool)
        requires
            self.wf(),
        ensures
            r == self.can_extract(aggregate, idx),
    {
        if !self.holds_value(aggregate) || idx > usize::MAX as u64 {
            return false;
        }
        let t = self.val_ty(aggregate);
        match self.shape_of(t) {
            TypeKind::Array { .. } => idx <= i64::MAX as u64,
            TypeKind::Vector { .. } => false,
            TypeKind::Pointer { pointee } => {
                proof {
                    self.lemma_wf();
                    self.cx.graph.types.lemma_pointee_held(t);
                }
                self.is_field(pointee, idx as usize)
            },
            _ => self.is_field(t, idx as usize),
        }
    }

    /// What the insertion of `value` as member `idx` of `aggregate` asks:
    /// an array, a pointer to a struct, or a struct that is held in
    /// storage, there being nothing to assign to in a struct that is not.
    pub open spec fn can_insert(&self, aggregate: RValue, value: RValue, idx: u64) -> bool {
        let t = self.type_of(aggregate);
        &&& self.ready()
        &&& self.has_value(aggregate)
        &&& self.has_value(value)
        &&& idx <= usize::MAX
        &&& if self.is_array_value(t) {
            idx <= i64::MAX
        } else {
            !self.cx.graph.types.is_vector_type(t) && (self.is_struct_pointer(t, idx) || (
            !self.cx.graph.types.is_pointer(t) && self.is_struct_value(t, idx)
                && self.cx.graph.kind_of(aggregate).is_storage()))
        }
    }

    pub fn admits_insert_value(&self, aggregate: RValue, value: RValue, idx: u64) -> (r: bool)
        requires
            self.wf(),
        ensures
            r == self.can_insert(aggregate, value, idx),
    {
        if !self.is_ready() || !self.holds_value(aggregate) || !self.holds_value(value) || idx
            > usize::MAX as u64 {
            return false;
        }
        let t = self.val_ty(aggregate);
        match self.shape_of(t) {
            TypeKind::Array { .. } => idx <= i64::MAX as u64,
            TypeKind::Vector { .. } => false,
            TypeKind::Pointer { pointee } => {
                proof {
                    self.lemma_wf();
                    self.cx.graph.types.lemma_pointee_held(t);
                }
                self.is_field(pointee, idx as usize)
            },
            _ => self.is_field(t, idx as usize) && self.cx.graph.as_lvalue(aggregate).is_some(),
        }
    }

    /// What a shuffle of `v1` and `v2` by `mask` asks.
    pub open spec fn can_shuffle(&self, v1: RValue, v2: RValue, mask: RValue) -> bool {
        &&& self.has_value(v1)
        &&& self.has_value(v2)
        &&& self.has_value(mask)
        &&& self.cx.graph.types.shape(self.type_of(mask)) is Struct
        &&& self.cx.graph.types.is_vector_type(self.type_of(v1))
        &&& self.unit_count(v1) <= usize::MAX
    }

    pub fn admits_shuffle_vector(&self, v1: RValue, v2: RValue, mask: RValue) -> (r: bool)
        requires
            self.wf(),
        ensures
            r == self.can_shuffle(v1, v2, mask),
    {
        if !self.holds_value(v1) || !self.holds_value(v2) || !self.holds_value(mask) {
            return false;
        }
        let m = self.val_ty(mask);
        let v = self.val_ty(v1);
        let is_struct = match self.shape_of(m) {
            TypeKind::Struct { .. } => true,
            _ => false,
        };
        match self.shape_of(v) {
            TypeKind::Vector { len, .. } => is_struct && len <= usize::MAX as u64,
            _ => false,
        }
    }

    /// What a floating remainder of `a` and `b` asks.
    pub open spec fn can_take_remainder(&self, a: RValue, b: RValue) -> bool {
        &&& self.has_value(a)
        &&& self.has_value(b)
        &&& self.cx.graph.types.compatible(self.type_of(a), self.cx.float_type)
            || self.cx.graph.types.strip(self.type_of(a)) == self.cx.double_type
    }

    pub fn admits_frem(&self, a: RValue, b: RValue) -> (r: bool)
        requires
            self.wf(),
        ensures
            r == self.can_take_remainder(a, b),
    {
        if !self.holds_value(a) || !self.holds_value(b) {
            return false;
        }
        proof {
            self.lemma_wf();
        }
        let t = self.val_ty(a);
        let float_type = self.cx.float_type;
        self.cx.graph.types.is_compatible_with(t, float_type) || self.cx.graph.types.unqualified(t)
            == self.cx.double_type
    }
}

impl Builder {
    /// Whether the arguments `args` of a call through `func_ptr` can be
    /// fitted to the parameters of its signature.
    pub(crate) fn fits_pointer_call(&self, func_ptr: RValue, args: &[RValue]) -> (r: bool)
        requires
            self.wf(),
            self.has_value(func_ptr),
            self.cx.graph.types.shape(self.type_of(func_ptr)) is FunctionPtr,
            forall|k: int| 0 <= k < args@.len() ==> self.has_value(#[trigger] args@[k]),
        ensures
            r == self.ptr_args_ok(func_ptr, args@),
    {
        let (signature, count) = self.pointer_signature(func_ptr);
        let n = if count <= args.len() {
            count
        } else {
            args.len()
        };
        let ghost params = self.cx.graph.pointer_params(self.type_of(func_ptr));
        let mut k: usize = 0;
        while k < n
            invariant
                self.wf(),
                k <= n,
                n == shorter(params.len() as int, args@.len() as int),
                params == self.cx.graph.pointer_params(self.type_of(func_ptr)),
                params == self.cx.graph.types.signatures@[signature as int].params@,
                signature == self.signature_of(func_ptr),
                signature < self.cx.graph.types.signatures@.len(),
                forall|j: int| 0 <= j < args@.len() ==> self.has_value(#[trigger] args@[j]),
                forall|j: int|
                    0 <= j < k ==> #[trigger] self.ptr_fit_ok(signature, params[j], args@[j], j),
            decreases n - k,
        {
            let expected = self.signature_param(signature, k);
            let actual = self.val_ty(args[k]);
            if expected != actual && !self.is_numeric_fit(expected, actual) {
                let ok = if self.cx.is_on_stack(signature, k) {
                    self.is_pointer(actual)
                } else {
                    self.is_vector(actual) == self.is_vector(expected)
                };
                if !ok {
                    proof {
                        assert(!self.ptr_fit_ok(signature, params[k as int], args@[k as int], k as int));
                    }
                    return false;
                }
            }
            proof {
                assert(self.ptr_fit_ok(signature, params[k as int], args@[k as int], k as int));
            }
            k = k + 1;
        }
        true
    }

    /// The type of what a call of `func` returns: the return type of the
    /// routine it is the address of where that routine has been defined,
    /// else that of the signature of its function-pointer type.
    pub open spec fn result_type(&self, func: RValue) -> Type {
        if self.calls_defined(func) {
            self.cx.graph.return_type(self.callee(func))
        } else {
            self.cx.graph.pointer_return_type(self.type_of(func))
        }
    }

    /// What a call of `func` on `args` asks. A result temporary is counted
    /// only where the call returns a value.
    pub open spec fn can_call(&self, func: RValue, args: Seq<RValue>) -> bool {
        &&& self.ready()
        &&& self.has_value(func)
        &&& forall|k: int| 0 <= k < args.len() ==> self.has_value(#[trigger] args[k])
        &&& self.result_type(func) != self.cx.void_type ==> self.cx.return_value_count
            < usize::MAX
        &&& !self.calls_defined(func) ==> self.cx.graph.types.shape(self.type_of(func))
            is FunctionPtr && self.ptr_args_ok(func, args)
    }

    pub fn admits_call(&self, func: RValue, args: &[RValue]) -> (r: bool)
        requires
            self.wf(),
        ensures
            r == self.can_call(func, args@),
    {
        if !self.is_ready() || !self.holds_value(func) || !self.holds_values(args) {
            return false;
        }
        proof {
            self.lemma_wf();
        }
        let void_type = self.cx.void_type;
        let counted = self.cx.return_value_count < usize::MAX;
        match self.as_function(func) {
            Some(f) => if self.cx.is_registered(f) {
                return counted || self.return_type(f) == void_type;
            },
            None => {},
        }
        let t = self.val_ty(func);
        match self.shape_of(t) {
            TypeKind::FunctionPtr { .. } => {
                let (signature, _) = self.pointer_signature(func);
                (counted || self.signature_return(signature) == void_type)
                    && self.fits_pointer_call(func, args)
            },
            _ => false,
        }
    }

    pub fn admits_load_operand(&self, place: PlaceRef) -> (r: bool)
        requires
            self.wf(),
        ensures
            r == (self.ready() && self.can_load(place)),
    {
        if !self.is_ready() || place.llextra.is_some() != place.layout.is_unsized()
            || !self.holds_value(place.llval) || !self.holds_type(place.layout.gcc_type) {
            return false;
        }
        if place.layout.is_zst() || place.llextra.is_some() {
            return true;
        }
        let t = self.val_ty(place.llval);
        if place.layout.is_gcc_immediate() {
            self.is_pointer(t) && self.cx.return_value_count < usize::MAX
        } else {
            match place.layout.abi {
                Abi::ScalarPair { .. } => {
                    let is_struct = match self.shape_of(place.layout.gcc_type) {
                        TypeKind::Struct { .. } => true,
                        _ => false,
                    };
                    match self.pointee(t) {
                        Some(p) => is_struct && self.is_field(p, 0) && self.is_field(p, 1)
                            && self.cx.return_value_count < usize::MAX - 1,
                        None => false,
                    }
                },
                _ => true,
            }
        }
    }

    pub fn admits_write_repeatedly(&self, cg_elem: OperandRef, dest: PlaceRef) -> (r: bool)
        requires
            self.wf(),
        ensures
            r == self.can_write_repeatedly(cg_elem, dest),
    {
        if !self.is_ready() || !self.holds_value(dest.llval) {
            return false;
        }
        let t = self.val_ty(dest.llval);
        let elem = match self.pointee(t) {
            Some(p) => match self.shape_of(p) {
                TypeKind::Pointer { pointee } => pointee,
                TypeKind::Array { element, .. } => element,
                _ => {
                    return false;
                },
            },
            None => {
                return false;
            },
        };
        match cg_elem.val {
            OperandValue::ZeroSized => true,
            OperandValue::Ref { ptr, extra, .. } => extra.is_none() && self.holds_value(ptr),
            OperandValue::Immediate { value } => self.holds_value(value),
            OperandValue::Pair { first, second } => {
                let pair = match cg_elem.layout.abi {
                    Abi::ScalarPair { .. } => true,
                    _ => false,
                };
                pair && self.holds_value(first) && self.holds_value(second) && self.holds_type(
                    cg_elem.layout.gcc_type,
                ) && self.holds_type(elem) && self.is_struct_type(cg_elem.layout.gcc_type)
                    && self.is_field(elem, 0) && self.is_field(elem, 1)
            },
        }
    }

    /// Whether `t` is a struct type.
    pub fn is_struct_type(&self, t: Type) -> (r: bool)
        requires
            self.wf(),
            self.has_type(t),
        ensures
            r == self.cx.graph.types.shape(t) is Struct,
    {
        match self.shape_of(t) {
            TypeKind::Struct { .. } => true,
            _ => false,
        }
    }

    pub fn admits_store_operand(&self, val: OperandValue, dest: PlaceRef) -> (r: bool)
        requires
            self.wf(),
        ensures
            r == self.can_store_operand(val, dest),
    {
        if !self.is_ready() || !self.holds_value(dest.llval) {
            return false;
        }
        match val {
            OperandValue::ZeroSized => true,
            OperandValue::Ref { ptr, extra, .. } => extra.is_none() && self.holds_value(ptr),
            OperandValue::Immediate { value } => self.admits_store(value, dest.llval),
            OperandValue::Pair { first, second } => {
                let pair = match dest.layout.abi {
                    Abi::ScalarPair { .. } => true,
                    _ => false,
                };
                if !pair || !self.holds_value(first) || !self.holds_value(second)
                    || !self.holds_type(dest.layout.gcc_type) {
                    return false;
                }
                let t = self.val_ty(dest.llval);
                match self.pointee(t) {
                    Some(p) => self.is_struct_type(dest.layout.gcc_type) && self.is_field(p, 0)
                        && self.is_field(p, 1),
                    None => false,
                }
            },
        }
    }
}

} // verus!
