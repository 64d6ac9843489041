//! The lowering context of one compilation: the program graph under
//! construction, the handles of the common types, and what the surrounding
//! compiler has registered about routines and values.

use vstd::prelude::*;
use rustc_data_structures::fx::FxHashMap;
use rustc_data_structures::stable_set::FxHashSet;
use crate::builtins::Prim;
use crate::fx::{
    handles_contains, handles_insert, handles_new, sets_get, sets_insert, sets_new, sets_remove,
};
use crate::graph::{Function, Graph, LValue, NodeKind, RValue};
use crate::types::{int_width, Type, TypeKind};

verus! {

pub struct CodegenCx {
    pub graph: Graph,
    pub void_type: Type,
    pub bool_type: Type,
    pub i8_type: Type,
    pub i16_type: Type,
    pub i32_type: Type,
    pub i64_type: Type,
    pub i128_type: Type,
    pub isize_type: Type,
    pub u8_type: Type,
    pub u16_type: Type,
    pub u32_type: Type,
    pub u64_type: Type,
    pub u128_type: Type,
    pub usize_type: Type,
    pub int_type: Type,
    pub float_type: Type,
    pub double_type: Type,
    /// Routines that have been defined, by handle.
    pub functions: FxHashSet<usize>,
    /// Under the signature of a function-pointer type, the parameters
    /// that are passed on the stack: the declared parameter is then what
    /// the argument points to.
    pub on_stack_params: FxHashMap<usize, FxHashSet<usize>>,
    /// Values that stand for a struct but are pointers to it.
    pub structs_as_pointer: FxHashSet<usize>,
    /// Loaded values known to be addresses of ordinary routines.
    pub normal_function_addresses: FxHashSet<usize>,
    /// Storage of the statics declared so far.
    pub statics: Vec<LValue>,
    /// Number of result temporaries made so far; gives them distinct names.
    pub return_value_count: usize,
}

impl CodegenCx {
    pub open spec fn int_type_ok(&self, t: Type, bytes: u8, signed: bool) -> bool {
        self.graph.types.has(t) && self.graph.types.kind(t) == (TypeKind::Int { bytes, signed })
    }

    /// The handles of the common types stand for those types.
    pub open spec fn types_ok(&self) -> bool {
        &&& self.graph.types.is_prim(self.void_type, Prim::Void)
        &&& self.graph.types.is_prim(self.bool_type, Prim::Bool)
        &&& self.int_type_ok(self.i8_type, 1, true)
        &&& self.int_type_ok(self.i16_type, 2, true)
        &&& self.int_type_ok(self.i32_type, 4, true)
        &&& self.int_type_ok(self.i64_type, 8, true)
        &&& self.int_type_ok(self.i128_type, 16, true)
        &&& self.int_type_ok(self.isize_type, self.graph.types.pointer_bytes, true)
        &&& self.int_type_ok(self.u8_type, 1, false)
        &&& self.int_type_ok(self.u16_type, 2, false)
        &&& self.int_type_ok(self.u32_type, 4, false)
        &&& self.int_type_ok(self.u64_type, 8, false)
        &&& self.int_type_ok(self.u128_type, 16, false)
        &&& self.int_type_ok(self.usize_type, self.graph.types.pointer_bytes, false)
        &&& self.int_type_ok(self.int_type, 4, true)
        &&& self.graph.types.is_prim(self.float_type, Prim::Float)
        &&& self.graph.types.is_prim(self.double_type, Prim::Double)
    }

    pub open spec fn registered(&self, f: Function) -> bool {
        self.functions@.contains(f.id)
    }

    pub open spec fn struct_as_pointer(&self, v: RValue) -> bool {
        self.structs_as_pointer@.contains(v.id)
    }

    /// What has been registered refers to entries of the graph.
    pub open spec fn registries_ok(&self) -> bool {
        &&& forall|f: usize| #[trigger] self.functions@.contains(f) ==> f < self.graph.functions@.len()
        &&& forall|v: usize| #[trigger]
            self.structs_as_pointer@.contains(v) ==> v < self.graph.nodes@.len()
                && self.graph.types.is_pointer(self.graph.nodes@[v as int].ty)
        &&& forall|v: usize| #[trigger]
            self.normal_function_addresses@.contains(v) ==> v < self.graph.nodes@.len()
        &&& forall|k: int|
            0 <= k < self.statics@.len() ==> self.graph.has_storage(#[trigger] self.statics@[k])
    }

    pub open spec fn wf(&self) -> bool {
        &&& self.graph.wf()
        &&& self.types_ok()
        &&& self.registries_ok()
    }

    /// Everything but the graph and the counter of temporaries is as in
    /// `self`.
    pub open spec fn same_registries(&self, later: &CodegenCx) -> bool {
        &&& self.void_type == later.void_type
        &&& self.bool_type == later.bool_type
        &&& self.i8_type == later.i8_type
        &&& self.i16_type == later.i16_type
        &&& self.i32_type == later.i32_type
        &&& self.i64_type == later.i64_type
        &&& self.i128_type == later.i128_type
        &&& self.isize_type == later.isize_type
        &&& self.u8_type == later.u8_type
        &&& self.u16_type == later.u16_type
        &&& self.u32_type == later.u32_type
        &&& self.u64_type == later.u64_type
        &&& self.u128_type == later.u128_type
        &&& self.usize_type == later.usize_type
        &&& self.int_type == later.int_type
        &&& self.float_type == later.float_type
        &&& self.double_type == later.double_type
        &&& self.functions@ == later.functions@
        &&& self.on_stack_params@ == later.on_stack_params@
        &&& self.structs_as_pointer@ == later.structs_as_pointer@
        &&& self.normal_function_addresses@ == later.normal_function_addresses@
        &&& self.statics@ == later.statics@
    }

    /// A context whose graph grew is still well formed.
    pub proof fn lemma_grown(&self, later: &CodegenCx)
        requires
            self.wf(),
            later.graph.wf(),
            self.graph.extended_by(&later.graph),
            self.same_registries(later),
        ensures
            later.wf(),
    {
        assert(later.types_ok());
        assert forall|v: usize| #[trigger] later.structs_as_pointer@.contains(v) implies v
            < later.graph.nodes@.len() && later.graph.types.is_pointer(
            later.graph.nodes@[v as int].ty,
        ) by {
            assert(self.structs_as_pointer@.contains(v));
            assert(self.graph.node_ok(v as int));
            assert(later.graph.nodes@[v as int] == self.graph.nodes@[v as int]);
            self.graph.types.lemma_strip_extended(&later.graph.types, self.graph.nodes@[v as int].ty);
        }
        assert forall|k: int| 0 <= k < later.statics@.len() implies later.graph.has_storage(
            #[trigger] later.statics@[k],
        ) by {
            let l = self.statics@[k];
            assert(self.graph.has_storage(l));
            assert(later.graph.nodes@[l.id as int] == self.graph.nodes@[l.id as int]);
        }
    }
}

impl CodegenCx {
    /// A context with an empty graph for a target whose pointers take
    /// `pointer_bytes` bytes.
    #[verifier::rlimit(100)]
    #[verifier::spinoff_prover]
    pub fn new(pointer_bytes: u8) -> (cx: CodegenCx)
        requires
            int_width(pointer_bytes),
        ensures
            cx.wf(),
            cx.graph.types.pointer_bytes == pointer_bytes,
            cx.graph.nodes@.len() == 0,
            cx.graph.vars@.len() == 0,
            cx.graph.functions@.len() == 0,
            cx.graph.blocks@.len() == 0,
            cx.functions@ == Set::<usize>::empty(),
            cx.structs_as_pointer@ == Set::<usize>::empty(),
            cx.normal_function_addresses@ == Set::<usize>::empty(),
            cx.on_stack_params@.dom() == Set::<usize>::empty(),
            cx.statics@.len() == 0,
            cx.return_value_count == 0,
    {
        let mut graph = Graph::new(pointer_bytes);
        let void_type = graph.prim(Prim::Void);
        let bool_type = graph.prim(Prim::Bool);
        let i8_type = graph.new_int_type(1, true);
        let i16_type = graph.new_int_type(2, true);
        let i32_type = graph.new_int_type(4, true);
        let i64_type = graph.new_int_type(8, true);
        let i128_type = graph.new_int_type(16, true);
        let isize_type = graph.new_int_type(pointer_bytes, true);
        let u8_type = graph.new_int_type(1, false);
        let u16_type = graph.new_int_type(2, false);
        let u32_type = graph.new_int_type(4, false);
        let u64_type = graph.new_int_type(8, false);
        let u128_type = graph.new_int_type(16, false);
        let usize_type = graph.new_int_type(pointer_bytes, false);
        let int_type = graph.new_int_type(4, true);
        let float_type = graph.prim(Prim::Float);
        let double_type = graph.prim(Prim::Double);
        CodegenCx {
            graph,
            void_type,
            bool_type,
            i8_type,
            i16_type,
            i32_type,
            i64_type,
            i128_type,
            isize_type,
            u8_type,
            u16_type,
            u32_type,
            u64_type,
            u128_type,
            usize_type,
            int_type,
            float_type,
            double_type,
            functions: handles_new(),
            on_stack_params: sets_new(),
            structs_as_pointer: handles_new(),
            normal_function_addresses: handles_new(),
            statics: Vec::new(),
            return_value_count: 0,
        }
    }

    /// Records that the routine `f` has been defined.
    pub fn register_function(&mut self, f: Function)
        requires
            old(self).wf(),
            old(self).graph.has_function(f),
        ensures
            final(self).wf(),
            final(self).functions@ == old(self).functions@.insert(f.id),
            final(self).graph == old(self).graph,
            final(self).structs_as_pointer@ == old(self).structs_as_pointer@,
            final(self).normal_function_addresses@ == old(self).normal_function_addresses@,
            final(self).on_stack_params@ == old(self).on_stack_params@,
            final(self).statics@ == old(self).statics@,
            final(self).return_value_count == old(self).return_value_count,
    {
        handles_insert(&mut self.functions, f.id);
    }

    /// Whether the routine `f` has been defined.
    pub fn is_registered(&self, f: Function) -> (r: bool)
        ensures
            r == self.registered(f),
    {
        handles_contains(&self.functions, f.id)
    }

    /// Records that the pointer `v` stands for the struct it points to.
    pub fn mark_struct_as_pointer(&mut self, v: RValue)
        requires
            old(self).wf(),
            old(self).graph.has_value(v),
            old(self).graph.types.is_pointer(old(self).graph.type_of(v)),
        ensures
            final(self).wf(),
            final(self).structs_as_pointer@ == old(self).structs_as_pointer@.insert(v.id),
            final(self).graph == old(self).graph,
            final(self).functions@ == old(self).functions@,
            final(self).normal_function_addresses@ == old(self).normal_function_addresses@,
            final(self).on_stack_params@ == old(self).on_stack_params@,
            final(self).statics@ == old(self).statics@,
            final(self).return_value_count == old(self).return_value_count,
    {
        handles_insert(&mut self.structs_as_pointer, v.id);
    }

    /// Whether the value stands for a struct but is a pointer to it.
    pub fn is_struct_as_pointer(&self, v: RValue) -> (r: bool)
        ensures
            r == self.struct_as_pointer(v),
    {
        handles_contains(&self.structs_as_pointer, v.id)
    }

    /// Whether parameter `index` of the signature `signature` is passed on
    /// the stack.
    pub open spec fn on_stack(&self, signature: usize, index: usize) -> bool {
        self.on_stack_params@.contains_key(signature) && self.on_stack_params@[signature]@.contains(
            index,
        )
    }

    /// Records that parameter `index` of the signature `signature` is
    /// passed on the stack.
    pub fn mark_on_stack(&mut self, signature: usize, index: usize)
        requires
            old(self).wf(),
        ensures
            final(self).wf(),
            final(self).on_stack(signature, index),
            forall|s: usize, i: usize|
                final(self).on_stack(s, i) <==> old(self).on_stack(s, i) || (s == signature && i
                    == index),
            final(self).graph == old(self).graph,
            final(self).functions@ == old(self).functions@,
            final(self).structs_as_pointer@ == old(self).structs_as_pointer@,
            final(self).normal_function_addresses@ == old(self).normal_function_addresses@,
            final(self).statics@ == old(self).statics@,
            final(self).return_value_count == old(self).return_value_count,
    {
        let mut indices = match sets_remove(&mut self.on_stack_params, signature) {
            Some(held) => held,
            None => handles_new(),
        };
        handles_insert(&mut indices, index);
        sets_insert(&mut self.on_stack_params, signature, indices);
        proof {
            assert forall|s: usize, i: usize|
                self.on_stack(s, i) <==> old(self).on_stack(s, i) || (s == signature && i
                    == index) by {
                if s != signature {
                    assert(self.on_stack_params@.contains_key(s) == old(
                        self,
                    ).on_stack_params@.contains_key(s));
                }
            }
        }
    }

    /// Whether parameter `index` of the signature `signature` is passed on
    /// the stack.
    pub fn is_on_stack(&self, signature: usize, index: usize) -> (r: bool)
        ensures
            r == self.on_stack(signature, index),
    {
        match sets_get(&self.on_stack_params, signature) {
            Some(indices) => handles_contains(indices, index),
            None => false,
        }
    }

    /// Records that the loaded value `v` is the address of an ordinary
    /// routine.
    pub fn record_function_address(&mut self, v: RValue)
        requires
            old(self).wf(),
            old(self).graph.has_value(v),
        ensures
            final(self).wf(),
            final(self).normal_function_addresses@ == old(self).normal_function_addresses@.insert(v.id),
            final(self).graph == old(self).graph,
            final(self).functions@ == old(self).functions@,
            final(self).structs_as_pointer@ == old(self).structs_as_pointer@,
            final(self).on_stack_params@ == old(self).on_stack_params@,
            final(self).statics@ == old(self).statics@,
            final(self).return_value_count == old(self).return_value_count,
    {
        handles_insert(&mut self.normal_function_addresses, v.id);
    }

    /// Records the storage of a static; the result is the index it can be
    /// asked for by.
    pub fn declare_static(&mut self, storage: LValue) -> (index: usize)
        requires
            old(self).wf(),
            old(self).graph.has_storage(storage),
        ensures
            final(self).wf(),
            index == old(self).statics@.len(),
            final(self).statics@ == old(self).statics@.push(storage),
            final(self).graph == old(self).graph,
            final(self).functions@ == old(self).functions@,
            final(self).structs_as_pointer@ == old(self).structs_as_pointer@,
            final(self).normal_function_addresses@ == old(self).normal_function_addresses@,
            final(self).on_stack_params@ == old(self).on_stack_params@,
            final(self).return_value_count == old(self).return_value_count,
    {
        let index = self.statics.len();
        self.statics.push(storage);
        index
    }

    /// Type of a value.
    pub fn val_ty(&self, v: RValue) -> (t: Type)
        requires
            self.wf(),
            self.graph.has_value(v),
        ensures
            t == self.graph.type_of(v),
            self.graph.types.has(t),
    {
        self.graph.get_type(v)
    }

    /// The routine a value is the address of.
    pub fn rvalue_as_function(&self, v: RValue) -> (r: Option<Function>)
        requires
            self.wf(),
            self.graph.has_value(v),
        ensures
            r is Some <==> self.graph.kind_of(v) is FunctionAddress,
            r is Some ==> self.graph.kind_of(v) == (NodeKind::FunctionAddress { func: r.unwrap() })
                && self.graph.has_function(r.unwrap()),
    {
        proof {
            assert(self.graph.node_ok(v.id as int));
        }
        match self.graph.get_kind(v) {
            NodeKind::FunctionAddress { func } => Some(func),
            _ => None,
        }
    }
}

} // verus!
