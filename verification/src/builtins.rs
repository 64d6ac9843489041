//! The primitive routines of the target runtime that lowering calls, with
//! the parameter and return types they are declared with.

use vstd::prelude::*;
use crate::graph::{Builtin, Function, FunctionDef, Graph};
use crate::naming::{decimal, numbered};
use crate::ops::{FetchOp, OverflowOp};
use crate::types::{int_width, prefix_of, Type, TypeKind, TypeTable};

verus! {

/// A type that a builtin's declaration mentions.
#[derive(Clone, Copy, PartialEq, Eq, Structural, Debug)]
pub enum Prim {
    Void,
    Bool,
    /// The C `int`.
    Int,
    /// The unsigned integer of the given width.
    UInt { bytes: u8 },
    /// The unsigned integer as wide as a pointer.
    Size,
    Float,
    Double,
    VoidPtr,
    ConstVoidPtr,
    VolatileVoidPtr,
    ConstVolatileVoidPtr,
}

impl Builtin {
    /// The builtin exists: a sized builtin only for the widths of the
    /// integer types.
    pub open spec fn known(self) -> bool {
        match self {
            Builtin::AtomicLoad { bytes } => int_width(bytes),
            Builtin::AtomicStore { bytes } => int_width(bytes),
            Builtin::AtomicCompareExchange { bytes } => int_width(bytes),
            Builtin::AtomicFetch { bytes, .. } => int_width(bytes),
            _ => true,
        }
    }

    /// Declared parameter types. The overflow builtins take operands of any
    /// integer type and declare none.
    pub open spec fn params(self) -> Seq<Prim> {
        match self {
            Builtin::AtomicLoad { .. } => seq![Prim::ConstVolatileVoidPtr, Prim::Int],
            Builtin::AtomicStore { bytes } => seq![
                Prim::VolatileVoidPtr,
                Prim::UInt { bytes },
                Prim::Int,
            ],
            Builtin::AtomicCompareExchange { bytes } => seq![
                Prim::VolatileVoidPtr,
                Prim::VoidPtr,
                Prim::UInt { bytes },
                Prim::Bool,
                Prim::Int,
                Prim::Int,
            ],
            Builtin::AtomicFetch { bytes, .. } => seq![
                Prim::VolatileVoidPtr,
                Prim::UInt { bytes },
                Prim::Int,
            ],
            Builtin::AtomicThreadFence => seq![Prim::Int],
            Builtin::AtomicSignalFence => seq![Prim::Int],
            Builtin::Memcpy => seq![Prim::VoidPtr, Prim::ConstVoidPtr, Prim::Size],
            Builtin::Memmove => seq![Prim::VoidPtr, Prim::ConstVoidPtr, Prim::Size],
            Builtin::Memset => seq![Prim::VoidPtr, Prim::Int, Prim::Size],
            Builtin::Unreachable => seq![],
            Builtin::Fmodf => seq![Prim::Float, Prim::Float],
            Builtin::Fmod => seq![Prim::Double, Prim::Double],
            Builtin::Overflow { .. } => seq![],
        }
    }

    /// Declared return type.
    pub open spec fn ret(self) -> Prim {
        match self {
            Builtin::AtomicLoad { bytes } => Prim::UInt { bytes },
            Builtin::AtomicStore { .. } => Prim::Void,
            Builtin::AtomicCompareExchange { .. } => Prim::Bool,
            Builtin::AtomicFetch { bytes, .. } => Prim::UInt { bytes },
            Builtin::AtomicThreadFence => Prim::Void,
            Builtin::AtomicSignalFence => Prim::Void,
            Builtin::Memcpy => Prim::VoidPtr,
            Builtin::Memmove => Prim::VoidPtr,
            Builtin::Memset => Prim::VoidPtr,
            Builtin::Unreachable => Prim::Void,
            Builtin::Fmodf => Prim::Float,
            Builtin::Fmod => Prim::Double,
            Builtin::Overflow { .. } => Prim::Bool,
        }
    }

    /// The name the target runtime knows the builtin by.
    pub open spec fn name(self) -> Seq<char> {
        match self {
            Builtin::AtomicLoad { bytes } => "__atomic_load_"@ + decimal(bytes as nat),
            Builtin::AtomicStore { bytes } => "__atomic_store_"@ + decimal(bytes as nat),
            Builtin::AtomicCompareExchange { bytes } => "__atomic_compare_exchange_"@ + decimal(
                bytes as nat,
            ),
            Builtin::AtomicFetch { op, bytes } => match op {
                FetchOp::Exchange => "__atomic_exchange_"@ + decimal(bytes as nat),
                FetchOp::Add => "__atomic_fetch_add_"@ + decimal(bytes as nat),
                FetchOp::Sub => "__atomic_fetch_sub_"@ + decimal(bytes as nat),
                FetchOp::And => "__atomic_fetch_and_"@ + decimal(bytes as nat),
                FetchOp::Nand => "__atomic_fetch_nand_"@ + decimal(bytes as nat),
                FetchOp::Or => "__atomic_fetch_or_"@ + decimal(bytes as nat),
                FetchOp::Xor => "__atomic_fetch_xor_"@ + decimal(bytes as nat),
            },
            Builtin::AtomicThreadFence => "__atomic_thread_fence"@,
            Builtin::AtomicSignalFence => "__atomic_signal_fence"@,
            Builtin::Memcpy => "memcpy"@,
            Builtin::Memmove => "memmove"@,
            Builtin::Memset => "memset"@,
            Builtin::Unreachable => "__builtin_unreachable"@,
            Builtin::Fmodf => "fmodf"@,
            Builtin::Fmod => "fmod"@,
            Builtin::Overflow { op } => match op {
                OverflowOp::Add => "__builtin_add_overflow"@,
                OverflowOp::Sub => "__builtin_sub_overflow"@,
                OverflowOp::Mul => "__builtin_mul_overflow"@,
            },
        }
    }

    pub fn to_name(self) -> (s: String)
        ensures
            s@ == self.name(),
    {
        match self {
            Builtin::AtomicLoad { bytes } => numbered("__atomic_load_", bytes as usize),
            Builtin::AtomicStore { bytes } => numbered("__atomic_store_", bytes as usize),
            Builtin::AtomicCompareExchange { bytes } => numbered(
                "__atomic_compare_exchange_",
                bytes as usize,
            ),
            Builtin::AtomicFetch { op, bytes } => match op {
                FetchOp::Exchange => numbered("__atomic_exchange_", bytes as usize),
                FetchOp::Add => numbered("__atomic_fetch_add_", bytes as usize),
                FetchOp::Sub => numbered("__atomic_fetch_sub_", bytes as usize),
                FetchOp::And => numbered("__atomic_fetch_and_", bytes as usize),
                FetchOp::Nand => numbered("__atomic_fetch_nand_", bytes as usize),
                FetchOp::Or => numbered("__atomic_fetch_or_", bytes as usize),
                FetchOp::Xor => numbered("__atomic_fetch_xor_", bytes as usize),
            },
            Builtin::AtomicThreadFence => "__atomic_thread_fence".to_owned(),
            Builtin::AtomicSignalFence => "__atomic_signal_fence".to_owned(),
            Builtin::Memcpy => "memcpy".to_owned(),
            Builtin::Memmove => "memmove".to_owned(),
            Builtin::Memset => "memset".to_owned(),
            Builtin::Unreachable => "__builtin_unreachable".to_owned(),
            Builtin::Fmodf => "fmodf".to_owned(),
            Builtin::Fmod => "fmod".to_owned(),
            Builtin::Overflow { op } => match op {
                OverflowOp::Add => "__builtin_add_overflow".to_owned(),
                OverflowOp::Sub => "__builtin_sub_overflow".to_owned(),
                OverflowOp::Mul => "__builtin_mul_overflow".to_owned(),
            },
        }
    }

    pub fn to_params(self) -> (v: Vec<Prim>)
        ensures
            v@ == self.params(),
    {
        let v = match self {
            Builtin::AtomicLoad { .. } => vec![Prim::ConstVolatileVoidPtr, Prim::Int],
            Builtin::AtomicStore { bytes } => vec![
                Prim::VolatileVoidPtr,
                Prim::UInt { bytes },
                Prim::Int,
            ],
            Builtin::AtomicCompareExchange { bytes } => vec![
                Prim::VolatileVoidPtr,
                Prim::VoidPtr,
                Prim::UInt { bytes },
                Prim::Bool,
                Prim::Int,
                Prim::Int,
            ],
            Builtin::AtomicFetch { bytes, .. } => vec![
                Prim::VolatileVoidPtr,
                Prim::UInt { bytes },
                Prim::Int,
            ],
            Builtin::AtomicThreadFence => vec![Prim::Int],
            Builtin::AtomicSignalFence => vec![Prim::Int],
            Builtin::Memcpy => vec![Prim::VoidPtr, Prim::ConstVoidPtr, Prim::Size],
            Builtin::Memmove => vec![Prim::VoidPtr, Prim::ConstVoidPtr, Prim::Size],
            Builtin::Memset => vec![Prim::VoidPtr, Prim::Int, Prim::Size],
            Builtin::Unreachable => Vec::new(),
            Builtin::Fmodf => vec![Prim::Float, Prim::Float],
            Builtin::Fmod => vec![Prim::Double, Prim::Double],
            Builtin::Overflow { .. } => Vec::new(),
        };
        assert(v@ =~= self.params());
        v
    }

    pub fn to_ret(self) -> (p: Prim)
        ensures
            p == self.ret(),
    {
        match self {
            Builtin::AtomicLoad { bytes } => Prim::UInt { bytes },
            Builtin::AtomicStore { .. } => Prim::Void,
            Builtin::AtomicCompareExchange { .. } => Prim::Bool,
            Builtin::AtomicFetch { bytes, .. } => Prim::UInt { bytes },
            Builtin::AtomicThreadFence => Prim::Void,
            Builtin::AtomicSignalFence => Prim::Void,
            Builtin::Memcpy => Prim::VoidPtr,
            Builtin::Memmove => Prim::VoidPtr,
            Builtin::Memset => Prim::VoidPtr,
            Builtin::Unreachable => Prim::Void,
            Builtin::Fmodf => Prim::Float,
            Builtin::Fmod => Prim::Double,
            Builtin::Overflow { .. } => Prim::Bool,
        }
    }
}

impl Prim {
    /// A width is given only where it is the width of an integer type.
    pub open spec fn known(self) -> bool {
        self matches Prim::UInt { bytes } ==> int_width(bytes)
    }
}

impl TypeTable {
    pub open spec fn is_void(&self, t: Type) -> bool {
        self.has(t) && self.kind(t) == TypeKind::Void
    }

    /// The handle `t` stands for the type that `p` describes.
    pub open spec fn is_prim(&self, t: Type, p: Prim) -> bool {
        &&& self.has(t)
        &&& match p {
            Prim::Void => self.kind(t) == TypeKind::Void,
            Prim::Bool => self.kind(t) == TypeKind::Bool,
            Prim::Int => self.kind(t) == (TypeKind::Int { bytes: 4, signed: true }),
            Prim::UInt { bytes } => self.kind(t) == (TypeKind::Int { bytes, signed: false }),
            Prim::Size => self.kind(t) == (TypeKind::Int {
                bytes: self.pointer_bytes,
                signed: false,
            }),
            Prim::Float => self.kind(t) == TypeKind::Float,
            Prim::Double => self.kind(t) == TypeKind::Double,
            Prim::VoidPtr => self.kind(t) is Pointer && self.is_void(self.kind(t)->pointee),
            Prim::ConstVoidPtr => {
                let p = self.kind(t)->pointee;
                self.kind(t) is Pointer && self.has(p) && self.kind(p) is Const && self.is_void(
                    self.kind(p).qualified(),
                )
            },
            Prim::VolatileVoidPtr => {
                let p = self.kind(t)->pointee;
                self.kind(t) is Pointer && self.has(p) && self.kind(p) is Volatile && self.is_void(
                    self.kind(p).qualified(),
                )
            },
            Prim::ConstVolatileVoidPtr => {
                let p = self.kind(t)->pointee;
                let c = self.kind(p).qualified();
                self.kind(t) is Pointer && self.has(p) && self.kind(p) is Volatile && self.has(c)
                    && self.kind(c) is Const && self.is_void(self.kind(c).qualified())
            },
        }
    }

    /// A described type keeps its description when the table grows.
    pub proof fn lemma_prim_extended(&self, later: &TypeTable, t: Type, p: Prim)
        requires
            self.extended_by(later),
            self.is_prim(t, p),
        ensures
            later.is_prim(t, p),
    {
        assert(later.infos@[t.id as int] == self.infos@[t.id as int]);
        match self.kind(t) {
            TypeKind::Pointer { pointee } => {
                if self.has(pointee) {
                    assert(later.infos@[pointee.id as int] == self.infos@[pointee.id as int]);
                    match self.kind(pointee) {
                        TypeKind::Const { inner } => {
                            if self.has(inner) {
                                assert(later.infos@[inner.id as int] == self.infos@[inner.id as int]);
                            }
                        },
                        TypeKind::Volatile { inner } => {
                            if self.has(inner) {
                                assert(later.infos@[inner.id as int] == self.infos@[inner.id as int]);
                                match self.kind(inner) {
                                    TypeKind::Const { inner: innermost } => {
                                        if self.has(innermost) {
                                            assert(later.infos@[innermost.id as int]
                                                == self.infos@[innermost.id as int]);
                                        }
                                    },
                                    _ => {},
                                }
                            }
                        },
                        _ => {},
                    }
                }
            },
            _ => {},
        }
    }
}

impl Graph {
    /// The handle of the type that `p` describes.
    pub fn prim(&mut self, p: Prim) -> (t: Type)
        requires
            old(self).wf(),
            p.known(),
        ensures
            final(self).wf(),
            old(self).extended_by(final(self)),
            old(self).types_grew(final(self)),
            final(self).types.is_prim(t, p),
    {
        match p {
            Prim::Void => self.intern(TypeKind::Void),
            Prim::Bool => self.intern(TypeKind::Bool),
            Prim::Int => self.intern(TypeKind::Int { bytes: 4, signed: true }),
            Prim::UInt { bytes } => self.intern(TypeKind::Int { bytes, signed: false }),
            Prim::Size => {
                let bytes = self.types.pointer_bytes;
                self.intern(TypeKind::Int { bytes, signed: false })
            },
            Prim::Float => self.intern(TypeKind::Float),
            Prim::Double => self.intern(TypeKind::Double),
            Prim::VoidPtr => {
                let v = self.intern(TypeKind::Void);
                self.intern(TypeKind::Pointer { pointee: v })
            },
            Prim::ConstVoidPtr => {
                let v = self.intern(TypeKind::Void);
                let c = self.intern(TypeKind::Const { inner: v });
                self.intern(TypeKind::Pointer { pointee: c })
            },
            Prim::VolatileVoidPtr => {
                let v = self.intern(TypeKind::Void);
                let c = self.intern(TypeKind::Volatile { inner: v });
                self.intern(TypeKind::Pointer { pointee: c })
            },
            Prim::ConstVolatileVoidPtr => {
                let v = self.intern(TypeKind::Void);
                let c = self.intern(TypeKind::Const { inner: v });
                let cv = self.intern(TypeKind::Volatile { inner: c });
                self.intern(TypeKind::Pointer { pointee: cv })
            },
        }
    }

    /// The builtin `b` as a routine of the graph, declared on first use.
    pub fn get_builtin_function(&mut self, b: Builtin) -> (f: Function)
        requires
            old(self).wf(),
            b.known(),
        ensures
            final(self).wf(),
            old(self).extended_by(final(self)),
            final(self).has_function(f),
            final(self).declares(f, b),
            final(self).nodes@ == old(self).nodes@,
            final(self).lists@ == old(self).lists@,
            final(self).vars@ == old(self).vars@,
            final(self).blocks@ == old(self).blocks@,
            final(self).case_lists@ == old(self).case_lists@,
            prefix_of(old(self).functions@, final(self).functions@),
            final(self).functions@.len() <= old(self).functions@.len() + 1,
    {
        let mut i: usize = 0;
        while i < self.functions.len()
            invariant
                *self == *old(self),
                self.wf(),
                i <= self.functions@.len(),
            decreases self.functions@.len() - i,
        {
            match self.functions[i].builtin {
                Some(x) => {
                    if x == b {
                        proof {
                            assert(self.function_ok(i as int));
                        }
                        return Function { id: i };
                    }
                },
                None => {},
            }
            i = i + 1;
        }
        let prims = b.to_params();
        let mut params: Vec<Type> = Vec::new();
        let mut k: usize = 0;
        while k < prims.len()
            invariant
                self.wf(),
                b.known(),
                old(self).extended_by(self),
                old(self).types_grew(self),
                prims@ == b.params(),
                k <= prims@.len(),
                params@.len() == k,
                forall|j: int| 0 <= j < k ==> self.types.is_prim(#[trigger] params@[j], prims@[j]),
            decreases prims@.len() - k,
        {
            let ghost before = *self;
            let p = prims[k];
            let t = self.prim(p);
            proof {
                assert forall|j: int| 0 <= j < k implies self.types.is_prim(
                    #[trigger] params@[j],
                    prims@[j],
                ) by {
                    before.types.lemma_prim_extended(&self.types, params@[j], prims@[j]);
                }
            }
            params.push(t);
            k = k + 1;
        }
        let ghost before = *self;
        let ret = self.prim(b.to_ret());
        proof {
            assert forall|j: int| 0 <= j < params@.len() implies self.types.is_prim(
                #[trigger] params@[j],
                prims@[j],
            ) by {
                before.types.lemma_prim_extended(&self.types, params@[j], prims@[j]);
            }
        }
        let ghost grown = *self;
        let id = self.functions.len();
        self.functions.push(FunctionDef { name: b.to_name(), params, ret, builtin: Some(b) });
        proof {
            assert(self.declares(Function { id }, b));
            assert(self.function_ok(id as int));
            grown.lemma_wf_extended(self);
        }
        Function { id }
    }
}

} // verus!
