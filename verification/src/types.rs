//! The type table of a program graph. Types are handles into the table;
//! the table keeps one entry per structurally distinct type, so two handles
//! are equal exactly when the types they stand for are structurally equal.

use vstd::prelude::*;

verus! {

/// Handle of a type.
#[derive(Clone, Copy, PartialEq, Eq, Structural, Debug)]
pub struct Type {
    pub id: usize,
}

/// Shape of a type. Component types are handles of earlier entries.
#[derive(Clone, Copy, PartialEq, Eq, Structural, Debug)]
pub enum TypeKind {
    Void,
    Bool,
    Int { bytes: u8, signed: bool },
    Float,
    Double,
    Pointer { pointee: Type },
    Array { element: Type, len: u64 },
    Vector { element: Type, len: u64 },
    Struct { index: usize },
    FunctionPtr { index: usize },
    Const { inner: Type },
    Volatile { inner: Type },
    Aligned { inner: Type, align: u64 },
}

/// One entry of the type table: the shape, and the number of storage cells
/// a value of the type occupies (one per scalar it is made of).
#[derive(Clone, Copy, Debug)]
pub struct TypeInfo {
    pub kind: TypeKind,
    pub slots: usize,
}

/// A struct declaration. Each declaration is a type of its own, whatever
/// its fields.
#[derive(Debug)]
pub struct StructDef {
    pub name: String,
    pub fields: Vec<Type>,
    /// Cell offset of each field from the start of the struct.
    pub offsets: Vec<usize>,
}

/// Parameter and return types of a function-pointer type.
#[derive(Debug)]
pub struct Signature {
    pub params: Vec<Type>,
    pub ret: Type,
}

#[derive(Debug)]
pub struct TypeTable {
    pub infos: Vec<TypeInfo>,
    pub structs: Vec<StructDef>,
    pub signatures: Vec<Signature>,
    /// Size of a pointer on the target, in bytes.
    pub pointer_bytes: u8,
}

/// `a` is an initial part of `b`.
pub open spec fn prefix_of<T>(a: Seq<T>, b: Seq<T>) -> bool {
    &&& a.len() <= b.len()
    &&& forall|i: int| #![trigger a[i]] #![trigger b[i]] 0 <= i < a.len() ==> a[i] == b[i]
}

/// Sum of two cell counts, stopping at the largest count that can be held.
pub open spec fn sat_add(a: int, b: int) -> int {
    if a + b > usize::MAX {
        usize::MAX as int
    } else {
        a + b
    }
}

/// Product of two cell counts, stopping at the largest count that can be held.
pub open spec fn sat_mul(a: int, b: int) -> int {
    if a * b > usize::MAX {
        usize::MAX as int
    } else {
        a * b
    }
}

/// Whether `bytes` is the width of an integer type.
pub open spec fn int_width(bytes: u8) -> bool {
    bytes == 1 || bytes == 2 || bytes == 4 || bytes == 8 || bytes == 16
}

impl TypeKind {
    /// The component types are earlier than `bound`, and declarations
    /// referred to exist.
    pub open spec fn within(self, bound: int, n_structs: int, n_signatures: int) -> bool {
        match self {
            TypeKind::Int { bytes, .. } => int_width(bytes),
            TypeKind::Pointer { pointee } => pointee.id < bound,
            TypeKind::Array { element, .. } => element.id < bound,
            TypeKind::Vector { element, .. } => element.id < bound,
            TypeKind::Struct { index } => index < n_structs,
            TypeKind::FunctionPtr { index } => index < n_signatures,
            TypeKind::Const { inner } => inner.id < bound,
            TypeKind::Volatile { inner } => inner.id < bound,
            TypeKind::Aligned { inner, .. } => inner.id < bound,
            _ => true,
        }
    }

    pub open spec fn is_qualifier(self) -> bool {
        self is Const || self is Volatile || self is Aligned
    }

    /// The type a qualifier decorates.
    pub open spec fn qualified(self) -> Type {
        match self {
            TypeKind::Const { inner } => inner,
            TypeKind::Volatile { inner } => inner,
            TypeKind::Aligned { inner, .. } => inner,
            _ => Type { id: 0 },
        }
    }
}

impl TypeTable {
    pub open spec fn has(&self, t: Type) -> bool {
        t.id < self.infos.len()
    }

    pub open spec fn kind(&self, t: Type) -> TypeKind {
        self.infos@[t.id as int].kind
    }

    pub open spec fn slots(&self, t: Type) -> int {
        self.infos@[t.id as int].slots as int
    }

    /// Cells taken by the first `n` of the given fields.
    pub open spec fn prefix_slots(&self, fields: Seq<Type>, n: int) -> int
        decreases n,
    {
        if n <= 0 {
            0
        } else {
            sat_add(self.prefix_slots(fields, n - 1), self.slots(fields[n - 1]))
        }
    }

    /// Cells a value of the given shape occupies.
    pub open spec fn kind_slots(&self, kind: TypeKind) -> int {
        match kind {
            TypeKind::Void => 0,
            TypeKind::Array { element, len } => sat_mul(len as int, self.slots(element)),
            TypeKind::Vector { element, len } => sat_mul(len as int, self.slots(element)),
            TypeKind::Struct { index } => {
                let def = self.structs@[index as int];
                self.prefix_slots(def.fields@, def.fields@.len() as int)
            },
            TypeKind::Const { inner } => self.slots(inner),
            TypeKind::Volatile { inner } => self.slots(inner),
            TypeKind::Aligned { inner, .. } => self.slots(inner),
            _ => 1,
        }
    }

    pub open spec fn struct_ok(&self, s: int) -> bool {
        let def = self.structs@[s];
        &&& def.offsets@.len() == def.fields@.len()
        &&& forall|i: int|
            0 <= i < def.fields@.len() ==> (#[trigger] def.fields@[i]).id < self.infos.len()
    }

    pub open spec fn signature_ok(&self, g: int) -> bool {
        let sig = self.signatures@[g];
        &&& sig.ret.id < self.infos.len()
        &&& forall|i: int|
            0 <= i < sig.params@.len() ==> (#[trigger] sig.params@[i]).id < self.infos.len()
    }

    /// The table is well formed: entries refer to earlier entries only, no
    /// shape occurs twice, and every declaration is complete.
    pub open spec fn wf(&self) -> bool {
        &&& int_width(self.pointer_bytes)
        &&& forall|i: int|
            0 <= i < self.infos.len() ==> (#[trigger] self.infos@[i]).kind.within(
                i,
                self.structs.len() as int,
                self.signatures.len() as int,
            )
        &&& forall|i: int, j: int|
            0 <= i < j < self.infos.len() ==> (#[trigger] self.infos@[i]).kind != (
            #[trigger] self.infos@[j]).kind
        &&& forall|s: int| 0 <= s < self.structs.len() ==> #[trigger] self.struct_ok(s)
        &&& forall|g: int| 0 <= g < self.signatures.len() ==> #[trigger] self.signature_ok(g)
    }

    /// `later` holds everything `self` holds, at the same handles.
    pub open spec fn extended_by(&self, later: &TypeTable) -> bool {
        &&& self.pointer_bytes == later.pointer_bytes
        &&& prefix_of(self.infos@, later.infos@)
        &&& prefix_of(self.structs@, later.structs@)
        &&& prefix_of(self.signatures@, later.signatures@)
    }

    /// The type with all qualifiers (const, volatile, alignment) removed.
    pub open spec fn strip(&self, t: Type) -> Type
        decreases t.id,
    {
        if self.has(t) && self.kind(t).is_qualifier() && self.kind(t).qualified().id < t.id {
            self.strip(self.kind(t).qualified())
        } else {
            t
        }
    }

    /// Shape of the type under its qualifiers.
    pub open spec fn shape(&self, t: Type) -> TypeKind {
        self.kind(self.strip(t))
    }

    /// Two types are compatible when they differ in qualifiers only.
    pub open spec fn compatible(&self, a: Type, b: Type) -> bool {
        self.strip(a) == self.strip(b)
    }

    pub open spec fn is_pointer(&self, t: Type) -> bool {
        self.shape(t) is Pointer
    }

    pub open spec fn pointee(&self, t: Type) -> Type {
        self.shape(t)->pointee
    }

    pub open spec fn is_integral_type(&self, t: Type) -> bool {
        self.shape(t) is Int || self.shape(t) is Bool
    }

    pub open spec fn is_vector_type(&self, t: Type) -> bool {
        self.shape(t) is Vector
    }

    /// Whether the type has a size the target can report: integers,
    /// booleans, floating types and pointers.
    pub open spec fn sized(&self, t: Type) -> bool {
        match self.shape(t) {
            TypeKind::Bool => true,
            TypeKind::Int { .. } => true,
            TypeKind::Float => true,
            TypeKind::Double => true,
            TypeKind::Pointer { .. } => true,
            _ => false,
        }
    }

    /// Size in bytes of a sized type.
    pub open spec fn size_of(&self, t: Type) -> int {
        match self.shape(t) {
            TypeKind::Bool => 1,
            TypeKind::Int { bytes, .. } => bytes as int,
            TypeKind::Float => 4,
            TypeKind::Double => 8,
            TypeKind::Pointer { .. } => self.pointer_bytes as int,
            _ => 0,
        }
    }

    /// The signed integer shape of the same width, for an integer shape.
    pub open spec fn signed_kind(&self, t: Type) -> TypeKind {
        match self.shape(t) {
            TypeKind::Int { bytes, .. } => TypeKind::Int { bytes, signed: true },
            k => k,
        }
    }

    /// Handle under which `kind` is held, if it is.
    pub open spec fn find(&self, kind: TypeKind) -> Option<Type> {
        if exists|i: int| 0 <= i < self.infos.len() && (#[trigger] self.infos@[i]).kind == kind {
            let i = choose|i: int| 0 <= i < self.infos.len() && (#[trigger] self.infos@[i]).kind == kind;
            Some(Type { id: i as usize })
        } else {
            None
        }
    }
}


impl TypeTable {
    /// An empty table for a target whose pointers take `pointer_bytes` bytes.
    pub fn new(pointer_bytes: u8) -> (t: TypeTable)
        requires
            int_width(pointer_bytes),
        ensures
            t.wf(),
            t.infos@.len() == 0,
            t.structs@.len() == 0,
            t.signatures@.len() == 0,
            t.pointer_bytes == pointer_bytes,
    {
        TypeTable { infos: Vec::new(), structs: Vec::new(), signatures: Vec::new(), pointer_bytes }
    }

    /// Extending a table leaves the unqualified form of its types alone.
    pub proof fn lemma_strip_extended(&self, later: &TypeTable, t: Type)
        requires
            self.extended_by(later),
            self.has(t),
        ensures
            later.strip(t) == self.strip(t),
            self.has(self.strip(t)),
            later.kind(t) == self.kind(t),
            later.shape(t) == self.shape(t),
        decreases t.id,
    {
        assert(later.infos@[t.id as int] == self.infos@[t.id as int]);
        if self.kind(t).is_qualifier() && self.kind(t).qualified().id < t.id {
            self.lemma_strip_extended(later, self.kind(t).qualified());
        }
    }

    /// A qualified type has the unqualified form of the type it decorates.
    pub proof fn lemma_strip_qualified(&self, t: Type)
        requires
            self.wf(),
            self.has(t),
            self.kind(t).is_qualifier(),
        ensures
            self.strip(t) == self.strip(self.kind(t).qualified()),
            self.shape(t) == self.shape(self.kind(t).qualified()),
            self.has(self.kind(t).qualified()),
    {
        assert(self.infos@[t.id as int].kind.within(
            t.id as int,
            self.structs.len() as int,
            self.signatures.len() as int,
        ));
    }

    /// The pointee of a held pointer type is held.
    pub proof fn lemma_pointee_held(&self, t: Type)
        requires
            self.wf(),
            self.has(t),
            self.is_pointer(t),
        ensures
            self.has(self.pointee(t)),
            self.pointee(t).id < t.id,
    {
        self.lemma_strip_plain(t);
        let u = self.strip(t);
        assert(self.infos@[u.id as int].kind.within(
            u.id as int,
            self.structs.len() as int,
            self.signatures.len() as int,
        ));
    }

    /// What is found for a shape is held and has the shape.
    pub proof fn lemma_found(&self, kind: TypeKind)
        requires
            self.find(kind) is Some,
        ensures
            self.has(self.find(kind).unwrap()),
            self.kind(self.find(kind).unwrap()) == kind,
    {
        let i = choose|i: int| 0 <= i < self.infos.len() && (#[trigger] self.infos@[i]).kind == kind;
        assert(self.infos.len() <= usize::MAX);
    }

    /// A held type is found under its own handle.
    pub proof fn lemma_find_unique(&self, t: Type)
        requires
            self.wf(),
            self.has(t),
        ensures
            self.find(self.kind(t)) == Some(t),
    {
        let kind = self.kind(t);
        assert(self.infos@[t.id as int].kind == kind);
        let i = choose|i: int| 0 <= i < self.infos.len() && (#[trigger] self.infos@[i]).kind == kind;
        if i < t.id {
            assert(self.infos@[i].kind != self.infos@[t.id as int].kind);
        } else if t.id < i {
            assert(self.infos@[t.id as int].kind != self.infos@[i].kind);
        }
    }

    /// The unqualified form of a held type is held, is no qualifier, and
    /// stripping it again changes nothing.
    pub proof fn lemma_strip_plain(&self, t: Type)
        requires
            self.wf(),
            self.has(t),
        ensures
            self.has(self.strip(t)),
            self.strip(t).id <= t.id,
            !self.shape(t).is_qualifier(),
            self.strip(self.strip(t)) == self.strip(t),
        decreases t.id,
    {
        assert(self.infos@[t.id as int].kind.within(
            t.id as int,
            self.structs.len() as int,
            self.signatures.len() as int,
        ));
        if self.kind(t).is_qualifier() {
            self.lemma_strip_plain(self.kind(t).qualified());
        }
    }

    fn count_slots(&self, fields: &Vec<Type>) -> (r: (usize, Vec<usize>))
        requires
            forall|i: int| 0 <= i < fields@.len() ==> self.has(#[trigger] fields@[i]),
        ensures
            r.0 == self.prefix_slots(fields@, fields@.len() as int),
            r.1@.len() == fields@.len(),
            forall|i: int|
                0 <= i < fields@.len() ==> #[trigger] r.1@[i] == self.prefix_slots(fields@, i),
    {
        let mut total: usize = 0;
        let mut offsets: Vec<usize> = Vec::new();
        let mut i: usize = 0;
        while i < fields.len()
            invariant
                i <= fields@.len(),
                forall|k: int| 0 <= k < fields@.len() ==> self.has(#[trigger] fields@[k]),
                total == self.prefix_slots(fields@, i as int),
                offsets@.len() == i,
                forall|k: int| 0 <= k < i ==> #[trigger] offsets@[k] == self.prefix_slots(fields@, k),
            decreases fields@.len() - i,
        {
            offsets.push(total);
            let f = fields[i];
            assert(self.has(fields@[i as int]));
            let s = self.infos[f.id].slots;
            total = total.saturating_add(s);
            i = i + 1;
        }
        (total, offsets)
    }

    fn slots_of_kind(&self, kind: TypeKind) -> (r: usize)
        requires
            self.wf(),
            kind.within(
                self.infos.len() as int,
                self.structs.len() as int,
                self.signatures.len() as int,
            ),
        ensures
            r == self.kind_slots(kind),
    {
        match kind {
            TypeKind::Void => 0,
            TypeKind::Array { element, len } => self.times(len, self.infos[element.id].slots),
            TypeKind::Vector { element, len } => self.times(len, self.infos[element.id].slots),
            TypeKind::Struct { index } => {
                assert(self.struct_ok(index as int));
                let (total, _) = self.count_slots(&self.structs[index].fields);
                total
            },
            TypeKind::Const { inner } => self.infos[inner.id].slots,
            TypeKind::Volatile { inner } => self.infos[inner.id].slots,
            TypeKind::Aligned { inner, .. } => self.infos[inner.id].slots,
            _ => 1,
        }
    }

    fn times(&self, len: u64, slots: usize) -> (r: usize)
        ensures
            r == sat_mul(len as int, slots as int),
    {
        if slots == 0 || len == 0 {
            assert(len * slots == 0) by (nonlinear_arith)
                requires
                    slots == 0 || len == 0,
            ;
            0
        } else if len > (usize::MAX / slots) as u64 {
            assert(len * slots > usize::MAX) by (nonlinear_arith)
                requires
                    slots > 0,
                    len > usize::MAX / slots,
            ;
            usize::MAX
        } else {
            assert(len * slots <= usize::MAX) by (nonlinear_arith)
                requires
                    slots > 0,
                    len <= usize::MAX / slots,
            ;
            (len as usize) * slots
        }
    }

    /// The handle of `kind`, entering it into the table if it is new.
    pub fn intern(&mut self, kind: TypeKind) -> (t: Type)
        requires
            old(self).wf(),
            kind.within(
                old(self).infos.len() as int,
                old(self).structs.len() as int,
                old(self).signatures.len() as int,
            ),
        ensures
            final(self).wf(),
            old(self).extended_by(final(self)),
            final(self).has(t),
            final(self).kind(t) == kind,
            final(self).structs@ == old(self).structs@,
            final(self).signatures@ == old(self).signatures@,
            old(self).find(kind) is Some ==> Some(t) == old(self).find(kind) && *final(self)
                == *old(self),
            old(self).find(kind) is None ==> t.id == old(self).infos@.len() && final(self).infos@
                == old(self).infos@.push(TypeInfo { kind, slots: old(self).kind_slots(kind) as usize }),
    {
        let mut i: usize = 0;
        while i < self.infos.len()
            invariant
                *self == *old(self),
                self.wf(),
                i <= self.infos@.len(),
                forall|k: int| 0 <= k < i ==> (#[trigger] self.infos@[k]).kind != kind,
            decreases self.infos@.len() - i,
        {
            if self.infos[i].kind == kind {
                proof {
                    let w = choose|w: int|
                        0 <= w < self.infos.len() && (#[trigger] self.infos@[w]).kind == kind;
                    assert(w == i) by {
                        if w < i {
                            assert(self.infos@[w].kind != self.infos@[i as int].kind);
                        } else if i < w {
                            assert(self.infos@[i as int].kind != self.infos@[w].kind);
                        }
                    }
                }
                return Type { id: i };
            }
            i = i + 1;
        }
        let slots = self.slots_of_kind(kind);
        let t = Type { id: self.infos.len() };
        self.infos.push(TypeInfo { kind, slots });
        proof {
            let old_len = old(self).infos@.len() as int;
            assert forall|a: int| 0 <= a < self.infos.len() implies (#[trigger] self.infos@[a]).kind.within(
                a,
                self.structs.len() as int,
                self.signatures.len() as int,
            ) by {
                if a < old_len {
                    assert(old(self).infos@[a].kind.within(
                        a,
                        old(self).structs.len() as int,
                        old(self).signatures.len() as int,
                    ));
                }
            }
            assert forall|a: int, b: int| 0 <= a < b < self.infos.len() implies (
            #[trigger] self.infos@[a]).kind != (#[trigger] self.infos@[b]).kind by {
                if b < old_len {
                    assert(old(self).infos@[a].kind != old(self).infos@[b].kind);
                }
            }
            assert forall|s: int| 0 <= s < self.structs.len() implies #[trigger] self.struct_ok(
                s,
            ) by {
                assert(old(self).struct_ok(s));
            }
            assert forall|g: int| 0 <= g < self.signatures.len() implies #[trigger] self.signature_ok(
                g,
            ) by {
                assert(old(self).signature_ok(g));
            }
        }
        t
    }
}

impl TypeTable {
    /// The type with all qualifiers removed.
    pub fn unqualified(&self, t: Type) -> (r: Type)
        requires
            self.wf(),
            self.has(t),
        ensures
            r == self.strip(t),
            self.has(r),
            !self.kind(r).is_qualifier(),
        decreases t.id,
    {
        proof {
            assert(self.infos@[t.id as int].kind.within(
                t.id as int,
                self.structs.len() as int,
                self.signatures.len() as int,
            ));
        }
        match self.infos[t.id].kind {
            TypeKind::Const { inner } => self.unqualified(inner),
            TypeKind::Volatile { inner } => self.unqualified(inner),
            TypeKind::Aligned { inner, .. } => self.unqualified(inner),
            _ => t,
        }
    }

    /// Shape of the type under its qualifiers.
    pub fn shape_of(&self, t: Type) -> (k: TypeKind)
        requires
            self.wf(),
            self.has(t),
        ensures
            k == self.shape(t),
            !k.is_qualifier(),
            k.within(
                self.infos.len() as int,
                self.structs.len() as int,
                self.signatures.len() as int,
            ),
    {
        let u = self.unqualified(t);
        proof {
            assert(self.infos@[u.id as int].kind.within(
                u.id as int,
                self.structs.len() as int,
                self.signatures.len() as int,
            ));
        }
        self.infos[u.id].kind
    }

    pub fn make_pointer(&mut self, t: Type) -> (r: Type)
        requires
            old(self).wf(),
            old(self).has(t),
        ensures
            final(self).wf(),
            old(self).extended_by(final(self)),
            final(self).has(r),
            final(self).kind(r) == (TypeKind::Pointer { pointee: t }),
            final(self).structs@ == old(self).structs@,
            final(self).signatures@ == old(self).signatures@,
    {
        self.intern(TypeKind::Pointer { pointee: t })
    }

    pub fn make_const(&mut self, t: Type) -> (r: Type)
        requires
            old(self).wf(),
            old(self).has(t),
        ensures
            final(self).wf(),
            old(self).extended_by(final(self)),
            final(self).has(r),
            final(self).kind(r) == (TypeKind::Const { inner: t }),
            final(self).structs@ == old(self).structs@,
            final(self).signatures@ == old(self).signatures@,
    {
        self.intern(TypeKind::Const { inner: t })
    }

    pub fn make_volatile(&mut self, t: Type) -> (r: Type)
        requires
            old(self).wf(),
            old(self).has(t),
        ensures
            final(self).wf(),
            old(self).extended_by(final(self)),
            final(self).has(r),
            final(self).kind(r) == (TypeKind::Volatile { inner: t }),
            final(self).structs@ == old(self).structs@,
            final(self).signatures@ == old(self).signatures@,
    {
        self.intern(TypeKind::Volatile { inner: t })
    }

    /// The type `t` with its alignment raised to `align` bytes.
    pub fn get_aligned(&mut self, t: Type, align: u64) -> (r: Type)
        requires
            old(self).wf(),
            old(self).has(t),
        ensures
            final(self).wf(),
            old(self).extended_by(final(self)),
            final(self).has(r),
            final(self).kind(r) == (TypeKind::Aligned { inner: t, align }),
            final(self).structs@ == old(self).structs@,
            final(self).signatures@ == old(self).signatures@,
    {
        self.intern(TypeKind::Aligned { inner: t, align })
    }

    pub fn new_array_type(&mut self, element: Type, len: u64) -> (r: Type)
        requires
            old(self).wf(),
            old(self).has(element),
        ensures
            final(self).wf(),
            old(self).extended_by(final(self)),
            final(self).has(r),
            final(self).kind(r) == (TypeKind::Array { element, len }),
            final(self).structs@ == old(self).structs@,
            final(self).signatures@ == old(self).signatures@,
    {
        self.intern(TypeKind::Array { element, len })
    }

    pub fn new_vector_type(&mut self, element: Type, len: u64) -> (r: Type)
        requires
            old(self).wf(),
            old(self).has(element),
        ensures
            final(self).wf(),
            old(self).extended_by(final(self)),
            final(self).has(r),
            final(self).kind(r) == (TypeKind::Vector { element, len }),
            final(self).structs@ == old(self).structs@,
            final(self).signatures@ == old(self).signatures@,
    {
        self.intern(TypeKind::Vector { element, len })
    }

    /// Declares a struct with the given fields; the result is a type no
    /// earlier handle stands for.
    pub fn new_struct_type(&mut self, name: &str, fields: Vec<Type>) -> (r: Type)
        requires
            old(self).wf(),
            forall|i: int| 0 <= i < fields@.len() ==> old(self).has(#[trigger] fields@[i]),
        ensures
            final(self).wf(),
            old(self).extended_by(final(self)),
            r.id == old(self).infos@.len(),
            final(self).infos@.len() == old(self).infos@.len() + 1,
            final(self).kind(r) == (TypeKind::Struct { index: old(self).structs@.len() as usize }),
            final(self).slots(r) == old(self).prefix_slots(fields@, fields@.len() as int),
            final(self).structs@.len() == old(self).structs@.len() + 1,
            final(self).structs@.last().name@ == name@,
            final(self).structs@.last().fields@ == fields@,
            final(self).structs@.last().offsets@.len() == fields@.len(),
            forall|i: int|
                0 <= i < fields@.len() ==> #[trigger] final(self).structs@.last().offsets@[i]
                    == old(self).prefix_slots(fields@, i),
            final(self).signatures@ == old(self).signatures@,
    {
        let (slots, offsets) = self.count_slots(&fields);
        let index = self.structs.len();
        let t = Type { id: self.infos.len() };
        self.structs.push(StructDef { name: name.to_owned(), fields, offsets });
        self.infos.push(TypeInfo { kind: TypeKind::Struct { index }, slots });
        proof {
            let old_len = old(self).infos@.len() as int;
            assert forall|a: int| 0 <= a < self.infos.len() implies (#[trigger] self.infos@[a]).kind.within(
                a,
                self.structs.len() as int,
                self.signatures.len() as int,
            ) by {
                if a < old_len {
                    assert(old(self).infos@[a].kind.within(
                        a,
                        old(self).structs.len() as int,
                        old(self).signatures.len() as int,
                    ));
                }
            }
            assert forall|a: int, b: int| 0 <= a < b < self.infos.len() implies (
            #[trigger] self.infos@[a]).kind != (#[trigger] self.infos@[b]).kind by {
                if b < old_len {
                    assert(old(self).infos@[a].kind != old(self).infos@[b].kind);
                } else {
                    assert(old(self).infos@[a].kind.within(
                        a,
                        old(self).structs.len() as int,
                        old(self).signatures.len() as int,
                    ));
                }
            }
            assert forall|s: int| 0 <= s < self.structs.len() implies #[trigger] self.struct_ok(
                s,
            ) by {
                if s < index {
                    assert(old(self).struct_ok(s));
                }
            }
            assert forall|g: int| 0 <= g < self.signatures.len() implies #[trigger] self.signature_ok(
                g,
            ) by {
                assert(old(self).signature_ok(g));
            }
        }
        t
    }

    /// Declares a function-pointer type with the given parameter and return
    /// types; the result is a type no earlier handle stands for.
    pub fn new_function_pointer_type(&mut self, params: Vec<Type>, ret: Type) -> (r: Type)
        requires
            old(self).wf(),
            old(self).has(ret),
            forall|i: int| 0 <= i < params@.len() ==> old(self).has(#[trigger] params@[i]),
        ensures
            final(self).wf(),
            old(self).extended_by(final(self)),
            r.id == old(self).infos@.len(),
            final(self).infos@.len() == old(self).infos@.len() + 1,
            final(self).kind(r) == (TypeKind::FunctionPtr {
                index: old(self).signatures@.len() as usize,
            }),
            final(self).signatures@.len() == old(self).signatures@.len() + 1,
            final(self).signatures@.last().params@ == params@,
            final(self).signatures@.last().ret == ret,
            final(self).structs@ == old(self).structs@,
    {
        let index = self.signatures.len();
        let t = Type { id: self.infos.len() };
        self.signatures.push(Signature { params, ret });
        self.infos.push(TypeInfo { kind: TypeKind::FunctionPtr { index }, slots: 1 });
        proof {
            let old_len = old(self).infos@.len() as int;
            assert forall|a: int| 0 <= a < self.infos.len() implies (#[trigger] self.infos@[a]).kind.within(
                a,
                self.structs.len() as int,
                self.signatures.len() as int,
            ) by {
                if a < old_len {
                    assert(old(self).infos@[a].kind.within(
                        a,
                        old(self).structs.len() as int,
                        old(self).signatures.len() as int,
                    ));
                }
            }
            assert forall|a: int, b: int| 0 <= a < b < self.infos.len() implies (
            #[trigger] self.infos@[a]).kind != (#[trigger] self.infos@[b]).kind by {
                if b < old_len {
                    assert(old(self).infos@[a].kind != old(self).infos@[b].kind);
                } else {
                    assert(old(self).infos@[a].kind.within(
                        a,
                        old(self).structs.len() as int,
                        old(self).signatures.len() as int,
                    ));
                }
            }
            assert forall|s: int| 0 <= s < self.structs.len() implies #[trigger] self.struct_ok(
                s,
            ) by {
                assert(old(self).struct_ok(s));
            }
            assert forall|g: int| 0 <= g < self.signatures.len() implies #[trigger] self.signature_ok(
                g,
            ) by {
                if g < index {
                    assert(old(self).signature_ok(g));
                }
            }
        }
        t
    }

    /// The pointee type, for a pointer type.
    pub fn get_pointee(&self, t: Type) -> (r: Option<Type>)
        requires
            self.wf(),
            self.has(t),
        ensures
            r is Some <==> self.is_pointer(t),
            r is Some ==> r == Some(self.pointee(t)) && self.has(r.unwrap()),
    {
        match self.shape_of(t) {
            TypeKind::Pointer { pointee } => Some(pointee),
            _ => None,
        }
    }

    pub fn type_is_pointer(&self, t: Type) -> (r: bool)
        requires
            self.wf(),
            self.has(t),
        ensures
            r == self.is_pointer(t),
    {
        self.get_pointee(t).is_some()
    }

    /// The element type, for an array type.
    pub fn dyncast_array(&self, t: Type) -> (r: Option<Type>)
        requires
            self.wf(),
            self.has(t),
        ensures
            r is Some <==> self.shape(t) is Array,
            r is Some ==> r.unwrap() == self.shape(t)->Array_element && self.has(r.unwrap()),
    {
        match self.shape_of(t) {
            TypeKind::Array { element, .. } => Some(element),
            _ => None,
        }
    }

    /// Element type and number of units, for a vector type.
    pub fn dyncast_vector(&self, t: Type) -> (r: Option<(Type, u64)>)
        requires
            self.wf(),
            self.has(t),
        ensures
            r is Some <==> self.is_vector_type(t),
            r is Some ==> r.unwrap().0 == self.shape(t)->Vector_element && r.unwrap().1
                == self.shape(t)->Vector_len && self.has(r.unwrap().0),
    {
        match self.shape_of(t) {
            TypeKind::Vector { element, len } => Some((element, len)),
            _ => None,
        }
    }

    /// Index of the declaration, for a struct type.
    pub fn is_struct(&self, t: Type) -> (r: Option<usize>)
        requires
            self.wf(),
            self.has(t),
        ensures
            r is Some <==> self.shape(t) is Struct,
            r is Some ==> r.unwrap() == self.shape(t)->Struct_index && r.unwrap()
                < self.structs@.len(),
    {
        match self.shape_of(t) {
            TypeKind::Struct { index } => Some(index),
            _ => None,
        }
    }

    /// Index of the signature, for a function-pointer type.
    pub fn dyncast_function_ptr_type(&self, t: Type) -> (r: Option<usize>)
        requires
            self.wf(),
            self.has(t),
        ensures
            r is Some <==> self.shape(t) is FunctionPtr,
            r is Some ==> r.unwrap() == self.shape(t)->FunctionPtr_index && r.unwrap()
                < self.signatures@.len(),
    {
        match self.shape_of(t) {
            TypeKind::FunctionPtr { index } => Some(index),
            _ => None,
        }
    }

    pub fn is_bool(&self, t: Type) -> (r: bool)
        requires
            self.wf(),
            self.has(t),
        ensures
            r == (self.shape(t) is Bool),
    {
        match self.shape_of(t) {
            TypeKind::Bool => true,
            _ => false,
        }
    }

    pub fn is_integral(&self, t: Type) -> (r: bool)
        requires
            self.wf(),
            self.has(t),
        ensures
            r == self.is_integral_type(t),
    {
        match self.shape_of(t) {
            TypeKind::Bool => true,
            TypeKind::Int { .. } => true,
            _ => false,
        }
    }

    pub fn is_vector(&self, t: Type) -> (r: bool)
        requires
            self.wf(),
            self.has(t),
        ensures
            r == self.is_vector_type(t),
    {
        self.dyncast_vector(t).is_some()
    }

    pub fn is_compatible_with(&self, a: Type, b: Type) -> (r: bool)
        requires
            self.wf(),
            self.has(a),
            self.has(b),
        ensures
            r == self.compatible(a, b),
    {
        self.unqualified(a) == self.unqualified(b)
    }

    /// Size in bytes, for the types the target reports a size of.
    pub fn get_size(&self, t: Type) -> (r: u32)
        requires
            self.wf(),
            self.has(t),
            self.sized(t),
        ensures
            r == self.size_of(t),
            1 <= r <= 255,
            int_width(r as u8),
    {
        match self.shape_of(t) {
            TypeKind::Bool => 1,
            TypeKind::Int { bytes, .. } => bytes as u32,
            TypeKind::Float => 4,
            TypeKind::Double => 8,
            _ => self.pointer_bytes as u32,
        }
    }

    /// The signed integer type of the same width as the integer type `t`;
    /// any other type is returned unqualified.
    pub fn to_signed(&mut self, t: Type) -> (r: Type)
        requires
            old(self).wf(),
            old(self).has(t),
        ensures
            final(self).wf(),
            old(self).extended_by(final(self)),
            final(self).has(r),
            final(self).kind(r) == old(self).signed_kind(t),
            final(self).structs@ == old(self).structs@,
            final(self).signatures@ == old(self).signatures@,
    {
        let k = self.shape_of(t);
        match k {
            TypeKind::Int { bytes, .. } => self.intern(TypeKind::Int { bytes, signed: true }),
            _ => self.intern(k),
        }
    }
}

} // verus!
