//! What the layout oracle tells the emitter about sizes, alignments and
//! the representation of values: plain data, computed elsewhere.

use vstd::prelude::*;
use crate::graph::RValue;
use crate::types::Type;

verus! {

/// A size in bytes.
#[derive(Clone, Copy, PartialEq, Eq, Structural, Debug)]
pub struct Size {
    pub bytes: u64,
}

/// An alignment in bytes, a power of two.
#[derive(Clone, Copy, PartialEq, Eq, Structural, Debug)]
pub struct Align {
    pub bytes: u64,
}

/// Flags of a memory access.
#[derive(Clone, Copy, PartialEq, Eq, Structural, Debug)]
pub struct MemFlags {
    pub volatile: bool,
    pub nontemporal: bool,
    pub unaligned: bool,
}

/// The largest alignment got from `align` by halving that `offset` is a
/// multiple of.
pub open spec fn restricted(align: nat, offset: nat) -> nat
    decreases align,
{
    if align <= 1 || offset % align == 0 {
        align
    } else {
        restricted(align / 2, offset)
    }
}

impl Size {
    pub fn from_bytes(bytes: u64) -> (s: Size)
        ensures
            s.bytes == bytes,
    {
        Size { bytes }
    }

    pub fn bytes(self) -> (b: u64)
        ensures
            b == self.bytes,
    {
        self.bytes
    }
}

impl Align {
    pub fn bytes(self) -> (b: u64)
        ensures
            b == self.bytes,
    {
        self.bytes
    }

    /// The alignment lowered, where necessary, so that an object at
    /// `offset` from an object aligned to `self` is aligned to it.
    pub fn restrict_for_offset(self, offset: Size) -> (a: Align)
        ensures
            a.bytes == restricted(self.bytes as nat, offset.bytes as nat),
    {
        let mut b = self.bytes;
        while b > 1 && offset.bytes % b != 0
            invariant
                restricted(b as nat, offset.bytes as nat) == restricted(
                    self.bytes as nat,
                    offset.bytes as nat,
                ),
            decreases b,
        {
            b = b / 2;
        }
        Align { bytes: b }
    }
}

impl MemFlags {
    pub fn empty() -> (f: MemFlags)
        ensures
            f == (MemFlags { volatile: false, nontemporal: false, unaligned: false }),
    {
        MemFlags { volatile: false, nontemporal: false, unaligned: false }
    }
}

/// A primitive a scalar is made of.
#[derive(Clone, Copy, PartialEq, Eq, Structural, Debug)]
pub enum Primitive {
    Int { bytes: u8, signed: bool },
    Float,
    Double,
    Pointer,
}

/// A range of values that may wrap round the largest value: from `start`
/// up to `end` where `start <= end`, else from `start` up and from zero
/// up to `end`.
#[derive(Clone, Copy, PartialEq, Eq, Structural, Debug)]
pub struct WrappingRange {
    pub start: u128,
    pub end: u128,
}

/// A scalar as the layout oracle describes it.
#[derive(Clone, Copy, PartialEq, Eq, Structural, Debug)]
pub struct Scalar {
    pub value: Primitive,
    pub valid_range: WrappingRange,
    pub size: Size,
    pub align: Align,
}

/// How a value is represented.
#[derive(Clone, Copy, PartialEq, Eq, Structural, Debug)]
pub enum Abi {
    Uninhabited,
    Scalar { scalar: Scalar },
    ScalarPair { first: Scalar, second: Scalar },
    Vector,
    Aggregate { sized: bool },
}

/// The layout of a type: representation, size, and the type that values
/// of it have in the graph.
#[derive(Clone, Copy, PartialEq, Eq, Structural, Debug)]
pub struct Layout {
    pub abi: Abi,
    pub size: Size,
    pub gcc_type: Type,
}

/// A place in memory: a pointer to it, what an unsized place carries
/// beside the pointer, its layout and its alignment.
#[derive(Clone, Copy, PartialEq, Eq, Structural, Debug)]
pub struct PlaceRef {
    pub llval: RValue,
    pub llextra: Option<RValue>,
    pub layout: Layout,
    pub align: Align,
}

/// The value of an operand: in memory, one value, a pair of values, or
/// none at all for a type of size zero.
#[derive(Clone, Copy, PartialEq, Eq, Structural, Debug)]
pub enum OperandValue {
    Ref { ptr: RValue, extra: Option<RValue>, align: Align },
    Immediate { value: RValue },
    Pair { first: RValue, second: RValue },
    ZeroSized,
}

#[derive(Clone, Copy, PartialEq, Eq, Structural, Debug)]
pub struct OperandRef {
    pub val: OperandValue,
    pub layout: Layout,
}

/// The metadata that applies to a loaded scalar.
#[derive(Clone, Copy, PartialEq, Eq, Structural, Debug)]
pub enum LoadMetadata {
    Nothing,
    Range { range: WrappingRange },
    NonNull,
}

/// The number of values an unsigned integer of `bytes` bytes has, for the
/// widths up to eight.
pub open spec fn values_of(bytes: int) -> int {
    if bytes == 1 {
        0x100
    } else if bytes == 2 {
        0x1_0000
    } else if bytes == 4 {
        0x1_0000_0000
    } else {
        0x1_0000_0000_0000_0000
    }
}

/// `size` rounded up to a multiple of `align`, stopping at the largest
/// size that can be held.
pub open spec fn rounded_up(size: int, align: int) -> int {
    if align <= 0 || size % align == 0 {
        size
    } else if size + (align - size % align) > u64::MAX {
        u64::MAX as int
    } else {
        size + (align - size % align)
    }
}

impl WrappingRange {
    pub open spec fn holds(self, v: u128) -> bool {
        if self.start <= self.end {
            self.start <= v && v <= self.end
        } else {
            self.start <= v || v <= self.end
        }
    }

    pub fn contains(self, v: u128) -> (r: bool)
        ensures
            r == self.holds(v),
    {
        if self.start <= self.end {
            self.start <= v && v <= self.end
        } else {
            self.start <= v || v <= self.end
        }
    }

    /// The range holds every value of an unsigned integer of `bytes`
    /// bytes: it ends just before it starts.
    pub open spec fn full_for(self, bytes: int) -> bool {
        if bytes >= 16 {
            if self.end == u128::MAX {
                self.start == 0
            } else {
                self.start == self.end + 1
            }
        } else if bytes == 1 || bytes == 2 || bytes == 4 || bytes == 8 {
            self.start == (self.end + 1) % values_of(bytes)
        } else {
            false
        }
    }

    pub fn is_full_for(self, size: Size) -> (r: bool)
        ensures
            r == self.full_for(size.bytes as int),
    {
        if size.bytes >= 16 {
            if self.end == u128::MAX {
                self.start == 0
            } else {
                self.start == self.end + 1
            }
        } else if size.bytes == 1 {
            if self.end == u128::MAX {
                self.start == 0
            } else {
                self.start == (self.end + 1) % 0x100
            }
        } else if size.bytes == 2 {
            if self.end == u128::MAX {
                self.start == 0
            } else {
                self.start == (self.end + 1) % 0x1_0000
            }
        } else if size.bytes == 4 {
            if self.end == u128::MAX {
                self.start == 0
            } else {
                self.start == (self.end + 1) % 0x1_0000_0000
            }
        } else if size.bytes == 8 {
            if self.end == u128::MAX {
                self.start == 0
            } else {
                self.start == (self.end + 1) % 0x1_0000_0000_0000_0000
            }
        } else {
            false
        }
    }
}

impl Size {
    pub fn align_to(self, align: Align) -> (s: Size)
        ensures
            s.bytes == rounded_up(self.bytes as int, align.bytes as int),
    {
        if align.bytes == 0 {
            self
        } else {
            let rest = self.bytes % align.bytes;
            if rest == 0 {
                self
            } else {
                let more = align.bytes - rest;
                if self.bytes > u64::MAX - more {
                    Size { bytes: u64::MAX }
                } else {
                    Size { bytes: self.bytes + more }
                }
            }
        }
    }
}

impl Scalar {
    /// A boolean is an unsigned byte that holds zero or one.
    pub open spec fn boolean(self) -> bool {
        self.value == (Primitive::Int { bytes: 1, signed: false }) && self.valid_range == (
        WrappingRange { start: 0, end: 1 })
    }

    pub fn is_bool(self) -> (r: bool)
        ensures
            r == self.boolean(),
    {
        match self.value {
            Primitive::Int { bytes, signed } => bytes == 1 && !signed && self.valid_range.start == 0
                && self.valid_range.end == 1,
            _ => false,
        }
    }

    /// Every value of the scalar's size is a valid one.
    pub open spec fn always_valid(self) -> bool {
        self.valid_range.full_for(self.size.bytes as int)
    }

    pub fn is_always_valid(self) -> (r: bool)
        ensures
            r == self.always_valid(),
    {
        self.valid_range.is_full_for(self.size)
    }

    /// The metadata that applies to a load of the scalar: its range for an
    /// integer that has invalid values, that it is not null for a pointer
    /// whose range does not wrap and does not hold zero.
    pub open spec fn load_metadata(self) -> LoadMetadata {
        match self.value {
            Primitive::Int { .. } => if !self.always_valid() {
                LoadMetadata::Range { range: self.valid_range }
            } else {
                LoadMetadata::Nothing
            },
            Primitive::Pointer => if self.valid_range.start < self.valid_range.end
                && !self.valid_range.holds(0) {
                LoadMetadata::NonNull
            } else {
                LoadMetadata::Nothing
            },
            _ => LoadMetadata::Nothing,
        }
    }

    pub fn to_load_metadata(self) -> (r: LoadMetadata)
        ensures
            r == self.load_metadata(),
    {
        match self.value {
            Primitive::Int { .. } => if !self.is_always_valid() {
                LoadMetadata::Range { range: self.valid_range }
            } else {
                LoadMetadata::Nothing
            },
            Primitive::Pointer => if self.valid_range.start < self.valid_range.end
                && !self.valid_range.contains(0) {
                LoadMetadata::NonNull
            } else {
                LoadMetadata::Nothing
            },
            _ => LoadMetadata::Nothing,
        }
    }
}

impl Layout {
    pub open spec fn unsized_(self) -> bool {
        self.abi == (Abi::Aggregate { sized: false })
    }

    pub fn is_unsized(self) -> (r: bool)
        ensures
            r == self.unsized_(),
    {
        match self.abi {
            Abi::Aggregate { sized } => !sized,
            _ => false,
        }
    }

    /// A type of size zero: an uninhabited or a sized aggregate layout of
    /// no bytes.
    pub open spec fn zero_sized(self) -> bool {
        match self.abi {
            Abi::Uninhabited => self.size.bytes == 0,
            Abi::Aggregate { sized } => sized && self.size.bytes == 0,
            _ => false,
        }
    }

    pub fn is_zst(self) -> (r: bool)
        ensures
            r == self.zero_sized(),
    {
        match self.abi {
            Abi::Uninhabited => self.size.bytes == 0,
            Abi::Aggregate { sized } => sized && self.size.bytes == 0,
            _ => false,
        }
    }

    /// A value of the layout is held as one value of the graph.
    pub open spec fn immediate(self) -> bool {
        match self.abi {
            Abi::Scalar { .. } => true,
            Abi::Vector => true,
            Abi::ScalarPair { .. } => false,
            _ => self.zero_sized(),
        }
    }

    pub fn is_gcc_immediate(self) -> (r: bool)
        ensures
            r == self.immediate(),
    {
        match self.abi {
            Abi::Scalar { .. } => true,
            Abi::Vector => true,
            Abi::ScalarPair { .. } => false,
            _ => self.is_zst(),
        }
    }
}

} // verus!
