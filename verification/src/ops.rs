//! Operators, predicates and orderings: the small vocabularies that lowering
//! requests are phrased in, and the ones the target builder understands.

use vstd::prelude::*;

verus! {

/// A two-operand operator of the target builder.
#[derive(Clone, Copy, PartialEq, Eq, Structural, Debug)]
pub enum BinaryOp {
    Plus,
    Minus,
    Mult,
    Divide,
    Modulo,
    BitwiseAnd,
    BitwiseXor,
    BitwiseOr,
    LogicalAnd,
    LogicalOr,
    LShift,
    RShift,
}

/// A one-operand operator of the target builder.
#[derive(Clone, Copy, PartialEq, Eq, Structural, Debug)]
pub enum UnaryOp {
    Minus,
    BitwiseNegate,
    LogicalNegate,
    Abs,
}

/// A comparison of the target builder. The operand types decide whether it
/// compares signed, unsigned or floating values.
#[derive(Clone, Copy, PartialEq, Eq, Structural, Debug)]
pub enum ComparisonOp {
    Equals,
    NotEquals,
    LessThan,
    LessThanEquals,
    GreaterThan,
    GreaterThanEquals,
}

/// Integer comparison as the frontend names it.
#[derive(Clone, Copy, PartialEq, Eq, Structural, Debug)]
pub enum IntPredicate {
    IntEQ,
    IntNE,
    IntUGT,
    IntUGE,
    IntULT,
    IntULE,
    IntSGT,
    IntSGE,
    IntSLT,
    IntSLE,
}

/// Floating comparison as the frontend names it.
#[derive(Clone, Copy, PartialEq, Eq, Structural, Debug)]
pub enum RealPredicate {
    RealPredicateFalse,
    RealOEQ,
    RealOGT,
    RealOGE,
    RealOLT,
    RealOLE,
    RealONE,
    RealORD,
    RealUNO,
    RealUEQ,
    RealUGT,
    RealUGE,
    RealULT,
    RealULE,
    RealUNE,
    RealPredicateTrue,
}

/// Memory ordering as the frontend names it.
#[derive(Clone, Copy, PartialEq, Eq, Structural, Debug)]
pub enum AtomicOrdering {
    NotAtomic,
    Unordered,
    Monotonic,
    Acquire,
    Release,
    AcquireRelease,
    SequentiallyConsistent,
}

/// Memory ordering as the atomic builtins of the target take it.
#[derive(Clone, Copy, PartialEq, Eq, Structural, Debug)]
pub enum MemOrdering {
    Relaxed,
    Consume,
    Acquire,
    Release,
    AcqRel,
    SeqCst,
}

/// Read-modify-write operation of an atomic request.
#[derive(Clone, Copy, PartialEq, Eq, Structural, Debug)]
pub enum AtomicRmwBinOp {
    AtomicXchg,
    AtomicAdd,
    AtomicSub,
    AtomicAnd,
    AtomicNand,
    AtomicOr,
    AtomicXor,
    AtomicMax,
    AtomicMin,
    AtomicUMax,
    AtomicUMin,
}

/// The fetch-and-modify builtins the target provides directly.
#[derive(Clone, Copy, PartialEq, Eq, Structural, Debug)]
pub enum FetchOp {
    Exchange,
    Add,
    Sub,
    And,
    Nand,
    Or,
    Xor,
}

/// Which extremum an emulated atomic keeps, and whether of signed
/// (`Max`, `Min`) or of unsigned integers (`UMax`, `UMin`).
#[derive(Clone, Copy, PartialEq, Eq, Structural, Debug)]
pub enum ExtremumOperation {
    Max,
    Min,
    UMax,
    UMin,
}

/// How far a fence reaches.
#[derive(Clone, Copy, PartialEq, Eq, Structural, Debug)]
pub enum SynchronizationScope {
    SingleThread,
    CrossThread,
}

/// Arithmetic whose overflow is reported beside the result.
#[derive(Clone, Copy, PartialEq, Eq, Structural, Debug)]
pub enum OverflowOp {
    Add,
    Sub,
    Mul,
}

impl MemOrdering {
    /// The integer the builtins expect for this ordering.
    pub open spec fn code(self) -> int {
        match self {
            MemOrdering::Relaxed => 0,
            MemOrdering::Consume => 1,
            MemOrdering::Acquire => 2,
            MemOrdering::Release => 3,
            MemOrdering::AcqRel => 4,
            MemOrdering::SeqCst => 5,
        }
    }

    pub fn to_code(self) -> (r: i32)
        ensures
            r == self.code(),
    {
        match self {
            MemOrdering::Relaxed => 0,
            MemOrdering::Consume => 1,
            MemOrdering::Acquire => 2,
            MemOrdering::Release => 3,
            MemOrdering::AcqRel => 4,
            MemOrdering::SeqCst => 5,
        }
    }
}

impl AtomicOrdering {
    /// The target ordering a frontend ordering is lowered to. The three
    /// weakest frontend orderings all become relaxed: the target runtime
    /// draws no finer line.
    pub open spec fn mem_ordering(self) -> MemOrdering {
        match self {
            AtomicOrdering::NotAtomic => MemOrdering::Relaxed,
            AtomicOrdering::Unordered => MemOrdering::Relaxed,
            AtomicOrdering::Monotonic => MemOrdering::Relaxed,
            AtomicOrdering::Acquire => MemOrdering::Acquire,
            AtomicOrdering::Release => MemOrdering::Release,
            AtomicOrdering::AcquireRelease => MemOrdering::AcqRel,
            AtomicOrdering::SequentiallyConsistent => MemOrdering::SeqCst,
        }
    }

    /// The ordering used for the plain load that starts an emulated
    /// read-modify-write: a load cannot release, so releasing orderings
    /// acquire instead.
    pub open spec fn load_ordering(self) -> AtomicOrdering {
        match self {
            AtomicOrdering::AcquireRelease => AtomicOrdering::Acquire,
            AtomicOrdering::Release => AtomicOrdering::Acquire,
            _ => self,
        }
    }

    pub fn to_mem_ordering(self) -> (r: MemOrdering)
        ensures
            r == self.mem_ordering(),
    {
        match self {
            AtomicOrdering::NotAtomic => MemOrdering::Relaxed,
            AtomicOrdering::Unordered => MemOrdering::Relaxed,
            AtomicOrdering::Monotonic => MemOrdering::Relaxed,
            AtomicOrdering::Acquire => MemOrdering::Acquire,
            AtomicOrdering::Release => MemOrdering::Release,
            AtomicOrdering::AcquireRelease => MemOrdering::AcqRel,
            AtomicOrdering::SequentiallyConsistent => MemOrdering::SeqCst,
        }
    }

    /// The integer code handed to the atomic builtins.
    pub fn to_gcc(self) -> (r: i32)
        ensures
            r == self.mem_ordering().code(),
            0 <= r <= 5,
    {
        self.to_mem_ordering().to_code()
    }

    pub fn to_load_ordering(self) -> (r: AtomicOrdering)
        ensures
            r == self.load_ordering(),
            r != AtomicOrdering::Release,
            r != AtomicOrdering::AcquireRelease,
    {
        match self {
            AtomicOrdering::AcquireRelease => AtomicOrdering::Acquire,
            AtomicOrdering::Release => AtomicOrdering::Acquire,
            _ => self,
        }
    }
}

impl ExtremumOperation {
    /// The test that decides whether the stored value must be replaced: for
    /// a maximum the stored value is below the candidate, for a minimum
    /// above it. On a tie nothing is replaced.
    pub open spec fn replace_test(self) -> ComparisonOp {
        match self {
            ExtremumOperation::Max => ComparisonOp::LessThan,
            ExtremumOperation::UMax => ComparisonOp::LessThan,
            ExtremumOperation::Min => ComparisonOp::GreaterThan,
            ExtremumOperation::UMin => ComparisonOp::GreaterThan,
        }
    }

    pub fn to_replace_test(self) -> (r: ComparisonOp)
        ensures
            r == self.replace_test(),
    {
        match self {
            ExtremumOperation::Max => ComparisonOp::LessThan,
            ExtremumOperation::UMax => ComparisonOp::LessThan,
            ExtremumOperation::Min => ComparisonOp::GreaterThan,
            ExtremumOperation::UMin => ComparisonOp::GreaterThan,
        }
    }

    /// Whether the extremum is one of signed integers: the test is then
    /// made in the type of the operand, not in the unsigned type in which
    /// the builtins hold what they load.
    pub open spec fn signed(self) -> bool {
        self == ExtremumOperation::Max || self == ExtremumOperation::Min
    }

    pub fn is_signed(self) -> (r: bool)
        ensures
            r == self.signed(),
    {
        match self {
            ExtremumOperation::Max => true,
            ExtremumOperation::Min => true,
            _ => false,
        }
    }
}

/// Lowering of a frontend predicate to a comparison of the target builder.
pub trait ToGccComp {
    /// Whether the predicate has a comparison at all.
    spec fn has_comparison(&self) -> bool;

    /// The comparison it is lowered to.
    spec fn comparison(&self) -> ComparisonOp;

    fn to_gcc_comparison(&self) -> (r: ComparisonOp)
        requires
            self.has_comparison(),
        ensures
            r == self.comparison(),
    ;
}

impl ToGccComp for IntPredicate {
    open spec fn has_comparison(&self) -> bool {
        true
    }

    /// Signed and unsigned predicates share a comparison: the operand types
    /// carry the signedness.
    open spec fn comparison(&self) -> ComparisonOp {
        match *self {
            IntPredicate::IntEQ => ComparisonOp::Equals,
            IntPredicate::IntNE => ComparisonOp::NotEquals,
            IntPredicate::IntUGT => ComparisonOp::GreaterThan,
            IntPredicate::IntUGE => ComparisonOp::GreaterThanEquals,
            IntPredicate::IntULT => ComparisonOp::LessThan,
            IntPredicate::IntULE => ComparisonOp::LessThanEquals,
            IntPredicate::IntSGT => ComparisonOp::GreaterThan,
            IntPredicate::IntSGE => ComparisonOp::GreaterThanEquals,
            IntPredicate::IntSLT => ComparisonOp::LessThan,
            IntPredicate::IntSLE => ComparisonOp::LessThanEquals,
        }
    }

    fn to_gcc_comparison(&self) -> (r: ComparisonOp) {
        match *self {
            IntPredicate::IntEQ => ComparisonOp::Equals,
            IntPredicate::IntNE => ComparisonOp::NotEquals,
            IntPredicate::IntUGT => ComparisonOp::GreaterThan,
            IntPredicate::IntUGE => ComparisonOp::GreaterThanEquals,
            IntPredicate::IntULT => ComparisonOp::LessThan,
            IntPredicate::IntULE => ComparisonOp::LessThanEquals,
            IntPredicate::IntSGT => ComparisonOp::GreaterThan,
            IntPredicate::IntSGE => ComparisonOp::GreaterThanEquals,
            IntPredicate::IntSLT => ComparisonOp::LessThan,
            IntPredicate::IntSLE => ComparisonOp::LessThanEquals,
        }
    }
}

impl ToGccComp for RealPredicate {
    /// The constant predicates and the pure ordered/unordered tests have no
    /// comparison in the target builder.
    open spec fn has_comparison(&self) -> bool {
        match *self {
            RealPredicate::RealPredicateFalse => false,
            RealPredicate::RealORD => false,
            RealPredicate::RealUNO => false,
            RealPredicate::RealPredicateTrue => false,
            _ => true,
        }
    }

    /// Ordered and unordered predicates of one relation share the
    /// comparison of that relation.
    open spec fn comparison(&self) -> ComparisonOp {
        match *self {
            RealPredicate::RealOEQ => ComparisonOp::Equals,
            RealPredicate::RealOGT => ComparisonOp::GreaterThan,
            RealPredicate::RealOGE => ComparisonOp::GreaterThanEquals,
            RealPredicate::RealOLT => ComparisonOp::LessThan,
            RealPredicate::RealOLE => ComparisonOp::LessThanEquals,
            RealPredicate::RealONE => ComparisonOp::NotEquals,
            RealPredicate::RealUEQ => ComparisonOp::Equals,
            RealPredicate::RealUGT => ComparisonOp::GreaterThan,
            RealPredicate::RealUGE => ComparisonOp::GreaterThanEquals,
            RealPredicate::RealULT => ComparisonOp::LessThan,
            RealPredicate::RealULE => ComparisonOp::LessThanEquals,
            RealPredicate::RealUNE => ComparisonOp::NotEquals,
            _ => ComparisonOp::Equals,
        }
    }

    fn to_gcc_comparison(&self) -> (r: ComparisonOp) {
        match *self {
            RealPredicate::RealOEQ => ComparisonOp::Equals,
            RealPredicate::RealOGT => ComparisonOp::GreaterThan,
            RealPredicate::RealOGE => ComparisonOp::GreaterThanEquals,
            RealPredicate::RealOLT => ComparisonOp::LessThan,
            RealPredicate::RealOLE => ComparisonOp::LessThanEquals,
            RealPredicate::RealONE => ComparisonOp::NotEquals,
            RealPredicate::RealUEQ => ComparisonOp::Equals,
            RealPredicate::RealUGT => ComparisonOp::GreaterThan,
            RealPredicate::RealUGE => ComparisonOp::GreaterThanEquals,
            RealPredicate::RealULT => ComparisonOp::LessThan,
            RealPredicate::RealULE => ComparisonOp::LessThanEquals,
            RealPredicate::RealUNE => ComparisonOp::NotEquals,
            _ => ComparisonOp::Equals,
        }
    }
}

} // verus!
