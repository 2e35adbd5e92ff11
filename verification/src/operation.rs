//! Operation code tables: each closed set of operations is bound to a dense
//! range of codes that starts at 0.

use vstd::prelude::*;

verus! {

/// Arithmetic operations on two registers.
#[derive(Debug, Clone, Copy, PartialEq, Eq, Structural)]
pub enum BinaryOperation {
    Add,
    Sub,
    Div,
    Mul,
}

/// A code that names no binary operation.
#[derive(Debug, Clone, PartialEq, Eq, Structural)]
pub struct BinaryOperationError;

/// Operations on one register.
#[derive(Debug, Clone, Copy, PartialEq, Eq, Structural)]
pub enum UnaryOperation {
    Neg,
}

/// A code that names no unary operation.
#[derive(Debug, Clone, PartialEq, Eq, Structural)]
pub struct UnaryOperationError;

impl BinaryOperation {
    /// The code of an operation: Add=0, Sub=1, Div=2, Mul=3.
    pub open spec fn spec_code(self) -> u8 {
        match self {
            BinaryOperation::Add => 0,
            BinaryOperation::Sub => 1,
            BinaryOperation::Div => 2,
            BinaryOperation::Mul => 3,
        }
    }

    /// The operation that a code names, if any.
    pub open spec fn spec_from_code(code: u8) -> Option<BinaryOperation> {
        if code == 0 {
            Some(BinaryOperation::Add)
        } else if code == 1 {
            Some(BinaryOperation::Sub)
        } else if code == 2 {
            Some(BinaryOperation::Div)
        } else if code == 3 {
            Some(BinaryOperation::Mul)
        } else {
            None
        }
    }

    /// The code of this operation.
    pub fn code(self) -> (code: u8)
        ensures
            code == self.spec_code(),
    {
        match self {
            BinaryOperation::Add => 0,
            BinaryOperation::Sub => 1,
            BinaryOperation::Div => 2,
            BinaryOperation::Mul => 3,
        }
    }

    /// Looks a code up in the table; a code above 3 is refused.
    pub fn try_from_code(code: u8) -> (res: Result<BinaryOperation, BinaryOperationError>)
        ensures
            res == match BinaryOperation::spec_from_code(code) {
                Some(op) => Ok::<BinaryOperation, BinaryOperationError>(op),
                None => Err(BinaryOperationError),
            },
    {
        match code {
            0 => Ok(BinaryOperation::Add),
            1 => Ok(BinaryOperation::Sub),
            2 => Ok(BinaryOperation::Div),
            3 => Ok(BinaryOperation::Mul),
            _ => Err(BinaryOperationError),
        }
    }

    /// The table is reversible: an operation's code names that operation, the
    /// codes are exactly 0 to 3, and a code that names an operation is that
    /// operation's code.
    pub proof fn lemma_code_table(op: BinaryOperation, code: u8)
        ensures
            BinaryOperation::spec_from_code(op.spec_code()) == Some(op),
            op.spec_code() <= 3,
            BinaryOperation::spec_from_code(code) is Some <==> code <= 3,
            BinaryOperation::spec_from_code(code) == Some(op) ==> op.spec_code() == code,
    {
    }
}

impl UnaryOperation {
    /// The code of an operation: Neg=0.
    pub open spec fn spec_code(self) -> u8 {
        match self {
            UnaryOperation::Neg => 0,
        }
    }

    /// The operation that a code names, if any.
    pub open spec fn spec_from_code(code: u8) -> Option<UnaryOperation> {
        if code == 0 {
            Some(UnaryOperation::Neg)
        } else {
            None
        }
    }

    /// The code of this operation.
    pub fn code(self) -> (code: u8)
        ensures
            code == self.spec_code(),
    {
        match self {
            UnaryOperation::Neg => 0,
        }
    }

    /// Looks a code up in the table; a code other than 0 is refused.
    pub fn try_from_code(code: u8) -> (res: Result<UnaryOperation, UnaryOperationError>)
        ensures
            res == match UnaryOperation::spec_from_code(code) {
                Some(op) => Ok::<UnaryOperation, UnaryOperationError>(op),
                None => Err(UnaryOperationError),
            },
    {
        match code {
            0 => Ok(UnaryOperation::Neg),
            _ => Err(UnaryOperationError),
        }
    }

    /// The table is reversible: an operation's code names that operation, the
    /// only code is 0, and a code that names an operation is that operation's
    /// code.
    pub proof fn lemma_code_table(op: UnaryOperation, code: u8)
        ensures
            UnaryOperation::spec_from_code(op.spec_code()) == Some(op),
            op.spec_code() == 0,
            UnaryOperation::spec_from_code(code) is Some <==> code == 0,
            UnaryOperation::spec_from_code(code) == Some(op) ==> op.spec_code() == code,
    {
    }
}

/// The conversions of std, by the same tables.
impl TryFrom<u8> for BinaryOperation {
    type Error = BinaryOperationError;

    fn try_from(code: u8) -> (res: Result<Self, Self::Error>) {
        BinaryOperation::try_from_code(code)
    }
}

impl vstd::std_specs::convert::TryFromSpecImpl<u8> for BinaryOperation {
    open spec fn obeys_try_from_spec() -> bool {
        true
    }

    open spec fn try_from_spec(code: u8) -> Result<Self, Self::Error> {
        match BinaryOperation::spec_from_code(code) {
            Some(op) => Ok(op),
            None => Err(BinaryOperationError),
        }
    }
}

impl From<BinaryOperation> for u8 {
    fn from(op: BinaryOperation) -> (code: u8) {
        op.code()
    }
}

impl vstd::std_specs::convert::FromSpecImpl<BinaryOperation> for u8 {
    open spec fn obeys_from_spec() -> bool {
        true
    }

    open spec fn from_spec(op: BinaryOperation) -> u8 {
        op.spec_code()
    }
}

impl TryFrom<u8> for UnaryOperation {
    type Error = UnaryOperationError;

    fn try_from(code: u8) -> (res: Result<Self, Self::Error>) {
        UnaryOperation::try_from_code(code)
    }
}

impl vstd::std_specs::convert::TryFromSpecImpl<u8> for UnaryOperation {
    open spec fn obeys_try_from_spec() -> bool {
        true
    }

    open spec fn try_from_spec(code: u8) -> Result<Self, Self::Error> {
        match UnaryOperation::spec_from_code(code) {
            Some(op) => Ok(op),
            None => Err(UnaryOperationError),
        }
    }
}

impl From<UnaryOperation> for u8 {
    fn from(op: UnaryOperation) -> (code: u8) {
        op.code()
    }
}

impl vstd::std_specs::convert::FromSpecImpl<UnaryOperation> for u8 {
    open spec fn obeys_from_spec() -> bool {
        true
    }

    open spec fn from_spec(op: UnaryOperation) -> u8 {
        op.spec_code()
    }
}

} // verus!
