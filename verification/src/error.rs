use vstd::prelude::*;

verus! {

/// A semantic error raised while lowering a compile unit to IR.
///
/// The taxonomy is closed: every fallible step of generation reports one of
/// these kinds, with no payload; rendering them is the caller's business.
#[derive(Debug, Clone, Copy, PartialEq, Eq, Structural)]
pub enum Error {
    /// An identifier was defined twice in the same scope.
    DuplicatedDef,
    /// An identifier was not found in any enclosing scope.
    SymbolNotFound,
    /// A constant expression was required but did not fold.
    FailedToEval,
    /// An array dimension folded to a value below one.
    InvalidArrayLen,
    /// An initializer did not match the shape of the declared type.
    InvalidInit,
    /// An assignment targeted a whole array.
    ArrayAssign,
    /// A `break` or `continue` appeared outside of any loop.
    NotInLoop,
    /// A `return` carried a value inside a function declared void.
    RetValInVoidFunc,
    /// An indexing step was applied to a plain integer.
    DerefInt,
    /// The result of a void function call was used as a value.
    UseVoidValue,
    /// A call's arguments did not match the callee's parameters.
    ArgMismatch,
    /// An aggregate value was used in integer arithmetic.
    NonIntCalc,
}

impl Error {
    /// The fixed display text for this error kind.
    pub fn message(&self) -> (r: &'static str)
        ensures
            *self == Error::DuplicatedDef ==> r@ == "duplicated symbol definition"@,
            *self == Error::SymbolNotFound ==> r@ == "symbol not found"@,
            *self == Error::FailedToEval ==> r@ == "failed to evaluate constant"@,
            *self == Error::InvalidArrayLen ==> r@ == "invalid array length"@,
            *self == Error::InvalidInit ==> r@ == "invalid initializer"@,
            *self == Error::ArrayAssign ==> r@ == "assigning to array"@,
            *self == Error::NotInLoop ==> r@ == "using break/continue outside of loop"@,
            *self == Error::RetValInVoidFunc ==> r@ == "returning value in void function"@,
            *self == Error::DerefInt ==> r@ == "dereferencing an integer"@,
            *self == Error::UseVoidValue ==> r@ == "using a void value"@,
            *self == Error::ArgMismatch ==> r@ == "argument mismatch"@,
            *self == Error::NonIntCalc ==> r@ == "non-integer calculation"@,
    {
        match self {
            Error::DuplicatedDef => "duplicated symbol definition",
            Error::SymbolNotFound => "symbol not found",
            Error::FailedToEval => "failed to evaluate constant",
            Error::InvalidArrayLen => "invalid array length",
            Error::InvalidInit => "invalid initializer",
            Error::ArrayAssign => "assigning to array",
            Error::NotInLoop => "using break/continue outside of loop",
            Error::RetValInVoidFunc => "returning value in void function",
            Error::DerefInt => "dereferencing an integer",
            Error::UseVoidValue => "using a void value",
            Error::ArgMismatch => "argument mismatch",
            Error::NonIntCalc => "non-integer calculation",
        }
    }
}

} // verus!
