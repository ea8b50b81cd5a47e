//! Runtime diagnostics: every distinct failure kind of evaluation is a
//! distinct variant carrying the values that name it, so that callers and
//! tests can discriminate without scraping message text.

use vstd::prelude::*;

use crate::types::Type;
use crate::value::Value;

verus! {

/// A runtime failure. Evaluation is fail-fast: the first of these aborts
/// the remainder of the program.
pub enum RuntimeError {
    /// Division by a zero Number.
    DivisionByZero,
    /// An arithmetic result does not fit in a 64-bit signed Number.
    NumericOverflow,
    /// The unary operator was applied to a non-Number.
    BadUnaryOperand,
    /// A binary operator was applied to operands it does not support.
    BadBinaryOperands,
    /// A condition evaluated to something other than a Boolean.
    ConditionNotBoolean,
    /// An index was applied to a value that is neither a list nor a
    /// dict; carries that value.
    NotIndexable { target: Value },
    /// A list was indexed with a non-Number; carries the list's size and
    /// the attempted index value.
    ListIndexNotNumber { len: usize, index: Value },
    /// A list index was negative or past the end; carries the list's size
    /// and the attempted index.
    IndexOutOfBounds { len: usize, index: i64 },
    /// A dict lookup missed; carries the attempted key.
    KeyNotFound { key: Value },
    /// A name was referenced but no visible binding holds it.
    UnboundVariable { name: String },
    /// An assignment targeted a constant or otherwise fixed binding.
    NotReassignable { name: String },
    /// A call targeted a value that is not callable.
    NotCallable,
    /// A call passed the wrong number of arguments to a declared function.
    ArityMismatch { name: String, expected: usize, found: usize },
    /// A built-in collection method was passed the wrong number of
    /// arguments.
    MethodArity { expected: usize, found: usize },
    /// The property is no known method of the target's type.
    UnknownMethod { property: String },
    /// A method call targeted a variable that holds neither a list nor a
    /// dict.
    MethodTargetNotCollection,
    /// A method call targeted something other than a direct variable
    /// reference, which is unsupported.
    ComplexMethodTarget,
    /// A property access stood outside a call position.
    PropertyOutsideCall,
    /// Console input text did not coerce to the declared type.
    InputInvalid { expected: Type, text: String },
    /// The declared type of a console input is not supported there.
    InputUnsupported,
    /// The console input stream ended.
    InputClosed,
    /// A host-registered native callable reported a failure.
    NativeFailure { message: String },
    /// A host-registered native callable returned a malformed value.
    HostValueMalformed,
    /// The evaluation budget was exhausted (deeply nested data, deep
    /// recursion, or a loop that ran longer than the host allows).
    BudgetExhausted,
    /// The construct parses but its evaluation is not yet implemented.
    NotYetImplemented,
    /// A `return` statement ran outside any function call.
    ReturnOutsideFunction,
}

/// Whether the program ran to completion.
pub enum InterpretResult {
    Finished,
    RuntimeError(RuntimeError),
}

} // verus!
