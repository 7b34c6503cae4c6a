//! Error model: compilation failures are fatal and carry the offending
//! token; runtime failures abort a single run.

use vstd::prelude::*;
use vstd::string::StringExecFns;

verus! {

/// What went wrong during compilation.
#[derive(Clone, Copy, Debug, PartialEq, Eq, Structural)]
pub enum CompileErrorKind {
    /// Malformed block or statement shape.
    Parse,
    /// Unknown operation/step/family/signal reference.
    Referential,
    /// Duplicate operation/step/binding/family/signal name.
    Uniqueness,
    /// Malformed action or other stage-specific grammar violation.
    Grammar,
    /// A score literal that does not parse as a number.
    NumericLiteral,
    /// Disallowed keyword or pattern in an operation body.
    Safety,
}

/// A fatal compile-time failure: its class, the offending token's text,
/// and a human-readable message.
#[derive(Debug, PartialEq, Eq)]
pub struct CompileError {
    pub kind: CompileErrorKind,
    pub token: String,
    pub message: String,
}

impl Clone for CompileError {
    fn clone(&self) -> (r: Self)
        ensures
            r == *self,
    {
        CompileError {
            kind: self.kind,
            token: self.token.clone(),
            message: self.message.clone(),
        }
    }
}

impl CompileError {
    pub fn new(kind: CompileErrorKind, token: &str, message: &str) -> (r: CompileError)
        ensures
            r.kind == kind,
            r.token@ == token@,
            r.message@ == message@,
    {
        CompileError {
            kind,
            token: String::from_str(token),
            message: String::from_str(message),
        }
    }
}

/// A failure of one run; the plan aborts and returns no context.
#[derive(Clone, Copy, Debug, PartialEq, Eq, Structural)]
pub enum RuntimeError {
    /// A step named an operation function the registry does not know.
    UnknownOperation,
    /// A predicate referred to a binding no step produced.
    UnknownBinding,
    /// A path named a field the resolved record does not carry.
    UnknownField,
    /// A clinch clause referred to a signal the plan did not evaluate.
    UnknownSignal,
    /// The registered operation function itself failed.
    OperationFailed,
    /// A predicate compared values of incompatible shapes, or a bare
    /// operand was not a boolean.
    TypeMismatch,
    /// An index ran past the end of a byte sequence or record.
    IndexOutOfBounds,
    /// A score or comparison left the exactly representable range.
    NumericOverflow,
}

} // verus!
