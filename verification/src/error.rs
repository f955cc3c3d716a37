//! Errors produced by the runtime iterator subsystem.
//!
//! Eager operations short-circuit on the first error; lazy adaptors pass
//! errors through as iterator outputs without terminating. An adaptor that
//! runs a callback wraps the callback's failure with a prefix naming the
//! adaptor.

use vstd::prelude::*;

verus! {

/// A failure raised while driving an iterator or validating arguments.
#[derive(Debug, PartialEq, Eq)]
pub enum RuntimeError {
    /// An argument or a callback result had the wrong type.
    TypeError { expected: String, got: String },
    /// An operation received the wrong number of arguments.
    ArityError { expected: usize, got: usize },
    /// A value was of the right type but unusable (for instance a zero
    /// chunk size).
    ValueError { message: String },
    /// A failure signalled by user code.
    UserError { message: String },
    /// An upstream failure wrapped with a prefix naming the adaptor that
    /// surfaced it.
    CallbackError { prefix: String, inner: Box<RuntimeError> },
}

/// The mathematical shape of a runtime error: each variant with its
/// payload strings as character sequences.
pub enum ErrV {
    TypeE(Seq<char>, Seq<char>),
    ArityE(int, int),
    ValueE(Seq<char>),
    UserE(Seq<char>),
    CallbackE(Seq<char>, Box<ErrV>),
}

pub open spec fn err_view(e: RuntimeError) -> ErrV
    decreases e,
{
    match e {
        RuntimeError::TypeError { expected, got } => ErrV::TypeE(expected@, got@),
        RuntimeError::ArityError { expected, got } => ErrV::ArityE(expected as int, got as int),
        RuntimeError::ValueError { message } => ErrV::ValueE(message@),
        RuntimeError::UserError { message } => ErrV::UserE(message@),
        RuntimeError::CallbackError { prefix, inner } => ErrV::CallbackE(
            prefix@,
            Box::new(err_view(*inner)),
        ),
    }
}

impl RuntimeError {
    /// Wraps this error with a prefix identifying the adaptor or operation
    /// that surfaced it.
    pub fn with_prefix(self, prefix: &str) -> (r: RuntimeError)
        ensures
            err_view(r) == ErrV::CallbackE(prefix@, Box::new(err_view(self))),
    {
        RuntimeError::CallbackError { prefix: prefix.to_owned(), inner: Box::new(self) }
    }

    /// Clones the error; the copy has the same mathematical shape.
    pub fn duplicate(&self) -> (r: RuntimeError)
        ensures
            err_view(r) == err_view(*self),
        decreases *self,
    {
        match self {
            RuntimeError::TypeError { expected, got } => RuntimeError::TypeError {
                expected: expected.clone(),
                got: got.clone(),
            },
            RuntimeError::ArityError { expected, got } => RuntimeError::ArityError {
                expected: *expected,
                got: *got,
            },
            RuntimeError::ValueError { message } => RuntimeError::ValueError {
                message: message.clone(),
            },
            RuntimeError::UserError { message } => RuntimeError::UserError {
                message: message.clone(),
            },
            RuntimeError::CallbackError { prefix, inner } => RuntimeError::CallbackError {
                prefix: prefix.clone(),
                inner: Box::new(inner.duplicate()),
            },
        }
    }
}

} // verus!
