//! Host-defined values and functions: the escape hatch through which an
//! embedder extends the runtime with its own value types and callables.

use vstd::prelude::*;

use crate::expr::{expr_equiv, KFunction};

verus! {

/// A host-defined value type: anything the embedder stores behind the
/// runtime's values, as long as it can name its own type.
pub trait ExternalValue {
    /// The name of the value's type, for error messages and dynamic type
    /// checks.
    fn value_type(&self) -> String;
}

/// The calling convention a host function receives: the argument window's
/// first register and the argument count.
#[derive(Debug, Clone, Copy, PartialEq, Eq, Structural)]
pub struct Args {
    pub register: u8,
    pub count: u8,
}

/// A function the embedder installs into the runtime: its callable body
/// and whether it expects an instance as its first argument.
#[derive(Debug, PartialEq)]
pub struct ExternalFunction {
    pub function: KFunction,
    pub is_instance_function: bool,
}

impl ExternalFunction {
    /// Wraps a callable as a host function.
    pub fn new(function: KFunction, is_instance_function: bool) -> (r: ExternalFunction)
        ensures
            r.function == function,
            r.is_instance_function == is_instance_function,
    {
        ExternalFunction { function, is_instance_function }
    }

    /// Copies the host function; the copy carries an equivalent callable.
    pub fn duplicate(&self) -> (r: ExternalFunction)
        ensures
            r.function.arity == self.function.arity,
            expr_equiv(self.function.body, r.function.body),
            r.is_instance_function == self.is_instance_function,
    {
        ExternalFunction {
            function: self.function.duplicate(),
            is_instance_function: self.is_instance_function,
        }
    }
}

} // verus!
