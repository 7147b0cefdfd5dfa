//! The failures that evaluation reports. Any of them aborts the compilation.
use vstd::prelude::*;

use crate::builtins::Builtin;
use crate::context::ContextChange;
use crate::value::CodeArea;

verus! {

#[derive(Debug)]
pub enum RuntimeError {
    /// A call gave another number of arguments than the operation takes.
    ArityError { expected: usize, found: usize, info: CodeArea },
    /// A value of another type than the one expected; `found` is its type tag.
    TypeError { expected: String, found: u16, val_def: CodeArea, info: CodeArea },
    /// An attempt to update a value that is not mutable.
    MutabilityError { val_def: CodeArea, info: CodeArea },
    /// An attempt to update a value from a branch that targets another group
    /// than the one the value lives under.
    ContextChangeMutateError { val_def: CodeArea, context_changes: Vec<ContextChange>, info: CodeArea },
    /// A built-in that may not run; `needs_flag` when it is unsafe and was not allowed.
    PermissionError { builtin: Builtin, needs_flag: bool, info: CodeArea },
    /// A rule of the language that the arguments break.
    CustomError { message: String, info: CodeArea },
    /// A failure inside a built-in operation.
    BuiltinError { message: String, info: CodeArea },
}

impl RuntimeError {
    pub fn builtin(message: &str, info: CodeArea) -> (r: Self)
        ensures
            (r matches RuntimeError::BuiltinError { message: m, info: i } && m@ == message@ && i == info),
    {
        RuntimeError::BuiltinError { message: message.to_owned(), info }
    }

    pub fn custom(message: &str, info: CodeArea) -> (r: Self)
        ensures
            (r matches RuntimeError::CustomError { message: m, info: i } && m@ == message@ && i == info),
    {
        RuntimeError::CustomError { message: message.to_owned(), info }
    }

    pub fn type_error(expected: &str, found: u16, val_def: CodeArea, info: CodeArea) -> (r: Self)
        ensures
            r matches RuntimeError::TypeError { found: f, .. } && f == found,
    {
        RuntimeError::TypeError { expected: expected.to_owned(), found, val_def, info }
    }
}

} // verus!
