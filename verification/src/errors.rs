//! Structured error records surfaced to the caller: parse-time errors that
//! poison a definition, trait-bound violations, missing symbols, a missing
//! entry point, and internal dispatch-table failures.

use vstd::prelude::*;

verus! {

/// An error attached to a definition while parsing or verifying it, with the
/// source span it came from.
#[derive(Clone, Debug)]
pub struct ParsingError {
    /// Line and column where the offending range starts.
    pub start_line: u32,
    pub start_column: u32,
    /// Byte offset of the start of the range.
    pub start_offset: u32,
    /// Line and column where the offending range ends.
    pub end_line: u32,
    pub end_column: u32,
    /// Byte offset of the end of the range.
    pub end_offset: u32,
    /// What went wrong, in words.
    pub message: String,
}

impl ParsingError {
    pub fn new(start: (u32, u32), start_offset: u32, end: (u32, u32), end_offset: u32, message: String) -> (r: Self)
        ensures
            r.start_line == start.0,
            r.start_column == start.1,
            r.start_offset == start_offset,
            r.end_line == end.0,
            r.end_column == end.1,
            r.end_offset == end_offset,
            r.message == message,
    {
        ParsingError {
            start_line: start.0,
            start_column: start.1,
            start_offset,
            end_line: end.0,
            end_column: end.1,
            end_offset,
            message,
        }
    }

    /// A copy equal to this error.
    pub fn duplicate(&self) -> (r: ParsingError)
        ensures
            r == *self,
    {
        ParsingError {
            start_line: self.start_line,
            start_column: self.start_column,
            start_offset: self.start_offset,
            end_line: self.end_line,
            end_column: self.end_column,
            end_offset: self.end_offset,
            message: self.message.clone(),
        }
    }
}

/// A generic argument failed one of the trait bounds declared for its
/// parameter: the parameter's name, the trait that was required, and the
/// type that was actually supplied.
#[derive(Clone, Debug)]
pub struct BoundError {
    pub parameter: String,
    pub required_trait: String,
    pub actual_type: String,
}

/// Everything a compilation session can fail with.
#[derive(Clone, Debug)]
pub enum CompileError {
    /// A generic argument does not satisfy a declared trait bound.
    Bound(BoundError),
    /// A referenced name never materialized in the symbol directory.
    SymbolNotFound { name: String },
    /// The well-known entry point is absent from the directory.
    NoEntryPoint,
    /// The verified implementation relation lacks a method the trait declares:
    /// a bug in an upstream phase, fatal to code generation.
    InternalDispatchError { structure: String, target: String, missing_method: String },
    /// A built-in definition's name matches no operation of the catalogue:
    /// a bug in an upstream phase, fatal to code generation.
    UnknownIntrinsic { name: String },
    /// A definition carrying accumulated errors was demanded; the errors are
    /// propagated rather than compiled around.
    Poisoned { errors: Vec<ParsingError> },
}

} // verus!
