//! The error taxonomy of the generator. Every error is fatal: generation
//! aborts with no partial output.

use vstd::prelude::*;

verus! {

/// Spec-level model of a generation error.
pub enum GenErrorV {
    /// An argument references a state variable absent from its service's table;
    /// carries the referenced name.
    SchemaInconsistency(Seq<char>),
    /// A state variable's declared wire type is outside the fixed mapping
    /// table; carries the literal wire type.
    UnmappedType(Seq<char>),
    /// A service type string has fewer than four colon-delimited segments;
    /// carries the offending service type.
    MalformedServiceType(Seq<char>),
}

/// A fatal generation error. Each variant carries the offending string.
#[derive(Debug)]
pub enum GenError {
    /// An argument references a state variable absent from its service's table.
    SchemaInconsistency(String),
    /// A state variable's declared wire type is outside the fixed mapping
    /// table; the literal wire type is surfaced.
    UnmappedType(String),
    /// A service type string has fewer than four colon-delimited segments.
    MalformedServiceType(String),
}

impl View for GenError {
    type V = GenErrorV;

    open spec fn view(&self) -> GenErrorV {
        match self {
            GenError::SchemaInconsistency(s) => GenErrorV::SchemaInconsistency(s@),
            GenError::UnmappedType(s) => GenErrorV::UnmappedType(s@),
            GenError::MalformedServiceType(s) => GenErrorV::MalformedServiceType(s@),
        }
    }
}

} // verus!
