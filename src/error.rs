use vstd::prelude::*;

use crate::index::ArgumentIndex;

verus! {

/// Every failure that binding, expansion, encoding and reduction can report.
#[derive(Debug, Clone, PartialEq, Eq)]
pub enum Error {
    /// Malformed placeholder syntax; `start..end` is the offending span (in chars).
    Parse { start: usize, end: usize, message: String },
    /// A placeholder refers to an index or name that the argument bag lacks.
    UnknownArgument(ArgumentIndex),
    /// A placeholder asks for expansion but its value is not a sequence.
    ExpectedVector(ArgumentIndex),
    /// A value's own encode step failed.
    Encode(String),
    /// An encoded length does not fit the 32-bit signed wire length.
    Overflow(usize),
    /// A backend type has no entry in the reduced model.
    UnsupportedType(String),
    /// A column whose type has no entry in the reduced model.
    ColumnDecode { index: String, type_desc: String },
    /// A statement parameter whose type has no entry in the reduced model.
    UnsupportedParameter { position: usize, param_type: String },
    /// A server type identifier could not be resolved.
    Lookup(String),
}

} // verus!
