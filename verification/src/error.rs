//! Why a type reference could not be resolved.

use vstd::prelude::*;
use crate::row::Row;

verus! {

/// A failure to resolve one type reference. Each kind says that the database
/// is malformed, or that the reference leaves what was loaded; none can be
/// mended by trying again.
#[derive(Clone, Debug, PartialEq, Eq)]
pub enum ResolveError {
    /// The scope column of `row` cannot be decoded: `row` is no type
    /// reference of the database, or the scope points at no row.
    ScopeDecode { row: Row },
    /// The chain of enclosing types that starts at the reference is longer
    /// than the table of type references, so it runs in a circle; `row` is
    /// where the walk gave up.
    ScopeCycle { row: Row },
    /// No top-level type definition carries this namespace and name.
    TopLevelLookup { namespace: String, name: String },
    /// The type named `enclosing` has no nested type called `name`.
    NestedLookup { enclosing: String, name: String },
}

/// A `ResolveError` with its texts as sequences of characters.
pub enum ResolveFailure {
    ScopeDecode { row: Row },
    ScopeCycle { row: Row },
    TopLevelLookup { namespace: Seq<char>, name: Seq<char> },
    NestedLookup { enclosing: Seq<char>, name: Seq<char> },
}

impl View for ResolveError {
    type V = ResolveFailure;

    open spec fn view(&self) -> ResolveFailure {
        match *self {
            ResolveError::ScopeDecode { row } => ResolveFailure::ScopeDecode { row },
            ResolveError::ScopeCycle { row } => ResolveFailure::ScopeCycle { row },
            ResolveError::TopLevelLookup { namespace, name } => ResolveFailure::TopLevelLookup {
                namespace: namespace@,
                name: name@,
            },
            ResolveError::NestedLookup { enclosing, name } => ResolveFailure::NestedLookup {
                enclosing: enclosing@,
                name: name@,
            },
        }
    }
}

} // verus!
