//! Resolution of type references in a loaded metadata database, and the
//! identifier casing used when names of resolved types are written out.

pub mod error;
pub mod reader;
pub mod row;
pub mod to_case;
pub mod type_def;
pub mod type_ref;
pub mod unicode;

pub use error::{ResolveError, ResolveFailure};
pub use reader::{ResolutionScope, TypeDefRecord, TypeReader, TypeRefRecord};
pub use row::Row;
pub use to_case::{append, method_to_snake, to_snake, to_upper, Case, MethodKind};
pub use type_def::TypeDef;
pub use type_ref::TypeRef;
