//! Type definitions.

use vstd::prelude::*;
use crate::reader::{TypeReader, COLUMN_NAME, COLUMN_NAMESPACE};
use crate::row::{Row, TABLE_TYPE_DEF};

verus! {

/// A handle to one record of the table of type definitions: the database and
/// the row of the record in it.
#[derive(Clone, Copy, Debug)]
pub struct TypeDef<'a> {
    pub reader: &'a TypeReader,
    pub row: Row,
}

impl<'a> TypeDef<'a> {
    /// Whether the row is a type definition of the database.
    pub open spec fn wf(&self) -> bool {
        self.reader.has_type_def(self.row)
    }

    /// Whether the row is a type definition of the database.
    pub fn is_valid(&self) -> (valid: bool)
        ensures
            valid == self.wf(),
    {
        self.row.table == TABLE_TYPE_DEF && (self.row.index as usize)
            < self.reader.type_defs.len()
    }

    /// The namespace and the name of the type, in this order.
    pub fn name(&self) -> (name: (&'a str, &'a str))
        requires
            self.wf(),
        ensures
            name.0@ == self.reader.text(self.row, COLUMN_NAMESPACE),
            name.1@ == self.reader.text(self.row, COLUMN_NAME),
    {
        (self.reader.str(self.row, COLUMN_NAMESPACE), self.reader.str(self.row, COLUMN_NAME))
    }
}

} // verus!
