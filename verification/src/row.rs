//! Row identities.

use vstd::prelude::*;
use std::cmp::Ordering;

verus! {

/// The table of the module itself.
pub const TABLE_MODULE: u16 = 0x00;

/// The table of type references.
pub const TABLE_TYPE_REF: u16 = 0x01;

/// The table of type definitions.
pub const TABLE_TYPE_DEF: u16 = 0x02;

/// The table of references to other modules of the same assembly.
pub const TABLE_MODULE_REF: u16 = 0x1a;

/// The table of references to other assemblies.
pub const TABLE_ASSEMBLY_REF: u16 = 0x23;

/// The identity of one record of the database: a table and a position in it,
/// counted from zero. A row owns nothing and means something only against the
/// database it was taken from.
#[derive(Clone, Copy, Debug, PartialEq, Eq, Structural, Ord, Hash)]
pub struct Row {
    pub index: u32,
    pub table: u16,
}

impl Row {
    /// Whether `self` comes before `other`: by position first, by table among
    /// rows at the same position.
    pub open spec fn precedes(self, other: Row) -> bool {
        self.index < other.index || (self.index == other.index && self.table < other.table)
    }

    /// Rows are totally ordered: of two rows one comes first or they are the
    /// same row, and the order carries over a row in between.
    pub proof fn lemma_totally_ordered(a: Row, b: Row, c: Row)
        ensures
            a.precedes(b) || b.precedes(a) || a == b,
            !(a.precedes(b) && b.precedes(a)),
            !a.precedes(a),
            a.precedes(b) && b.precedes(c) ==> a.precedes(c),
    {
    }

    pub fn new(index: u32, table: u16) -> (row: Row)
        ensures
            row == (Row { index, table }),
    {
        Row { index, table }
    }
}

impl PartialOrd for Row {
    fn partial_cmp(&self, other: &Row) -> (r: Option<Ordering>) {
        if self.index < other.index {
            Some(Ordering::Less)
        } else if self.index > other.index {
            Some(Ordering::Greater)
        } else if self.table < other.table {
            Some(Ordering::Less)
        } else if self.table > other.table {
            Some(Ordering::Greater)
        } else {
            Some(Ordering::Equal)
        }
    }
}

impl vstd::std_specs::cmp::PartialOrdSpecImpl for Row {
    open spec fn obeys_partial_cmp_spec() -> bool {
        true
    }

    open spec fn partial_cmp_spec(&self, other: &Row) -> Option<Ordering> {
        if self.precedes(*other) {
            Some(Ordering::Less)
        } else if other.precedes(*self) {
            Some(Ordering::Greater)
        } else {
            Some(Ordering::Equal)
        }
    }
}

} // verus!
