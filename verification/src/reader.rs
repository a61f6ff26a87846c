//! The loaded metadata database, as far as type references read it.

use vstd::prelude::*;
use crate::error::{ResolveError, ResolveFailure};
use crate::row::{Row, TABLE_ASSEMBLY_REF, TABLE_MODULE, TABLE_MODULE_REF, TABLE_TYPE_DEF, TABLE_TYPE_REF};
use crate::type_def::TypeDef;
use crate::type_ref::TypeRef;
use crate::unicode::same_text;

verus! {

/// The column of a type reference that holds its resolution scope.
pub const COLUMN_SCOPE: u32 = 0;

/// The column of a type reference or definition that holds its name.
pub const COLUMN_NAME: u32 = 1;

/// The column of a type reference or definition that holds its namespace.
pub const COLUMN_NAMESPACE: u32 = 2;

/// One record of the table of type references.
#[derive(Clone, Debug)]
pub struct TypeRefRecord {
    /// The resolution scope as a coded index: the two low bits say which
    /// table the scope lies in, the bits above them give the row in that
    /// table, counted from one.
    pub scope: u32,
    pub name: String,
    pub namespace: String,
}

/// One record of the table of type definitions.
#[derive(Clone, Debug)]
pub struct TypeDefRecord {
    pub name: String,
    pub namespace: String,
}

/// The database: loaded once, read-only afterwards.
#[derive(Clone, Debug)]
pub struct TypeReader {
    /// The number of rows in the module table.
    pub modules: u32,
    /// The number of rows in the table of module references.
    pub module_refs: u32,
    /// The number of rows in the table of assembly references.
    pub assembly_refs: u32,
    pub type_refs: Vec<TypeRefRecord>,
    pub type_defs: Vec<TypeDefRecord>,
    /// For the type definition at each position, the rows of the types nested
    /// directly in it, in the order they were found. Positions past the end
    /// have no nested types.
    pub nested_types: Vec<Vec<Row>>,
}

/// What the scope column of a type reference means: where the type it names
/// is defined.
#[derive(Clone, Copy, Debug)]
pub enum ResolutionScope<'a> {
    /// In the module itself.
    Module(Row),
    /// In another module of the same assembly.
    ModuleRef(Row),
    /// In another assembly.
    AssemblyRef(Row),
    /// Inside another type, which the scope names by a reference of its own.
    TypeRef(TypeRef<'a>),
}

/// The table that a scope tag stands for.
pub open spec fn scope_table(tag: u32) -> u16 {
    if tag == 0 {
        TABLE_MODULE
    } else if tag == 1 {
        TABLE_MODULE_REF
    } else if tag == 2 {
        TABLE_ASSEMBLY_REF
    } else {
        TABLE_TYPE_REF
    }
}

impl TypeReader {
    pub open spec fn has_type_ref(&self, row: Row) -> bool {
        row.table == TABLE_TYPE_REF && row.index < self.type_refs@.len()
    }

    pub open spec fn has_type_def(&self, row: Row) -> bool {
        row.table == TABLE_TYPE_DEF && row.index < self.type_defs@.len()
    }

    /// Whether `row` is a record of this database.
    pub open spec fn has_row(&self, row: Row) -> bool {
        if row.table == TABLE_MODULE {
            row.index < self.modules
        } else if row.table == TABLE_MODULE_REF {
            row.index < self.module_refs
        } else if row.table == TABLE_ASSEMBLY_REF {
            row.index < self.assembly_refs
        } else {
            self.has_type_ref(row) || self.has_type_def(row)
        }
    }

    /// Whether `column` of `row` holds a text.
    pub open spec fn has_str(&self, row: Row, column: u32) -> bool {
        (self.has_type_ref(row) || self.has_type_def(row)) && (column == COLUMN_NAME || column
            == COLUMN_NAMESPACE)
    }

    /// The text in `column` of `row`.
    pub open spec fn text(&self, row: Row, column: u32) -> Seq<char> {
        if row.table == TABLE_TYPE_REF {
            if column == COLUMN_NAME {
                self.type_refs@[row.index as int].name@
            } else {
                self.type_refs@[row.index as int].namespace@
            }
        } else {
            if column == COLUMN_NAME {
                self.type_defs@[row.index as int].name@
            } else {
                self.type_defs@[row.index as int].namespace@
            }
        }
    }

    /// The row that the scope of the type reference `row` points at.
    pub open spec fn scope_target(&self, row: Row) -> Row {
        let coded = self.type_refs@[row.index as int].scope;
        Row { index: ((coded >> 2) - 1) as u32, table: scope_table(coded & 3) }
    }

    /// Whether the scope of `row` can be decoded: `row` is a type reference,
    /// `column` is its scope column, and the scope points at a row of the
    /// database.
    pub open spec fn decodes(&self, row: Row, column: u32) -> bool {
        &&& self.has_type_ref(row)
        &&& column == COLUMN_SCOPE
        &&& self.type_refs@[row.index as int].scope >> 2 != 0
        &&& self.has_row(self.scope_target(row))
    }

    /// The decoded scope of `row`, where `decodes` holds.
    pub open spec fn decoded<'a>(&'a self, row: Row) -> ResolutionScope<'a> {
        let tag = self.type_refs@[row.index as int].scope & 3;
        let target = self.scope_target(row);
        if tag == 0 {
            ResolutionScope::Module(target)
        } else if tag == 1 {
            ResolutionScope::ModuleRef(target)
        } else if tag == 2 {
            ResolutionScope::AssemblyRef(target)
        } else {
            ResolutionScope::TypeRef(TypeRef { reader: self, row: target })
        }
    }

    /// The rows of the types nested directly in `row`.
    pub open spec fn nested_of(&self, row: Row) -> Seq<Row> {
        if row.table == TABLE_TYPE_DEF && row.index < self.nested_types@.len() {
            self.nested_types@[row.index as int]@
        } else {
            Seq::empty()
        }
    }

    /// Whether no type lists `row` among its nested types.
    pub open spec fn is_top_level(&self, row: Row) -> bool {
        forall|outer: int|
            0 <= outer < self.nested_types@.len() ==> !(#[trigger] self.nested_types@[outer])@.contains(
                row,
            )
    }

    /// Whether `row` is a type definition called `name`.
    pub open spec fn is_named(&self, row: Row, name: Seq<char>) -> bool {
        self.has_type_def(row) && self.text(row, COLUMN_NAME) == name
    }

    /// Whether `row` is a top-level type definition with this namespace and
    /// name.
    pub open spec fn is_top_level_named(&self, row: Row, namespace: Seq<char>, name: Seq<char>) -> bool {
        &&& self.is_named(row, name)
        &&& self.text(row, COLUMN_NAMESPACE) == namespace
        &&& self.is_top_level(row)
    }

    /// The first top-level type definition at position `from` or later that
    /// carries this namespace and name.
    pub open spec fn first_top_level_from(&self, namespace: Seq<char>, name: Seq<char>, from: int) -> Option<Row>
        decreases self.type_defs@.len() - from,
    {
        if from < 0 || from >= self.type_defs@.len() || from > u32::MAX {
            None
        } else if self.is_top_level_named(Row { index: from as u32, table: TABLE_TYPE_DEF }, namespace, name) {
            Some(Row { index: from as u32, table: TABLE_TYPE_DEF })
        } else {
            self.first_top_level_from(namespace, name, from + 1)
        }
    }

    /// The first top-level type definition that carries this namespace and
    /// name.
    pub open spec fn first_top_level(&self, namespace: Seq<char>, name: Seq<char>) -> Option<Row> {
        self.first_top_level_from(namespace, name, 0)
    }

    /// The first of `rows`, from position `from` on, that is a type definition
    /// called `name`.
    pub open spec fn first_named_from(&self, rows: Seq<Row>, name: Seq<char>, from: int) -> Option<Row>
        decreases rows.len() - from,
    {
        if from < 0 || from >= rows.len() {
            None
        } else if self.is_named(rows[from], name) {
            Some(rows[from])
        } else {
            self.first_named_from(rows, name, from + 1)
        }
    }

    /// The first type nested directly in `outer` that is called `name`.
    pub open spec fn first_nested(&self, outer: Row, name: Seq<char>) -> Option<Row> {
        self.first_named_from(self.nested_of(outer), name, 0)
    }

    /// What a lookup among the top-level types gives.
    pub open spec fn top_level_lookup(&self, namespace: Seq<char>, name: Seq<char>) -> Result<
        Row,
        ResolveFailure,
    > {
        match self.first_top_level(namespace, name) {
            Some(found) => Ok(found),
            None => Err(ResolveFailure::TopLevelLookup { namespace, name }),
        }
    }

    /// What a lookup among the types nested directly in `outer` gives, where
    /// `outer` is what resolving the enclosing reference gave.
    pub open spec fn nested_lookup(&self, outer: Result<Row, ResolveFailure>, name: Seq<char>) -> Result<
        Row,
        ResolveFailure,
    > {
        match outer {
            Err(failure) => Err(failure),
            Ok(outer) => match self.first_nested(outer, name) {
                Some(found) => Ok(found),
                None => Err(
                    ResolveFailure::NestedLookup { enclosing: self.text(outer, COLUMN_NAME), name },
                ),
            },
        }
    }

    /// What resolving the type reference `row` gives, when at most `depth`
    /// enclosing types may be walked through.
    pub open spec fn resolve_within(&self, row: Row, depth: nat) -> Result<Row, ResolveFailure>
        decreases depth,
    {
        if !self.decodes(row, COLUMN_SCOPE) {
            Err(ResolveFailure::ScopeDecode { row })
        } else if !(self.decoded(row) is TypeRef) {
            self.top_level_lookup(self.text(row, COLUMN_NAMESPACE), self.text(row, COLUMN_NAME))
        } else if depth == 0 {
            Err(ResolveFailure::ScopeCycle { row })
        } else {
            self.nested_lookup(
                self.resolve_within(self.scope_target(row), (depth - 1) as nat),
                self.text(row, COLUMN_NAME),
            )
        }
    }

    /// What resolving the type reference `row` gives.
    pub open spec fn resolved(&self, row: Row) -> Result<Row, ResolveFailure> {
        self.resolve_within(row, self.type_refs@.len())
    }

    /// Whether no two top-level type definitions share a namespace and a
    /// name.
    pub open spec fn top_level_names_unique(&self) -> bool {
        forall|a: Row, b: Row|
            #![trigger self.has_type_def(a), self.has_type_def(b)]
            self.is_top_level_named(a, self.text(b, COLUMN_NAMESPACE), self.text(b, COLUMN_NAME))
                && self.has_type_def(b) && self.is_top_level(b) ==> a == b
    }

    /// The reference reached from the type reference `row` by going `steps`
    /// times from a nested type to the reference that its scope names, as
    /// long as the scopes on the way decode and name an enclosing type.
    pub open spec fn enclosing_ref(&self, row: Row, steps: nat) -> Option<Row>
        decreases steps,
    {
        if steps == 0 {
            Some(row)
        } else if self.decodes(row, COLUMN_SCOPE) && self.decoded(row) is TypeRef {
            self.enclosing_ref(self.scope_target(row), (steps - 1) as nat)
        } else {
            None
        }
    }

    /// A search from `from` on finds the row with the least position among the
    /// top-level definitions at `from` or later that carry the namespace and
    /// the name, and finds nothing only where there is none.
    pub proof fn lemma_first_top_level_from(&self, namespace: Seq<char>, name: Seq<char>, from: int)
        requires
            0 <= from,
        ensures
            match self.first_top_level_from(namespace, name, from) {
                Some(row) => {
                    &&& self.is_top_level_named(row, namespace, name)
                    &&& from <= row.index
                    &&& forall|other: Row|
                        from <= other.index && #[trigger] self.is_top_level_named(
                            other,
                            namespace,
                            name,
                        ) ==> row.index <= other.index
                },
                None => forall|other: Row|
                    from <= other.index ==> !#[trigger] self.is_top_level_named(
                        other,
                        namespace,
                        name,
                    ),
            },
        decreases self.type_defs@.len() - from,
    {
        if from < self.type_defs@.len() && from <= u32::MAX {
            let here = Row { index: from as u32, table: TABLE_TYPE_DEF };
            if !self.is_top_level_named(here, namespace, name) {
                self.lemma_first_top_level_from(namespace, name, from + 1);
                assert forall|other: Row|
                    from <= other.index && #[trigger] self.is_top_level_named(
                        other,
                        namespace,
                        name,
                    ) implies from + 1 <= other.index by {
                    if other.index == from {
                        assert(other == here);
                    }
                }
            }
        }
    }

    /// A search of `rows` from `from` on finds the first row at `from` or
    /// later that is a type definition called `name`, and finds nothing only
    /// where there is none.
    pub proof fn lemma_first_named_from(&self, rows: Seq<Row>, name: Seq<char>, from: int)
        requires
            0 <= from,
        ensures
            match self.first_named_from(rows, name, from) {
                Some(row) => exists|at: int|
                    {
                        &&& from <= at < rows.len()
                        &&& #[trigger] rows[at] == row
                        &&& self.is_named(row, name)
                        &&& forall|before: int|
                            from <= before < at ==> !self.is_named(#[trigger] rows[before], name)
                    },
                None => forall|at: int|
                    from <= at < rows.len() ==> !self.is_named(#[trigger] rows[at], name),
            },
        decreases rows.len() - from,
    {
        if from < rows.len() {
            if self.is_named(rows[from], name) {
                assert(rows[from] == rows[from]);
            } else {
                self.lemma_first_named_from(rows, name, from + 1);
                match self.first_named_from(rows, name, from + 1) {
                    Some(row) => {
                        let at = choose|at: int|
                            {
                                &&& from + 1 <= at < rows.len()
                                &&& #[trigger] rows[at] == row
                                &&& self.is_named(row, name)
                                &&& forall|before: int|
                                    from + 1 <= before < at ==> !self.is_named(
                                        #[trigger] rows[before],
                                        name,
                                    )
                            };
                        assert(rows[at] == row);
                        assert forall|before: int| from <= before < at implies !self.is_named(
                            #[trigger] rows[before],
                            name,
                        ) by {}
                    },
                    None => {},
                }
            }
        }
    }

    /// Walking through more enclosing types than were needed gives the same
    /// result.
    pub proof fn lemma_resolve_within_more(&self, row: Row, depth: nat, more: nat)
        requires
            depth <= more,
            !(self.resolve_within(row, depth) matches Err(ResolveFailure::ScopeCycle { .. })),
        ensures
            self.resolve_within(row, more) == self.resolve_within(row, depth),
        decreases depth,
    {
        if self.decodes(row, COLUMN_SCOPE) && self.decoded(row) is TypeRef && depth > 0 {
            self.lemma_resolve_within_more(
                self.scope_target(row),
                (depth - 1) as nat,
                (more - 1) as nat,
            );
        }
    }

    /// Where the walk gave up after `depth` enclosing types, every reference
    /// up to the one after them was reached, and each is a type reference of
    /// the database.
    proof fn lemma_gave_up(&self, row: Row, depth: nat, steps: nat)
        requires
            self.resolve_within(row, depth) matches Err(ResolveFailure::ScopeCycle { .. }),
            steps <= depth + 1,
        ensures
            self.enclosing_ref(row, steps) matches Some(reached) && self.has_type_ref(reached),
        decreases depth,
    {
        if steps > 0 {
            let enclosing = self.scope_target(row);
            if depth == 0 {
                assert(self.enclosing_ref(enclosing, 0) == Some(enclosing));
            } else {
                self.lemma_gave_up(enclosing, (depth - 1) as nat, (steps - 1) as nat);
            }
        }
    }

    /// Resolution reports a circle only where there is one: some reference
    /// is reached twice on the way from `row` through its enclosing types.
    pub proof fn lemma_cycle_revisits(&self, row: Row)
        requires
            self.resolved(row) matches Err(ResolveFailure::ScopeCycle { .. }),
        ensures
            exists|i: nat, j: nat|
                i < j <= self.type_refs@.len() && self.enclosing_ref(row, i) is Some
                    && #[trigger] self.enclosing_ref(row, i) == #[trigger] self.enclosing_ref(row, j),
    {
        let count = self.type_refs@.len();
        let positions = Seq::new(
            count + 1,
            |k: int| self.enclosing_ref(row, k as nat).unwrap().index as int,
        );
        assert forall|k: int| 0 <= k <= count implies 0 <= #[trigger] positions[k] < count
            && self.enclosing_ref(row, k as nat) == Some(
            Row { index: positions[k] as u32, table: TABLE_TYPE_REF },
        ) by {
            self.lemma_gave_up(row, count, k as nat);
        }
        if positions.no_duplicates() {
            positions.unique_seq_to_set();
            vstd::set_lib::lemma_int_range(0, count as int);
            assert(positions.to_set().subset_of(vstd::set_lib::set_int_range(0, count as int))) by {
                assert forall|p: int| positions.to_set().contains(p) implies 0 <= p < count by {
                    let k = choose|k: int| 0 <= k < positions.len() && positions[k] == p;
                    assert(0 <= positions[k] < count);
                }
            }
            vstd::set_lib::lemma_len_subset(
                positions.to_set(),
                vstd::set_lib::set_int_range(0, count as int),
            );
            assert(false);
        }
        let (i, j) = choose|i: int, j: int|
            0 <= i < positions.len() && 0 <= j < positions.len() && i != j && positions[i]
                == positions[j];
        let (low, high) = if i < j {
            (i as nat, j as nat)
        } else {
            (j as nat, i as nat)
        };
        assert(0 <= positions[low as int] < count);
        assert(0 <= positions[high as int] < count);
        assert(self.enclosing_ref(row, low) == self.enclosing_ref(row, high));
    }

    /// Whether `row` is a record of this database.
    pub fn contains(&self, row: Row) -> (found: bool)
        ensures
            found == self.has_row(row),
    {
        if row.table == TABLE_MODULE {
            row.index < self.modules
        } else if row.table == TABLE_MODULE_REF {
            row.index < self.module_refs
        } else if row.table == TABLE_ASSEMBLY_REF {
            row.index < self.assembly_refs
        } else if row.table == TABLE_TYPE_REF {
            (row.index as usize) < self.type_refs.len()
        } else if row.table == TABLE_TYPE_DEF {
            (row.index as usize) < self.type_defs.len()
        } else {
            false
        }
    }

    /// The text in `column` of `row`.
    pub fn str(&self, row: Row, column: u32) -> (text: &str)
        requires
            self.has_str(row, column),
        ensures
            text@ == self.text(row, column),
    {
        if row.table == TABLE_TYPE_REF {
            let record = &self.type_refs[row.index as usize];
            if column == COLUMN_NAME {
                record.name.as_str()
            } else {
                record.namespace.as_str()
            }
        } else {
            let record = &self.type_defs[row.index as usize];
            if column == COLUMN_NAME {
                record.name.as_str()
            } else {
                record.namespace.as_str()
            }
        }
    }

    /// Decodes the resolution scope in `column` of `row`.
    pub fn decode<'a>(&'a self, row: Row, column: u32) -> (scope: Result<ResolutionScope<'a>, ResolveError>)
        ensures
            match scope {
                Ok(scope) => self.decodes(row, column) && scope == self.decoded(row),
                Err(error) => !self.decodes(row, column) && error@ == (ResolveFailure::ScopeDecode {
                    row,
                }),
            },
    {
        if row.table != TABLE_TYPE_REF || column != COLUMN_SCOPE || row.index as usize
            >= self.type_refs.len() {
            return Err(ResolveError::ScopeDecode { row });
        }
        let coded = self.type_refs[row.index as usize].scope;
        let tag = coded & 3;
        let position = coded >> 2;
        if position == 0 {
            return Err(ResolveError::ScopeDecode { row });
        }
        let table = if tag == 0 {
            TABLE_MODULE
        } else if tag == 1 {
            TABLE_MODULE_REF
        } else if tag == 2 {
            TABLE_ASSEMBLY_REF
        } else {
            TABLE_TYPE_REF
        };
        let target = Row { index: position - 1, table };
        if !self.contains(target) {
            return Err(ResolveError::ScopeDecode { row });
        }
        if tag == 0 {
            Ok(ResolutionScope::Module(target))
        } else if tag == 1 {
            Ok(ResolutionScope::ModuleRef(target))
        } else if tag == 2 {
            Ok(ResolutionScope::AssemblyRef(target))
        } else {
            Ok(ResolutionScope::TypeRef(TypeRef { reader: self, row: target }))
        }
    }

    /// Whether no type lists `row` among its nested types.
    pub fn top_level(&self, row: Row) -> (top: bool)
        ensures
            top == self.is_top_level(row),
    {
        let mut outer: usize = 0;
        while outer < self.nested_types.len()
            invariant
                outer <= self.nested_types@.len(),
                forall|o: int| 0 <= o < outer ==> !(#[trigger] self.nested_types@[o])@.contains(row),
            decreases self.nested_types@.len() - outer,
        {
            let nested = &self.nested_types[outer];
            let mut inner: usize = 0;
            while inner < nested.len()
                invariant
                    outer < self.nested_types@.len(),
                    nested@ == self.nested_types@[outer as int]@,
                    inner <= nested@.len(),
                    forall|k: int| 0 <= k < inner ==> nested@[k] != row,
                decreases nested@.len() - inner,
            {
                if nested[inner] == row {
                    assert(self.nested_types@[outer as int]@.contains(row));
                    return false;
                }
                inner += 1;
            }
            assert(!self.nested_types@[outer as int]@.contains(row));
            outer += 1;
        }
        true
    }

    /// Looks up a top-level type definition by namespace and name. Where
    /// several carry them, the first in table order is returned.
    pub fn expect_type_def<'a>(&'a self, name: (&str, &str)) -> (found: Result<TypeDef<'a>, ResolveError>)
        ensures
            match found {
                Ok(def) => def.reader == self && def.wf() && self.top_level_lookup(name.0@, name.1@)
                    == Ok::<Row, ResolveFailure>(def.row),
                Err(error) => self.top_level_lookup(name.0@, name.1@) == Err::<Row, ResolveFailure>(
                    error@,
                ),
            },
    {
        let mut position: usize = 0;
        while position < self.type_defs.len() && position <= u32::MAX as usize
            invariant
                position <= self.type_defs@.len(),
                self.first_top_level(name.0@, name.1@) == self.first_top_level_from(
                    name.0@,
                    name.1@,
                    position as int,
                ),
            decreases self.type_defs@.len() - position,
        {
            let row = Row { index: position as u32, table: TABLE_TYPE_DEF };
            let record = &self.type_defs[position];
            if same_text(record.name.as_str(), name.1) && same_text(record.namespace.as_str(), name.0)
                && self.top_level(row) {
                return Ok(TypeDef { reader: self, row });
            }
            position += 1;
        }
        Err(ResolveError::TopLevelLookup { namespace: name.0.to_owned(), name: name.1.to_owned() })
    }

    /// Looks for the first type nested directly in `outer` that is called
    /// `name`.
    pub fn nested_type<'a>(&'a self, outer: Row, name: &str) -> (found: Option<TypeDef<'a>>)
        ensures
            match found {
                Some(def) => def.reader == self && def.wf() && self.first_nested(outer, name@) == Some(
                    def.row,
                ),
                None => self.first_nested(outer, name@) is None,
            },
    {
        if outer.table != TABLE_TYPE_DEF || outer.index as usize >= self.nested_types.len() {
            return None;
        }
        let nested = &self.nested_types[outer.index as usize];
        let mut position: usize = 0;
        while position < nested.len()
            invariant
                position <= nested@.len(),
                nested@ == self.nested_of(outer),
                self.first_nested(outer, name@) == self.first_named_from(nested@, name@, position as int),
            decreases nested@.len() - position,
        {
            let row = nested[position];
            if row.table == TABLE_TYPE_DEF && (row.index as usize) < self.type_defs.len() {
                if same_text(self.type_defs[row.index as usize].name.as_str(), name) {
                    return Some(TypeDef { reader: self, row });
                }
            }
            position += 1;
        }
        None
    }
}

} // verus!
