//! Type references and their resolution.

use vstd::prelude::*;
use std::cmp::Ordering;
use crate::error::{ResolveError, ResolveFailure};
use crate::reader::{ResolutionScope, TypeReader, COLUMN_NAME, COLUMN_NAMESPACE, COLUMN_SCOPE};
use crate::row::{Row, TABLE_TYPE_REF};
use crate::type_def::TypeDef;

verus! {

/// A handle to one record of the table of type references: the database and
/// the row of the record in it. Two handles are the same reference when their
/// rows are the same.
#[derive(Clone, Copy, Debug)]
pub struct TypeRef<'a> {
    pub reader: &'a TypeReader,
    pub row: Row,
}

impl<'a> TypeRef<'a> {
    /// Whether the row is a type reference of the database.
    pub open spec fn wf(&self) -> bool {
        self.reader.has_type_ref(self.row)
    }

    /// What resolving this reference gives.
    pub open spec fn resolved(&self) -> Result<Row, ResolveFailure> {
        self.reader.resolved(self.row)
    }

    /// Whether the row is a type reference of the database.
    pub fn is_valid(&self) -> (valid: bool)
        ensures
            valid == self.wf(),
    {
        self.row.table == TABLE_TYPE_REF && (self.row.index as usize)
            < self.reader.type_refs.len()
    }

    /// Where the type that this reference names is defined.
    pub fn scope(&self) -> (scope: Result<ResolutionScope<'a>, ResolveError>)
        ensures
            match scope {
                Ok(scope) => self.reader.decodes(self.row, COLUMN_SCOPE) && scope
                    == self.reader.decoded(self.row),
                Err(error) => !self.reader.decodes(self.row, COLUMN_SCOPE) && error@ == (
                ResolveFailure::ScopeDecode { row: self.row }),
            },
    {
        self.reader.decode(self.row, COLUMN_SCOPE)
    }

    /// The namespace and the name of the type referred to, in this order.
    pub fn name(&self) -> (name: (&'a str, &'a str))
        requires
            self.wf(),
        ensures
            name.0@ == self.reader.text(self.row, COLUMN_NAMESPACE),
            name.1@ == self.reader.text(self.row, COLUMN_NAME),
    {
        (self.reader.str(self.row, COLUMN_NAMESPACE), self.reader.str(self.row, COLUMN_NAME))
    }

    /// Orders two handles as their rows are ordered.
    pub fn cmp(&self, other: &Self) -> (r: Ordering)
        ensures
            r == if self.row.precedes(other.row) {
                Ordering::Less
            } else if other.row.precedes(self.row) {
                Ordering::Greater
            } else {
                Ordering::Equal
            },
    {
        match self.row.partial_cmp(&other.row) {
            Some(order) => order,
            None => Ordering::Equal,
        }
    }

    /// Resolves this reference to the type definition that it denotes.
    ///
    /// The references of the enclosing types are walked through outwards
    /// until one is reached that names a top-level type. That type is looked
    /// up by namespace and name, and from it the way leads back inwards, each
    /// step by the name of a nested type.
    pub fn resolve(&self) -> (def: Result<TypeDef<'a>, ResolveError>)
        ensures
            match def {
                Ok(def) => def.reader == self.reader && def.wf() && self.resolved() == Ok::<
                    Row,
                    ResolveFailure,
                >(def.row),
                Err(error) => self.resolved() == Err::<Row, ResolveFailure>(error@),
            },
    {
        let reader = self.reader;
        let limit = reader.type_refs.len();
        let mut walked: Vec<Row> = Vec::new();
        let mut current = self.row;
        let mut outermost = false;
        while !outermost
            invariant
                reader == self.reader,
                limit == reader.type_refs@.len(),
                walked@.len() <= limit,
                forall|k: int| 0 <= k < walked@.len() ==> reader.has_type_ref(#[trigger] walked@[k]),
                outermost ==> reader.decodes(current, COLUMN_SCOPE) && !(reader.decoded(
                    current,
                ) is TypeRef),
                reader.resolved(self.row) == inwards(
                    reader,
                    walked@,
                    reader.resolve_within(current, (limit - walked@.len()) as nat),
                ),
            decreases limit - walked@.len(), if outermost { 0int } else { 1int },
        {
            match reader.decode(current, COLUMN_SCOPE) {
                Err(error) => {
                    proof {
                        lemma_failure_stays(reader, walked@, error@);
                    }
                    return Err(error);
                },
                Ok(ResolutionScope::TypeRef(enclosing)) => {
                    if walked.len() == limit {
                        proof {
                            lemma_failure_stays(
                                reader,
                                walked@,
                                ResolveFailure::ScopeCycle { row: current },
                            );
                        }
                        return Err(ResolveError::ScopeCycle { row: current });
                    }
                    proof {
                        assert(walked@.push(current).drop_last() =~= walked@);
                    }
                    walked.push(current);
                    current = enclosing.row;
                },
                Ok(_) => {
                    outermost = true;
                },
            }
        }
        let mut found = match reader.expect_type_def(
            (reader.str(current, COLUMN_NAMESPACE), reader.str(current, COLUMN_NAME)),
        ) {
            Ok(found) => found,
            Err(error) => {
                proof {
                    lemma_failure_stays(reader, walked@, error@);
                }
                return Err(error);
            },
        };
        let mut left = walked.len();
        assert(walked@.take(left as int) =~= walked@);
        while left > 0
            invariant
                reader == self.reader,
                left <= walked@.len(),
                forall|k: int| 0 <= k < walked@.len() ==> reader.has_type_ref(#[trigger] walked@[k]),
                found.reader == reader,
                found.wf(),
                reader.resolved(self.row) == inwards(
                    reader,
                    walked@.take(left as int),
                    Ok(found.row),
                ),
            decreases left,
        {
            left -= 1;
            let name = reader.str(walked[left], COLUMN_NAME);
            proof {
                assert(walked@.take(left + 1).last() == walked@[left as int]);
                assert(walked@.take(left + 1).drop_last() =~= walked@.take(left as int));
            }
            match reader.nested_type(found.row, name) {
                Some(nested) => {
                    found = nested;
                },
                None => {
                    let error = ResolveError::NestedLookup {
                        enclosing: found.name().1.to_owned(),
                        name: name.to_owned(),
                    };
                    proof {
                        lemma_failure_stays(reader, walked@.take(left as int), error@);
                    }
                    return Err(error);
                },
            }
        }
        Ok(found)
    }
}

/// What the way back inwards gives: starting from `outer`, one lookup of a
/// nested type for each of the references `walked`, the last of them first.
spec fn inwards(reader: &TypeReader, walked: Seq<Row>, outer: Result<Row, ResolveFailure>) -> Result<
    Row,
    ResolveFailure,
>
    decreases walked.len(),
{
    if walked.len() == 0 {
        outer
    } else {
        inwards(
            reader,
            walked.drop_last(),
            reader.nested_lookup(outer, reader.text(walked.last(), COLUMN_NAME)),
        )
    }
}

/// A failure is passed on unchanged by every step inwards.
proof fn lemma_failure_stays(reader: &TypeReader, walked: Seq<Row>, failure: ResolveFailure)
    ensures
        inwards(reader, walked, Err(failure)) == Err::<Row, ResolveFailure>(failure),
    decreases walked.len(),
{
    if walked.len() > 0 {
        lemma_failure_stays(reader, walked.drop_last(), failure);
    }
}

/// A reference whose scope is not an enclosing type resolves to a top-level
/// type definition that carries its namespace and its name; where no two
/// top-level definitions share both, that is the only such row. It fails,
/// with the top-level lookup failure, exactly where no top-level definition
/// carries them.
pub proof fn lemma_top_level_resolution(r: TypeRef)
    requires
        r.reader.decodes(r.row, COLUMN_SCOPE),
        !(r.reader.decoded(r.row) is TypeRef),
    ensures
        match r.resolved() {
            Ok(row) => {
                &&& r.reader.is_top_level_named(
                    row,
                    r.reader.text(r.row, COLUMN_NAMESPACE),
                    r.reader.text(r.row, COLUMN_NAME),
                )
                &&& r.reader.top_level_names_unique() ==> forall|other: Row|
                    #[trigger] r.reader.is_top_level_named(
                        other,
                        r.reader.text(r.row, COLUMN_NAMESPACE),
                        r.reader.text(r.row, COLUMN_NAME),
                    ) ==> other == row
            },
            Err(failure) => {
                &&& failure == (ResolveFailure::TopLevelLookup {
                    namespace: r.reader.text(r.row, COLUMN_NAMESPACE),
                    name: r.reader.text(r.row, COLUMN_NAME),
                })
                &&& forall|other: Row|
                    !#[trigger] r.reader.is_top_level_named(
                        other,
                        r.reader.text(r.row, COLUMN_NAMESPACE),
                        r.reader.text(r.row, COLUMN_NAME),
                    )
            },
        },
{
    let namespace = r.reader.text(r.row, COLUMN_NAMESPACE);
    let name = r.reader.text(r.row, COLUMN_NAME);
    r.reader.lemma_first_top_level_from(namespace, name, 0);
    if let Ok(row) = r.resolved() {
        if r.reader.top_level_names_unique() {
            assert forall|other: Row| #[trigger]
                r.reader.is_top_level_named(other, namespace, name) implies other == row by {
                assert(r.reader.has_type_def(other) && r.reader.has_type_def(row));
            }
        }
    }
}

/// A reference to a nested type resolves, if it does, to one of the types
/// nested directly in what its enclosing reference resolves to, and that
/// type is called as the reference is.
pub proof fn lemma_nested_resolution(r: TypeRef, enclosing: TypeRef)
    requires
        r.reader.decodes(r.row, COLUMN_SCOPE),
        r.reader.decoded(r.row) == ResolutionScope::TypeRef(enclosing),
    ensures
        r.resolved() matches Ok(row) ==> {
            &&& enclosing.resolved() matches Ok(outer)
            &&& r.reader.nested_of(outer).contains(row)
            &&& r.reader.is_named(row, r.reader.text(r.row, COLUMN_NAME))
        },
{
    if let Ok(row) = r.resolved() {
        let depth = r.reader.type_refs@.len();
        let outer = r.reader.resolve_within(enclosing.row, (depth - 1) as nat)->Ok_0;
        r.reader.lemma_resolve_within_more(enclosing.row, (depth - 1) as nat, depth);
        r.reader.lemma_first_named_from(
            r.reader.nested_of(outer),
            r.reader.text(r.row, COLUMN_NAME),
            0,
        );
    }
}

/// Two handles to the same row of the same database resolve alike.
pub proof fn lemma_resolution_is_stable(a: TypeRef, b: TypeRef)
    requires
        a.reader == b.reader,
        a.row == b.row,
    ensures
        a.resolved() == b.resolved(),
{
}

impl<'a> PartialEq for TypeRef<'a> {
    fn eq(&self, other: &Self) -> (r: bool) {
        self.row == other.row
    }
}

impl<'a> vstd::std_specs::cmp::PartialEqSpecImpl for TypeRef<'a> {
    open spec fn obeys_eq_spec() -> bool {
        true
    }

    open spec fn eq_spec(&self, other: &Self) -> bool {
        self.row == other.row
    }
}

impl<'a> Eq for TypeRef<'a> {

}

impl<'a> PartialOrd for TypeRef<'a> {
    fn partial_cmp(&self, other: &Self) -> (r: Option<Ordering>) {
        Some(self.cmp(other))
    }
}

impl<'a> vstd::std_specs::cmp::PartialOrdSpecImpl for TypeRef<'a> {
    open spec fn obeys_partial_cmp_spec() -> bool {
        true
    }

    open spec fn partial_cmp_spec(&self, other: &Self) -> Option<Ordering> {
        vstd::std_specs::cmp::PartialOrdSpec::partial_cmp_spec(&self.row, &other.row)
    }
}

} // verus!
