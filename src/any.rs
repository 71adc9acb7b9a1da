use vstd::prelude::*;

use crate::arguments::{ArgumentBag, BagModel};
use crate::value::{BoundValue, ValueModel};

verus! {

/// The sum type of `either`: Verus reads its two variants as they are declared.
#[verifier::external_type_specification]
#[verifier::reject_recursive_types(L)]
#[verifier::reject_recursive_types(R)]
pub struct ExEither<L, R>(either::Either<L, R>);

/// The closed classification of value kinds of the reduced model.
#[derive(Debug, Clone, Copy, PartialEq, Eq, Structural)]
pub enum AnyTypeInfoKind {
    Null,
    Bool,
    SmallInt,
    Integer,
    BigInt,
    Real,
    Double,
    Blob,
    Text,
}

/// Type information of the reduced model.
#[derive(Debug, Clone, Copy, PartialEq, Eq, Structural)]
pub struct AnyTypeInfo {
    pub kind: AnyTypeInfoKind,
}

/// A column of the reduced model.
#[derive(Debug, Clone)]
pub struct AnyColumn {
    pub ordinal: usize,
    pub name: String,
    pub type_info: AnyTypeInfo,
}

/// A row of the reduced model: its columns and each column's raw value
/// (`None` for `NULL`), built fresh for each row fetched.
#[derive(Debug, Clone)]
pub struct AnyRow {
    pub columns: Vec<AnyColumn>,
    pub values: Vec<Option<Vec<u8>>>,
}

/// The summary of a statement's execution in the reduced model.
#[derive(Debug, Clone, Copy, PartialEq, Eq, Structural)]
pub struct AnyQueryResult {
    pub rows_affected: u64,
    pub last_insert_id: Option<i64>,
}

/// What describing a statement yields in the reduced model: result columns,
/// parameter types (or only their count), and the nullability of each column.
#[derive(Debug)]
pub struct AnyDescribe {
    pub columns: Vec<AnyColumn>,
    pub parameters: Option<either::Either<Vec<AnyTypeInfo>, usize>>,
    pub nullable: Vec<Option<bool>>,
}

/// The models of raw column values.
pub open spec fn raw_values_model(values: Seq<Option<Vec<u8>>>) -> Seq<Option<Seq<u8>>> {
    values.map_values(
        |o: Option<Vec<u8>>|
            match o {
                Some(b) => Some(b@),
                None => None,
            },
    )
}

/// A copy of raw column values.
pub fn copy_raw_values(values: &[Option<Vec<u8>>]) -> (r: Vec<Option<Vec<u8>>>)
    ensures
        raw_values_model(r@) == raw_values_model(values@),
{
    let mut out: Vec<Option<Vec<u8>>> = Vec::new();
    let mut i: usize = 0;
    while i < values.len()
        invariant
            i <= values@.len(),
            out@.len() == i,
            forall|k: int| 0 <= k < i ==> raw_values_model(out@)[k] == raw_values_model(values@)[k],
        decreases values@.len() - i,
    {
        let v = match &values[i] {
            Some(b) => Some(b.clone()),
            None => None,
        };
        out.push(v);
        i = i + 1;
    }
    assert(raw_values_model(out@) =~= raw_values_model(values@));
    out
}

/// The generic arguments of the runtime-selected backend: values in bind
/// order, and values bound by name.
#[derive(Debug, Clone)]
pub struct AnyArguments {
    bag: ArgumentBag,
}

impl AnyArguments {
    pub closed spec fn model(&self) -> BagModel {
        self.bag@
    }

    /// No arguments.
    pub fn new() -> (r: AnyArguments)
        ensures
            r.model().positional.len() == 0,
            r.model().named == Map::<Seq<char>, ValueModel>::empty(),
    {
        AnyArguments { bag: ArgumentBag::new() }
    }

    /// Appends a value at the next position.
    pub fn add(&mut self, value: BoundValue)
        ensures
            final(self).model() == (BagModel {
                positional: old(self).model().positional.push(value@),
                ..old(self).model()
            }),
    {
        self.bag.push(value);
    }

    /// Binds a value under `name`, replacing any earlier binding of it.
    pub fn add_named(&mut self, name: &str, value: BoundValue)
        ensures
            final(self).model() == (BagModel {
                named: old(self).model().named.insert(name@, value@),
                ..old(self).model()
            }),
    {
        self.bag.push_named(name, value);
    }

    /// The bag, positional and named values alike.
    pub fn into_bag(self) -> (r: ArgumentBag)
        ensures
            r@ == self.model(),
    {
        self.bag
    }
}

/// Whether a fetch keeps its prepared statement: only when asked to and
/// arguments are bound.
pub fn effective_persistence(persistent: bool, has_arguments: bool) -> (r: bool)
    ensures
        r == (persistent && has_arguments),
{
    persistent && has_arguments
}

} // verus!
