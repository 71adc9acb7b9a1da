use vstd::prelude::*;

use crate::arguments::{
    bag_lookup, kind_of, resolve_err_is, ArgumentBag, ArgumentKind, Arguments, BagModel, IntoArguments,
    PositionalArguments,
};
use crate::encode_owned::IntoEncode;
use crate::error::Error;
use crate::index::ArgumentIndex;
use crate::pg_buffer::{fail_matches, pg_encoded, pg_fold, PgArgumentsInner};
use crate::text::{decimal, push_decimal, string_from_chars};
use crate::value::{BoundValue, ValueModel};

verus! {

/// The argument bag of the protocol with server-typed parameters.
///
/// Its placeholder for the latest positional value is `$n`, `n` being the
/// positional count: in this library's placeholder syntax `$n` names the
/// `n`-th positional value of the bag, named values neither take nor shift
/// positions, and expansion renumbers every occurrence.
#[derive(Debug, Clone)]
pub struct PgArguments {
    pub bag: ArgumentBag,
}

impl Arguments for PgArguments {
    open spec fn bag_model(&self) -> BagModel {
        self.bag@
    }

    open spec fn placeholder_text(&self) -> Seq<char> {
        seq!['$'] + decimal(self.bag@.positional.len())
    }

    fn reserve(&mut self, additional: usize, size: usize) {
        self.bag.reserve(additional);
    }

    fn add<T: IntoEncode>(&mut self, value: T) -> (r: Result<(), Error>) {
        self.bag.push(value.into_encode_owned());
        Ok(())
    }

    fn add_named<T: IntoEncode>(&mut self, name: &str, value: T) -> (r: Result<(), Error>) {
        self.bag.push_named(name, value.into_encode_owned());
        Ok(())
    }

    fn len(&self) -> (r: usize) {
        self.bag.len()
    }

    fn format_placeholder(&self, writer: &mut String) {
        let mut cs: Vec<char> = Vec::new();
        cs.push('$');
        push_decimal(&mut cs, self.bag.len());
        let text = string_from_chars(cs.as_slice());
        writer.append(text.as_str());
        assert(cs@ =~= seq!['$'] + decimal(self.bag@.positional.len()));
    }
}

impl IntoArguments<PgArguments> for PgArguments {
    open spec fn arguments_of(self) -> PgArguments {
        self
    }

    fn into_arguments(self) -> (r: PgArguments) {
        self
    }
}

impl Default for PgArguments {
    fn default() -> (r: PgArguments)
        ensures
            r.bag@.positional.len() == 0,
            r.bag@.named == Map::<Seq<char>, ValueModel>::empty(),
    {
        PgArguments { bag: ArgumentBag::new() }
    }
}

impl PgArguments {
    /// The value that `index` refers to, if any.
    pub fn get(&self, index: &ArgumentIndex) -> (r: Option<&BoundValue>)
        ensures
            match bag_lookup(self.bag@, index@) {
                Some(v) => r is Some && r->0@ == v,
                None => r is None,
            },
    {
        self.bag.get(index)
    }

    /// Resolves an occurrence of `index`; sets `has_expansion` when it expands.
    pub fn get_kind(&self, index: &ArgumentIndex, kleene: bool, has_expansion: &mut bool) -> (r: Result<ArgumentKind, Error>)
        ensures
            match kind_of(self.bag@, index@, kleene) {
                Ok(k) => r == Ok::<ArgumentKind, Error>(k),
                Err(f) => r is Err && resolve_err_is(r->Err_0, f),
            },
            *final(has_expansion) == (*old(has_expansion) || (r is Ok && r->Ok_0 is Vector)),
    {
        self.bag.get_kind(index, kleene, has_expansion)
    }

    /// The bag.
    pub fn bag(&self) -> (r: &ArgumentBag)
        ensures
            r@ == self.bag@,
    {
        &self.bag
    }
}

impl PgArguments {
    /// The positional values encoded into a fresh positional list (named
    /// values are left out), or the first encode failure.
    pub fn try_into_only_positional(self) -> (r: Result<PgArgumentsInner, Error>)
        ensures
            match pg_fold(self.bag@.positional) {
                Ok(m) => r is Ok && r->Ok_0@ == m && r->Ok_0.wf(),
                Err(f) => r is Err && fail_matches(r->Err_0, f),
            },
    {
        PgArgumentsInner::from_values(self.bag.positional())
    }
}

impl PositionalArguments for PgArgumentsInner {
    open spec fn arg_count(&self) -> nat {
        self@.types.len()
    }

    open spec fn ready(&self) -> bool {
        self.wf()
    }

    open spec fn encodes(&self, v: ValueModel) -> bool {
        pg_encoded(self@.buffer, v) is Ok
    }

    fn reserve(&mut self, additional: usize, size: usize) {
        PgArgumentsInner::reserve(self, additional, size);
    }

    fn add_value(&mut self, value: &BoundValue) -> (r: Result<(), Error>) {
        self.add_ref(value)
    }

    fn len(&self) -> (r: usize) {
        PgArgumentsInner::len(self)
    }
}

} // verus!
