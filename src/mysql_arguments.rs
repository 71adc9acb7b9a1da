use vstd::prelude::*;

use crate::arguments::{
    bag_lookup, kind_of, resolve_err_is, ArgumentBag, ArgumentKind, Arguments, BagModel, IntoArguments,
    PositionalArguments,
};
use crate::encode_owned::IntoEncode;
use crate::error::Error;
use crate::index::ArgumentIndex;
use crate::mysql::{mysql_encoded, MySqlArgumentsPositional};
use crate::value::{BoundValue, ValueModel};

verus! {

/// The argument bag of the protocol with separate null markers.
#[derive(Debug, Clone)]
pub struct MySqlArguments {
    pub bag: ArgumentBag,
}

impl Arguments for MySqlArguments {
    open spec fn bag_model(&self) -> BagModel {
        self.bag@
    }

    open spec fn placeholder_text(&self) -> Seq<char> {
        seq!['?']
    }

    fn reserve(&mut self, additional: usize, size: usize) {
        self.bag.reserve(additional);
    }

    fn add<T: IntoEncode>(&mut self, value: T) -> (r: Result<(), Error>) {
        self.bag.push(value.into_encode_owned());
        Ok(())
    }

    fn add_named<T: IntoEncode>(&mut self, name: &str, value: T) -> (r: Result<(), Error>) {
        self.bag.push_named(name, value.into_encode_owned());
        Ok(())
    }

    fn len(&self) -> (r: usize) {
        self.bag.len()
    }

    fn format_placeholder(&self, writer: &mut String) {
        writer.append("?");
        proof {
            reveal_strlit("?");
        }
    }
}

impl IntoArguments<MySqlArguments> for MySqlArguments {
    open spec fn arguments_of(self) -> MySqlArguments {
        self
    }

    fn into_arguments(self) -> (r: MySqlArguments) {
        self
    }
}

impl Default for MySqlArguments {
    fn default() -> (r: MySqlArguments)
        ensures
            r.bag@.positional.len() == 0,
            r.bag@.named == Map::<Seq<char>, ValueModel>::empty(),
    {
        MySqlArguments { bag: ArgumentBag::new() }
    }
}

impl MySqlArguments {
    /// The value that `index` refers to, if any.
    pub fn get(&self, index: &ArgumentIndex) -> (r: Option<&BoundValue>)
        ensures
            match bag_lookup(self.bag@, index@) {
                Some(v) => r is Some && r->0@ == v,
                None => r is None,
            },
    {
        self.bag.get(index)
    }

    /// Resolves an occurrence of `index`; sets `has_expansion` when it expands.
    pub fn get_kind(&self, index: &ArgumentIndex, kleene: bool, has_expansion: &mut bool) -> (r: Result<ArgumentKind, Error>)
        ensures
            match kind_of(self.bag@, index@, kleene) {
                Ok(k) => r == Ok::<ArgumentKind, Error>(k),
                Err(f) => r is Err && resolve_err_is(r->Err_0, f),
            },
            *final(has_expansion) == (*old(has_expansion) || (r is Ok && r->Ok_0 is Vector)),
    {
        self.bag.get_kind(index, kleene, has_expansion)
    }

    /// The bag.
    pub fn bag(&self) -> (r: &ArgumentBag)
        ensures
            r@ == self.bag@,
    {
        &self.bag
    }
}

impl PositionalArguments for MySqlArgumentsPositional {
    open spec fn arg_count(&self) -> nat {
        self@.types.len()
    }

    open spec fn ready(&self) -> bool {
        self.wf()
    }

    open spec fn encodes(&self, v: ValueModel) -> bool {
        mysql_encoded(v) is Some
    }

    fn reserve(&mut self, additional: usize, size: usize) {
        MySqlArgumentsPositional::reserve(self, additional, size);
    }

    fn add_value(&mut self, value: &BoundValue) -> (r: Result<(), Error>) {
        self.add(value)
    }

    fn len(&self) -> (r: usize) {
        MySqlArgumentsPositional::len(self)
    }
}

} // verus!
