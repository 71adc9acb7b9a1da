use vstd::prelude::*;

use crate::encode_owned::IntoEncode;
use crate::error::Error;
use crate::index::{ArgumentIndex, IndexModel};
use crate::value::{spec_vector_len, BoundValue, ValueModel};

verus! {

/// The mathematical form of an argument bag: values in bind order, and the
/// values bound by name.
pub struct BagModel {
    pub positional: Seq<ValueModel>,
    pub named: Map<Seq<char>, ValueModel>,
}

/// The map that a list of name bindings denotes: a later binding of a name
/// replaces an earlier one.
pub open spec fn named_map(entries: Seq<(Seq<char>, ValueModel)>) -> Map<Seq<char>, ValueModel>
    decreases entries.len(),
{
    if entries.len() == 0 {
        Map::empty()
    } else {
        named_map(entries.drop_last()).insert(entries.last().0, entries.last().1)
    }
}

/// The value that `idx` refers to in `bag`, if any.
pub open spec fn bag_lookup(bag: BagModel, idx: IndexModel) -> Option<ValueModel> {
    match idx {
        IndexModel::Positioned(i) => if i < bag.positional.len() {
            Some(bag.positional[i as int])
        } else {
            None
        },
        IndexModel::Named(n) => if bag.named.contains_key(n) {
            Some(bag.named[n])
        } else {
            None
        },
    }
}

proof fn lemma_named_found(entries: Seq<(Seq<char>, ValueModel)>, k: Seq<char>, i: int)
    requires
        0 <= i < entries.len(),
        entries[i].0 == k,
        forall|j: int| i < j < entries.len() ==> (#[trigger] entries[j]).0 != k,
    ensures
        named_map(entries).contains_key(k),
        named_map(entries)[k] == entries[i].1,
    decreases entries.len(),
{
    if i < entries.len() - 1 {
        let prefix = entries.drop_last();
        assert forall|j: int| i < j < prefix.len() implies (#[trigger] prefix[j]).0 != k by {
            assert(prefix[j] == entries[j]);
        }
        lemma_named_found(prefix, k, i);
        assert(entries.last() == entries[entries.len() - 1]);
    }
}

proof fn lemma_named_absent(entries: Seq<(Seq<char>, ValueModel)>, k: Seq<char>)
    requires
        forall|j: int| 0 <= j < entries.len() ==> (#[trigger] entries[j]).0 != k,
    ensures
        !named_map(entries).contains_key(k),
    decreases entries.len(),
{
    if entries.len() > 0 {
        let prefix = entries.drop_last();
        assert forall|j: int| 0 <= j < prefix.len() implies (#[trigger] prefix[j]).0 != k by {
            assert(prefix[j] == entries[j]);
        }
        lemma_named_absent(prefix, k);
        assert(entries.last() == entries[entries.len() - 1]);
    }
}

/// The type-erased arguments of one query: positional values in bind order,
/// and values bound by name (a later binding of a name replaces the earlier).
#[derive(Debug, Clone)]
pub struct ArgumentBag {
    positional: Vec<BoundValue>,
    named: Vec<(String, BoundValue)>,
}

/// The models of a list of name bindings.
pub open spec fn entries_model(named: Seq<(String, BoundValue)>) -> Seq<(Seq<char>, ValueModel)> {
    named.map_values(|e: (String, BoundValue)| (e.0@, e.1@))
}

impl View for ArgumentBag {
    type V = BagModel;

    closed spec fn view(&self) -> BagModel {
        BagModel {
            positional: self.positional@.map_values(|v: BoundValue| v@),
            named: named_map(entries_model(self.named@)),
        }
    }
}

impl ArgumentBag {
    /// An empty bag.
    pub fn new() -> (r: ArgumentBag)
        ensures
            r@.positional.len() == 0,
            r@.named == Map::<Seq<char>, ValueModel>::empty(),
    {
        let r = ArgumentBag { positional: Vec::new(), named: Vec::new() };
        assert(entries_model(r.named@) =~= Seq::<(Seq<char>, ValueModel)>::empty());
        r
    }

    /// Appends a value at the next position.
    pub fn push(&mut self, value: BoundValue)
        ensures
            final(self)@ == (BagModel { positional: old(self)@.positional.push(value@), ..old(self)@ }),
    {
        self.positional.push(value);
        assert(self@.positional =~= old(self)@.positional.push(value@));
    }

    /// Binds a value under `name`, replacing any earlier binding of it.
    pub fn push_named(&mut self, name: &str, value: BoundValue)
        ensures
            final(self)@ == (BagModel {
                named: old(self)@.named.insert(name@, value@),
                ..old(self)@
            }),
    {
        let ghost v = value@;
        self.named.push((name.to_owned(), value));
        proof {
            let e = entries_model(self.named@);
            assert(e.drop_last() =~= entries_model(old(self).named@));
            assert(e.last() == (name@, v));
        }
    }

    /// A sizing hint for `additional` more positional values.
    pub fn reserve(&mut self, additional: usize)
        ensures
            final(self)@ == old(self)@,
    {
        self.positional.reserve(additional);
    }

    /// The positional values.
    pub fn positional(&self) -> (r: &[BoundValue])
        ensures
            r@.map_values(|v: BoundValue| v@) == self@.positional,
    {
        self.positional.as_slice()
    }

    /// The number of positional values.
    pub fn len(&self) -> (r: usize)
        ensures
            r == self@.positional.len(),
    {
        self.positional.len()
    }

    /// The value that `index` refers to, if any.
    pub fn get(&self, index: &ArgumentIndex) -> (r: Option<&BoundValue>)
        ensures
            match bag_lookup(self@, index@) {
                Some(v) => r is Some && r->0@ == v,
                None => r is None,
            },
    {
        match index {
            ArgumentIndex::Positioned(i) => {
                if *i < self.positional.len() {
                    Some(&self.positional[*i])
                } else {
                    None
                }
            },
            ArgumentIndex::Named(n) => {
                let ghost e = entries_model(self.named@);
                let mut i: usize = self.named.len();
                while i > 0
                    invariant
                        i <= self.named@.len(),
                        index@ == IndexModel::Named(n@),
                        e == entries_model(self.named@),
                        forall|j: int| i <= j < e.len() ==> (#[trigger] e[j]).0 != n@,
                    decreases i,
                {
                    let k = i - 1;
                    assert(e[k as int] == (self.named@[k as int].0@, self.named@[k as int].1@));
                    if self.named[k].0 == *n {
                        proof {
                            assert(self.named@[k as int].0@ == n@);
                            assert(e[k as int].0 == n@);
                            lemma_named_found(e, n@, k as int);
                            assert(self@.named[n@] == self.named@[k as int].1@);
                            assert(index@ == IndexModel::Named(n@));
                            assert(bag_lookup(self@, index@) == Some(self.named@[k as int].1@));
                        }
                        let found = &self.named[k].1;
                        assert(found@ == self.named@[k as int].1@);
                        return Some(found);
                    }
                    i = k;
                }
                proof {
                    lemma_named_absent(e, n@);
                }
                None
            },
        }
    }
}

/// How one placeholder occurrence resolves: one value, or a sequence of
/// `n` values to expand.
#[derive(Debug, Clone, Copy, PartialEq, Eq, Structural)]
pub enum ArgumentKind {
    Scalar,
    Vector(usize),
}

/// Why a placeholder occurrence does not resolve.
pub enum ResolveFail {
    Unknown(IndexModel),
    NotVector(IndexModel),
}

/// `e` is the error that the library reports for `f`.
pub open spec fn resolve_err_is(e: Error, f: ResolveFail) -> bool {
    match f {
        ResolveFail::Unknown(i) => e is UnknownArgument && e->UnknownArgument_0@ == i,
        ResolveFail::NotVector(i) => e is ExpectedVector && e->ExpectedVector_0@ == i,
    }
}

/// How an occurrence of `idx` resolves against `bag`, with expansion
/// requested or not.
pub open spec fn kind_of(bag: BagModel, idx: IndexModel, kleene: bool) -> Result<ArgumentKind, ResolveFail> {
    match bag_lookup(bag, idx) {
        None => Err(ResolveFail::Unknown(idx)),
        Some(v) => if kleene {
            match spec_vector_len(v) {
                Some(n) => Ok(ArgumentKind::Vector(n as usize)),
                None => Err(ResolveFail::NotVector(idx)),
            }
        } else {
            Ok(ArgumentKind::Scalar)
        },
    }
}

impl ArgumentBag {
    /// Resolves an occurrence of `index`; sets `has_expansion` when it expands.
    pub fn get_kind(&self, index: &ArgumentIndex, kleene: bool, has_expansion: &mut bool) -> (r: Result<ArgumentKind, Error>)
        ensures
            match kind_of(self@, index@, kleene) {
                Ok(k) => r == Ok::<ArgumentKind, Error>(k),
                Err(f) => r is Err && resolve_err_is(r->Err_0, f),
            },
            *final(has_expansion) == (*old(has_expansion) || (r is Ok && r->Ok_0 is Vector)),
    {
        let arg = match self.get(index) {
            Some(a) => a,
            None => {
                return Err(Error::UnknownArgument(index.copy()));
            },
        };
        if kleene {
            match arg.vector_len() {
                Some(len) => {
                    *has_expansion = true;
                    Ok(ArgumentKind::Vector(len))
                },
                None => Err(Error::ExpectedVector(index.copy())),
            }
        } else {
            Ok(ArgumentKind::Scalar)
        }
    }
}

/// A backend's bag of arguments: positional values in bind order and values
/// bound by name.
pub trait Arguments: Sized {
    spec fn bag_model(&self) -> BagModel;

    /// What `format_placeholder` writes.
    spec fn placeholder_text(&self) -> Seq<char>;

    /// A sizing hint for `additional` more values of `size` bytes in all.
    fn reserve(&mut self, additional: usize, size: usize)
        ensures
            final(self).bag_model() == old(self).bag_model(),
    ;

    /// Appends a value at the next position.
    fn add<T: IntoEncode>(&mut self, value: T) -> (r: Result<(), Error>)
        ensures
            r is Ok,
            final(self).bag_model() == (BagModel {
                positional: old(self).bag_model().positional.push(value.encoded_model()),
                ..old(self).bag_model()
            }),
    ;

    /// Binds a value under `name`, replacing any earlier binding of it.
    fn add_named<T: IntoEncode>(&mut self, name: &str, value: T) -> (r: Result<(), Error>)
        ensures
            r is Ok,
            final(self).bag_model() == (BagModel {
                named: old(self).bag_model().named.insert(name@, value.encoded_model()),
                ..old(self).bag_model()
            }),
    ;

    /// The number of positional values (named ones are not counted).
    fn len(&self) -> (r: usize)
        ensures
            r == self.bag_model().positional.len(),
    ;

    /// Writes the backend's placeholder for the latest positional value.
    fn format_placeholder(&self, writer: &mut String)
        ensures
            final(writer)@ == old(writer)@ + self.placeholder_text(),
    ;
}

/// A backend's strictly positional, encoded argument list.
pub trait PositionalArguments: Sized {
    spec fn arg_count(&self) -> nat;

    spec fn ready(&self) -> bool;

    /// Whether `v` encodes when appended to this list.
    spec fn encodes(&self, v: ValueModel) -> bool;

    fn reserve(&mut self, additional: usize, size: usize)
        ensures
            final(self).arg_count() == old(self).arg_count(),
    ;

    /// Encodes a value as the next parameter; a failure leaves the list as it was.
    fn add_value(&mut self, value: &BoundValue) -> (r: Result<(), Error>)
        requires
            old(self).ready(),
            old(self).arg_count() < usize::MAX,
        ensures
            final(self).ready(),
            r is Ok <==> old(self).encodes(value@),
            r is Ok ==> final(self).arg_count() == old(self).arg_count() + 1,
            r is Err ==> final(self).arg_count() == old(self).arg_count(),
    ;

    fn len(&self) -> (r: usize)
        ensures
            r == self.arg_count(),
    ;
}

/// A value that yields a backend's arguments.
pub trait IntoArguments<A>: Sized {
    spec fn arguments_of(self) -> A;

    fn into_arguments(self) -> (r: A)
        ensures
            r == self.arguments_of(),
    ;
}

/// Arguments that can no longer be added to.
pub struct ImmutableArguments<A>(pub A);

impl<A> IntoArguments<A> for ImmutableArguments<A> {
    open spec fn arguments_of(self) -> A {
        self.0
    }

    fn into_arguments(self) -> (r: A) {
        self.0
    }
}

} // verus!
