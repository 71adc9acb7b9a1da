use vstd::prelude::*;

use crate::text::{decimal, push_decimal, string_from_chars};

verus! {

/// The index of a bind argument: by position (zero-based) or by name.
#[derive(Debug, Clone, PartialEq, Eq)]
pub enum ArgumentIndex {
    Positioned(usize),
    Named(String),
}

/// The mathematical form of an `ArgumentIndex`.
pub enum IndexModel {
    Positioned(usize),
    Named(Seq<char>),
}

impl View for ArgumentIndex {
    type V = IndexModel;

    open spec fn view(&self) -> IndexModel {
        match self {
            ArgumentIndex::Positioned(p) => IndexModel::Positioned(*p),
            ArgumentIndex::Named(n) => IndexModel::Named(n@),
        }
    }
}

impl ArgumentIndex {

    /// An owned copy of this index that borrows nothing.
    pub fn into_static(self) -> (r: ArgumentIndex)
        ensures
            r@ == self@,
    {
        match self {
            ArgumentIndex::Positioned(pos) => ArgumentIndex::Positioned(pos),
            ArgumentIndex::Named(named) => ArgumentIndex::Named(named.clone()),
        }
    }

    /// The index of the argument bound under `name`.
    pub fn from_name(name: &str) -> (r: ArgumentIndex)
        ensures
            r@ == IndexModel::Named(name@),
    {
        ArgumentIndex::Named(name.to_owned())
    }

    /// A copy of this index.
    pub fn copy(&self) -> (r: ArgumentIndex)
        ensures
            r@ == self@,
    {
        match self {
            ArgumentIndex::Positioned(pos) => ArgumentIndex::Positioned(*pos),
            ArgumentIndex::Named(named) => ArgumentIndex::Named(named.clone()),
        }
    }

    /// The index as text: the position in decimal, or the name.
    pub fn to_text(&self) -> (r: String)
        ensures
            r@ == match self@ {
                IndexModel::Positioned(p) => decimal(p as nat),
                IndexModel::Named(n) => n,
            },
    {
        match self {
            ArgumentIndex::Positioned(pos) => {
                let mut cs: Vec<char> = Vec::new();
                push_decimal(&mut cs, *pos);
                assert(cs@ =~= decimal(*pos as nat));
                string_from_chars(cs.as_slice())
            },
            ArgumentIndex::Named(named) => named.clone(),
        }
    }

    /// The index of the argument at `position`.
    pub fn from_position(position: usize) -> (r: ArgumentIndex)
        ensures
            r@ == IndexModel::Positioned(position),
    {
        ArgumentIndex::Positioned(position)
    }
}

} // verus!
