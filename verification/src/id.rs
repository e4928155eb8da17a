//! Request identifiers.

use vstd::prelude::*;

verus! {

/// The shape of a request identifier, as a mathematical value.
pub enum IdView {
    Null,
    Num(u64),
    Str(Seq<char>),
}

/// A request identifier: a number, a string, or null.
#[derive(Debug)]
pub enum Id {
    Null,
    Num(u64),
    Str(String),
}

impl View for Id {
    type V = IdView;

    open spec fn view(&self) -> IdView {
        match self {
            Id::Null => IdView::Null,
            Id::Num(n) => IdView::Num(*n),
            Id::Str(s) => IdView::Str(s@),
        }
    }
}

impl Id {
    /// Whether two identifiers are the same.
    pub fn same(&self, other: &Id) -> (r: bool)
        ensures
            r == (self@ == other@),
    {
        match (self, other) {
            (Id::Null, Id::Null) => true,
            (Id::Num(a), Id::Num(b)) => *a == *b,
            (Id::Str(a), Id::Str(b)) => *a == *b,
            _ => false,
        }
    }
}

} // verus!
