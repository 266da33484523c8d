use crate::location::{Located, Location};
use vstd::prelude::*;
use vstd::std_specs::cmp::PartialEqSpec;

verus! {

/// A `TokenKind` covers each individual piece of a language that fits into
/// a [`Token`]: the type a lexer's caller defines to enumerate its tokens.
pub trait TokenKind: Sized {

}

/// A token taken from source code, to be used later in parsing the
/// language's grammar: a kind, plus the capability to say where it came
/// from.  [`Tok`] is the basic implementor of this trait.
pub trait Token<K: TokenKind>: Located + Sized {
    /// The kind this token carries.
    spec fn spec_kind(&self) -> K;

    /// Takes the token and returns its kind.
    fn kind(self) -> (k: K)
        ensures
            k == self.spec_kind(),
    ;

    /// Returns a reference to the kind associated with this token.
    fn kind_ref(&self) -> (k: &K)
        ensures
            *k == self.spec_kind(),
    ;
}

/// A scanned unit bound to its source range.
///
/// The `==` of this struct compares the kinds alone: the location is
/// deliberately left out, so that assertions over token sequences stay
/// insensitive to position.  For a complete comparison, compare the
/// `location` fields as well.
#[derive(Debug, Clone, Copy)]
pub struct Tok<K: TokenKind> {
    /// The inner kind of this token.
    pub kind: K,
    /// The location this token comes from.
    pub location: Location,
}

impl<K: TokenKind + PartialEq> PartialEq for Tok<K> {
    fn eq(&self, other: &Tok<K>) -> (r: bool) {
        self.kind == other.kind
    }
}

impl<K: TokenKind + PartialEq> vstd::std_specs::cmp::PartialEqSpecImpl for Tok<K> {
    open spec fn obeys_eq_spec() -> bool {
        K::obeys_eq_spec()
    }

    open spec fn eq_spec(&self, other: &Tok<K>) -> bool {
        self.kind.eq_spec(&other.kind)
    }
}

impl<K: TokenKind> Tok<K> {
    /// Creates a new token with the provided kind and location.
    pub fn new(kind: K, location: Location) -> (t: Self)
        ensures
            t.kind == kind,
            t.location == location,
    {
        Tok { kind, location }
    }
}

impl<K: TokenKind> Located for Tok<K> {
    open spec fn spec_location(&self) -> Location {
        self.location
    }

    fn location(&self) -> (l: Location) {
        self.location
    }
}

impl<K: TokenKind> Token<K> for Tok<K> {
    open spec fn spec_kind(&self) -> K {
        self.kind
    }

    fn kind(self) -> (k: K) {
        self.kind
    }

    fn kind_ref(&self) -> (k: &K) {
        &self.kind
    }
}

} // verus!
