//! An owning wrapper that can be read, written and used in place of the
//! value it holds.

use vstd::prelude::*;
use vstd::std_specs::cmp::{PartialEqSpec, PartialEqSpecImpl};
use crate::codec::{reads_as, Codec};
use crate::error::{Error, ErrorView};
use crate::token::{stream, Token, TokenView};
use crate::wrapper::{De, Ser};

verus! {

/// A value that is read and written as the value itself is; for use where a
/// type of its own is called for, such as the element type of a collection.
#[derive(Clone, Debug)]
pub struct Serde<T>(pub T);

impl<T: Codec> View for Serde<T> {
    type V = T::V;

    open spec fn view(&self) -> T::V {
        self.0@
    }
}

impl<T: Codec> Serde<T> {
    /// Consumes this wrapper and returns the value.
    #[inline(always)]
    pub fn into_inner(self) -> (value: T)
        ensures
            value == self.0,
    {
        self.0
    }

    /// Reads a value from `tokens`, which must spell out exactly one value.
    pub fn deserialize(tokens: &[Token]) -> (r: Result<Serde<T>, Error>)
        ensures
            reads_as::<T>(
                stream(tokens@),
                match r {
                    Ok(held) => Ok(held.0),
                    Err(why) => Err(why),
                },
            ),
    {
        match De::<T>::deserialize(tokens) {
            Ok(de) => Ok(Serde(de.into_inner())),
            Err(why) => Err(why),
        }
    }

    /// Writes the value as tokens.
    pub fn serialize(&self) -> (tokens: Vec<Token>)
        ensures
            T::encodes(self@, stream(tokens@)),
    {
        Ser::new(&self.0).serialize()
    }
}

impl<T> core::ops::Deref for Serde<T> {
    type Target = T;

    fn deref(&self) -> (value: &T)
        ensures
            *value == self.0,
    {
        &self.0
    }
}

impl<T> core::ops::DerefMut for Serde<T> {
    fn deref_mut(&mut self) -> (value: &mut T)
        ensures
            *value == old(self).0,
            final(self).0 == *final(value),
    {
        &mut self.0
    }
}

impl<T: PartialEq> PartialEq<T> for Serde<T> {
    fn eq(&self, other: &T) -> (same: bool) {
        self.0 == *other
    }
}

impl<T: PartialEq> PartialEqSpecImpl<T> for Serde<T> {
    open spec fn obeys_eq_spec() -> bool {
        <T as PartialEqSpec>::obeys_eq_spec()
    }

    open spec fn eq_spec(&self, other: &T) -> bool {
        self.0.eq_spec(other)
    }
}

impl<T: Codec> Codec for Serde<T> {
    open spec fn canonical(model: T::V) -> bool {
        T::canonical(model)
    }

    open spec fn decoded(tokens: Seq<TokenView>) -> Result<T::V, ErrorView> {
        T::decoded(tokens)
    }

    open spec fn encodes(model: T::V, tokens: Seq<TokenView>) -> bool {
        T::encodes(model, tokens)
    }

    open spec fn refuses(model: T::V, why: ErrorView) -> bool {
        T::refuses(model, why)
    }

    fn decode(tokens: &[Token]) -> (r: Result<Serde<T>, Error>) {
        Serde::<T>::deserialize(tokens)
    }

    fn encode(&self) -> (tokens: Vec<Token>) {
        self.serialize()
    }

    proof fn round_trip(model: T::V, tokens: Seq<TokenView>) {
        T::round_trip(model, tokens);
    }
}

} // verus!
