//! Wrappers that tie a value to one direction of the conversion, and the two
//! functions that convert without naming a wrapper.

use vstd::prelude::*;
use crate::codec::{reads_as, Codec};
use crate::error::Error;
use crate::token::{stream, Token};

verus! {

/// A value that was read from tokens.
///
/// The only way to one is [`De::deserialize`].
#[derive(Debug)]
pub struct De<T>(T);

impl<T: Codec> De<T> {
    /// The value that was read.
    pub closed spec fn inner(self) -> T {
        self.0
    }

    /// Reads a value from `tokens`, which must spell out exactly one value.
    pub fn deserialize(tokens: &[Token]) -> (r: Result<De<T>, Error>)
        ensures
            reads_as::<T>(
                stream(tokens@),
                match r {
                    Ok(de) => Ok(de.inner()),
                    Err(why) => Err(why),
                },
            ),
    {
        match T::decode(tokens) {
            Ok(value) => Ok(De(value)),
            Err(why) => Err(why),
        }
    }

    /// Consumes this wrapper and returns the value that was read.
    #[inline(always)]
    pub fn into_inner(self) -> (value: T)
        ensures
            value == self.inner(),
    {
        self.0
    }
}

/// A borrowed value on its way to being written as tokens.
#[derive(Debug)]
pub struct Ser<'a, T>(&'a T);

impl<'a, T: Codec> Ser<'a, T> {
    /// The value that will be written.
    pub closed spec fn inner(self) -> T {
        *self.0
    }

    /// Returns a wrapper for `value`.
    #[inline(always)]
    pub fn new(value: &'a T) -> (ser: Self)
        ensures
            ser.inner() == *value,
    {
        Ser(value)
    }

    /// Writes the value as tokens.
    pub fn serialize(&self) -> (tokens: Vec<Token>)
        ensures
            T::encodes(self.inner()@, stream(tokens@)),
    {
        self.0.encode()
    }
}

/// Reads a `T` from `tokens`, which must spell out exactly one value.
pub fn deserialize<T: Codec>(tokens: &[Token]) -> (r: Result<T, Error>)
    ensures
        reads_as::<T>(stream(tokens@), r),
{
    match De::<T>::deserialize(tokens) {
        Ok(de) => Ok(de.into_inner()),
        Err(why) => Err(why),
    }
}

/// Writes `value` as tokens.
pub fn serialize<T: Codec>(value: &T) -> (tokens: Vec<Token>)
    ensures
        T::encodes(value@, stream(tokens@)),
{
    Ser::new(value).serialize()
}

} // verus!
