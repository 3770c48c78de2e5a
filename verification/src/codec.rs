//! The contract that every supported type meets: how its values are read
//! from tokens and written to them.

use vstd::prelude::*;
use crate::error::{Error, ErrorView};
use crate::token::{stream, Token, TokenView};

verus! {

/// A type whose values can be written as tokens and read back from them.
///
/// The view of a value is its mathematical model; the spec functions say,
/// over models, what [`Codec::decode`] and [`Codec::encode`] do.
pub trait Codec: View + Sized {
    /// Whether `model` is one that writing and reading back gives again.
    spec fn canonical(model: Self::V) -> bool;

    /// What reading `tokens` gives: the model of the value they spell out, or
    /// why they spell out none.
    spec fn decoded(tokens: Seq<TokenView>) -> Result<Self::V, ErrorView>;

    /// Whether `tokens` is a way of writing a value whose model is `model`.
    spec fn encodes(model: Self::V, tokens: Seq<TokenView>) -> bool;

    /// Whether the type that holds the values may turn down, with `why`, a
    /// model that tokens spell out correctly. Most types turn nothing down.
    spec fn refuses(model: Self::V, why: ErrorView) -> bool;

    /// Reads a value from `tokens`, which must spell out exactly one value.
    fn decode(tokens: &[Token]) -> (r: Result<Self, Error>)
        ensures
            match Self::decoded(stream(tokens@)) {
                Ok(model) => match r {
                    Ok(value) => value@ == model,
                    Err(why) => Self::refuses(model, why@),
                },
                Err(why) => r matches Err(e) && e@ == why,
            },
    ;

    /// Writes the value as tokens.
    fn encode(&self) -> (tokens: Vec<Token>)
        ensures
            Self::encodes(self@, stream(tokens@)),
    ;

    /// Reading what was written gives the value back: for every canonical
    /// model and every way of writing it, the tokens decode to that model.
    proof fn round_trip(model: Self::V, tokens: Seq<TokenView>)
        requires
            Self::canonical(model),
            Self::encodes(model, tokens),
        ensures
            Self::decoded(tokens) == Ok::<Self::V, ErrorView>(model),
    ;
}

/// Whether `r` is a fit result of reading `tokens` as a `T`: the value that
/// the tokens spell out, the error that they call for, or a refusal by the
/// type that holds the value.
pub open spec fn reads_as<T: Codec>(tokens: Seq<TokenView>, r: Result<T, Error>) -> bool {
    match T::decoded(tokens) {
        Ok(model) => match r {
            Ok(value) => value@ == model,
            Err(why) => T::refuses(model, why@),
        },
        Err(why) => r matches Err(e) && e@ == why,
    }
}

} // verus!
