//! The ways in which reading a value from tokens can fail.

use vstd::prelude::*;

verus! {

/// Why a run of tokens could not be read as a value.
#[derive(Clone, Debug, PartialEq, Eq)]
pub enum Error {
    /// The tokens do not have the shape of the value: a token of another kind
    /// stands where one was called for, the run ends early, or tokens are left
    /// over.
    UnexpectedToken,
    /// The tokens have the right shape, but what they hold is not a value of
    /// the type. The string is the description given by the parser that
    /// turned it down.
    InvalidValue(String),
    /// The text could not be parsed; the string says why.
    Custom(String),
}

/// What an [`Error`] holds, as a mathematical value.
pub enum ErrorView {
    UnexpectedToken,
    InvalidValue(Seq<char>),
    Custom(Seq<char>),
}

impl View for Error {
    type V = ErrorView;

    open spec fn view(&self) -> ErrorView {
        match *self {
            Error::UnexpectedToken => ErrorView::UnexpectedToken,
            Error::InvalidValue(m) => ErrorView::InvalidValue(m@),
            Error::Custom(m) => ErrorView::Custom(m@),
        }
    }
}

} // verus!
