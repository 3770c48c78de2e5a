//! The status code of a response, written as a number.

use vstd::prelude::*;
use crate::codec::Codec;
use crate::error::{Error, ErrorView};
use crate::token::{stream, Token, TokenView};

verus! {

/// The least status code.
pub const MIN_CODE: u16 = 100;

/// The greatest status code.
pub const MAX_CODE: u16 = 999;

/// Whether `code` is a status code: a number of three digits.
pub open spec fn is_status_code(code: u16) -> bool {
    MIN_CODE <= code <= MAX_CODE
}

/// What is said of a number that is no status code.
pub open spec fn status_refusal() -> Seq<char> {
    "invalid status code"@
}

/// The status code that `code` is, or why it is none.
pub open spec fn checked(code: u16) -> Result<u16, ErrorView> {
    if is_status_code(code) {
        Ok(code)
    } else {
        Err(ErrorView::InvalidValue(status_refusal()))
    }
}

/// What reading `tokens` as a status code gives: they must be one lone
/// number.
pub open spec fn read(tokens: Seq<TokenView>) -> Result<u16, ErrorView> {
    if tokens.len() == 1 {
        match tokens[0] {
            TokenView::U16(code) => checked(code),
            _ => Err(ErrorView::UnexpectedToken),
        }
    } else {
        Err(ErrorView::UnexpectedToken)
    }
}

/// `StatusCode::from_u16` of the http crate, under its name in hyper, with
/// the code it returns read by `StatusCode::as_u16`: a number is accepted
/// exactly if it is at least 100 and less than 1000, and the code is that
/// number. A refusal carries the text that the crate's error displays.
#[verifier::external_body]
fn check_status(code: u16) -> (r: Result<u16, String>)
    ensures
        r is Ok <==> is_status_code(code),
        r matches Ok(n) ==> n == code,
        r matches Err(why) ==> why@ == status_refusal(),
{
    match hyper::StatusCode::from_u16(code) {
        Ok(status) => Ok(status.as_u16()),
        Err(e) => Err(e.to_string()),
    }
}

/// The status code of a response. The reason phrase is no part of it.
#[derive(Clone, Copy, Debug, PartialEq, Eq, Hash)]
pub struct StatusCode {
    code: u16,
}

impl View for StatusCode {
    type V = u16;

    closed spec fn view(&self) -> u16 {
        self.code
    }
}

impl StatusCode {
    #[verifier::type_invariant]
    spec fn in_range(self) -> bool {
        is_status_code(self.code)
    }

    /// The status code that `code` is.
    pub fn from_u16(code: u16) -> (r: Result<StatusCode, Error>)
        ensures
            match checked(code) {
                Ok(n) => r matches Ok(status) && status@ == n,
                Err(why) => r matches Err(e) && e@ == why,
            },
    {
        match check_status(code) {
            Ok(code) => Ok(StatusCode { code }),
            Err(why) => Err(Error::InvalidValue(why)),
        }
    }

    /// The code as a number, which has three digits.
    pub fn as_u16(&self) -> (code: u16)
        ensures
            code == self@,
            is_status_code(self@),
    {
        proof {
            use_type_invariant(self);
        }
        self.code
    }
}

impl Codec for StatusCode {
    open spec fn canonical(model: u16) -> bool {
        is_status_code(model)
    }

    open spec fn decoded(tokens: Seq<TokenView>) -> Result<u16, ErrorView> {
        read(tokens)
    }

    open spec fn encodes(model: u16, tokens: Seq<TokenView>) -> bool {
        tokens == seq![TokenView::U16(model)]
    }

    open spec fn refuses(model: u16, why: ErrorView) -> bool {
        false
    }

    /// Reads a status code from one lone number.
    fn decode(tokens: &[Token]) -> (r: Result<StatusCode, Error>) {
        if tokens.len() != 1 {
            return Err(Error::UnexpectedToken);
        }
        match &tokens[0] {
            Token::U16(code) => StatusCode::from_u16(*code),
            _ => Err(Error::UnexpectedToken),
        }
    }

    /// Writes the status code as one lone number. Every status code is
    /// canonical.
    fn encode(&self) -> (tokens: Vec<Token>)
        ensures
            Self::canonical(self@),
    {
        let mut tokens: Vec<Token> = Vec::new();
        tokens.push(Token::U16(self.as_u16()));
        assert(stream(tokens@) =~= seq![TokenView::U16(self@)]);
        tokens
    }

    proof fn round_trip(model: u16, tokens: Seq<TokenView>) {
    }
}

} // verus!
