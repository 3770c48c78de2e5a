//! The request method, written as its name.

use vstd::prelude::*;
use crate::codec::Codec;
use crate::error::{Error, ErrorView};
use crate::grammar::is_token;
use crate::token::{lone_str, lone_text, str_token, stream, Token, TokenView};
use std::str::FromStr;

verus! {

/// What the parser of methods says of a text that it turns down.
pub open spec fn method_refusal() -> Seq<char> {
    "invalid HTTP method"@
}

/// The method that `text` names, or why it names none: every token names a
/// method, a standard one or an extension, and the upper and lower case of
/// its letters counts.
pub open spec fn parsed(text: Seq<char>) -> Result<Seq<char>, ErrorView> {
    if is_token(text) {
        Ok(text)
    } else {
        Err(ErrorView::InvalidValue(method_refusal()))
    }
}

/// What reading `tokens` as a method gives: they must be one lone string.
pub open spec fn read(tokens: Seq<TokenView>) -> Result<Seq<char>, ErrorView> {
    match lone_text(tokens) {
        Some(text) => parsed(text),
        None => Err(ErrorView::UnexpectedToken),
    }
}

/// `Method::from_str` of the http crate, under its name in hyper, with the
/// method it returns read by `Method::as_str`: a text is accepted exactly
/// if it is a token, and the method's name is the text as it was given. A
/// refusal carries the text that the crate's error displays.
#[verifier::external_body]
fn parse_method(text: &str) -> (r: Result<String, String>)
    ensures
        r is Ok <==> is_token(text@),
        r matches Ok(name) ==> name@ == text@,
        r matches Err(why) ==> why@ == method_refusal(),
{
    match hyper::Method::from_str(text) {
        Ok(method) => Ok(method.as_str().to_string()),
        Err(e) => Err(e.to_string()),
    }
}

/// A request method: a standard one, such as `GET`, or an extension.
#[derive(Debug, PartialEq, Eq, Hash)]
pub struct Method {
    name: String,
}

impl View for Method {
    type V = Seq<char>;

    closed spec fn view(&self) -> Seq<char> {
        self.name@
    }
}

impl Method {
    #[verifier::type_invariant]
    spec fn named_by_token(self) -> bool {
        is_token(self.name@)
    }

    /// The method that `text` names.
    pub fn parse(text: &str) -> (r: Result<Method, Error>)
        ensures
            match parsed(text@) {
                Ok(name) => r matches Ok(method) && method@ == name,
                Err(why) => r matches Err(e) && e@ == why,
            },
    {
        match parse_method(text) {
            Ok(name) => Ok(Method { name }),
            Err(why) => Err(Error::InvalidValue(why)),
        }
    }

    /// The method's name, which is a token.
    pub fn as_str(&self) -> (name: &str)
        ensures
            name@ == self@,
            is_token(self@),
    {
        proof {
            use_type_invariant(self);
        }
        self.name.as_str()
    }
}

impl Clone for Method {
    fn clone(&self) -> (copy: Method)
        ensures
            copy == *self,
    {
        proof {
            use_type_invariant(self);
        }
        Method { name: self.name.clone() }
    }
}

impl Codec for Method {
    open spec fn canonical(model: Seq<char>) -> bool {
        is_token(model)
    }

    open spec fn decoded(tokens: Seq<TokenView>) -> Result<Seq<char>, ErrorView> {
        read(tokens)
    }

    open spec fn encodes(model: Seq<char>, tokens: Seq<TokenView>) -> bool {
        tokens == seq![TokenView::Str(model)]
    }

    open spec fn refuses(model: Seq<char>, why: ErrorView) -> bool {
        false
    }

    /// Reads a method from one lone string, its name.
    fn decode(tokens: &[Token]) -> (r: Result<Method, Error>) {
        match lone_str(tokens) {
            Some(text) => Method::parse(text),
            None => Err(Error::UnexpectedToken),
        }
    }

    /// Writes the method as one lone string, its name. Every method is
    /// canonical.
    fn encode(&self) -> (tokens: Vec<Token>)
        ensures
            Self::canonical(self@),
    {
        str_token(self.as_str())
    }

    proof fn round_trip(model: Seq<char>, tokens: Seq<TokenView>) {
    }
}

} // verus!
