//! The cookie, written as the text of a `Set-Cookie` header.

use vstd::prelude::*;
use crate::codec::Codec;
use crate::error::{Error, ErrorView};
use crate::token::{lone_str, lone_text, str_token, Token, TokenView};
use std::fmt::Write;

verus! {

/// The outcome of parsing `text` with the cookie crate: the cookie as the
/// crate formats it, or the debug text of the crate's error.
pub uninterp spec fn cookie_parse(text: Seq<char>) -> Result<Seq<char>, Seq<char>>;

/// What an outcome made of texts holds.
pub open spec fn texts_of(outcome: Result<String, String>) -> Result<Seq<char>, Seq<char>> {
    match outcome {
        Ok(text) => Ok(text@),
        Err(why) => Err(why@),
    }
}

/// The cookie that `text` stands for, or why it stands for none.
pub open spec fn parsed(text: Seq<char>) -> Result<Seq<char>, ErrorView> {
    match cookie_parse(text) {
        Ok(canon) => Ok(canon),
        Err(why) => Err(ErrorView::Custom(why)),
    }
}

/// What reading `tokens` as a cookie gives: they must be one lone string.
pub open spec fn read(tokens: Seq<TokenView>) -> Result<Seq<char>, ErrorView> {
    match lone_text(tokens) {
        Some(text) => parsed(text),
        None => Err(ErrorView::UnexpectedToken),
    }
}

/// `Cookie::parse` of the cookie crate, with the cookie it returns
/// formatted as the crate formats it, and an error, of the parser or of the
/// formatter, as its debug text. What the crate accepts, and in which order
/// it writes the attributes, is its own matter: the contract only gives the
/// outcome its name.
#[verifier::external_body]
fn parse_cookie(text: &str) -> (r: Result<String, String>)
    ensures
        texts_of(r) == cookie_parse(text@),
{
    match cookie::Cookie::parse(text) {
        Ok(cookie) => {
            let mut out = String::new();
            match write!(out, "{}", cookie) {
                Ok(()) => Ok(out),
                Err(e) => Err(format!("{:?}", e)),
            }
        },
        Err(e) => Err(format!("{:?}", e)),
    }
}

/// A cookie, held as the text that the parser and the formatter made of it.
#[derive(Clone, Debug, PartialEq, Eq, Hash)]
pub struct Cookie {
    text: String,
}

impl View for Cookie {
    type V = Seq<char>;

    closed spec fn view(&self) -> Seq<char> {
        self.text@
    }
}

impl Cookie {
    /// The cookie for what the parser made of a text: its reading where
    /// there is one, and its refusal where there is none.
    pub fn from_parsed(parsed: Result<String, String>) -> (r: Result<Cookie, Error>)
        ensures
            match parsed {
                Ok(text) => r matches Ok(cookie) && cookie@ == text@,
                Err(why) => r matches Err(e) && e@ == ErrorView::Custom(why@),
            },
    {
        match parsed {
            Ok(text) => Ok(Cookie { text }),
            Err(why) => Err(Error::Custom(why)),
        }
    }

    /// The cookie that `text` stands for.
    pub fn parse(text: &str) -> (r: Result<Cookie, Error>)
        ensures
            match parsed(text@) {
                Ok(canon) => r matches Ok(cookie) && cookie@ == canon,
                Err(why) => r matches Err(e) && e@ == why,
            },
    {
        Cookie::from_parsed(parse_cookie(text))
    }

    /// The cookie as text.
    pub fn as_str(&self) -> (text: &str)
        ensures
            text@ == self@,
    {
        self.text.as_str()
    }

    /// Whether the parser and the formatter make of this cookie's text that
    /// same text, so that writing it and reading it back gives it again.
    pub fn is_canonical(&self) -> (r: bool)
        ensures
            r == Self::canonical(self@),
    {
        match parse_cookie(self.text.as_str()) {
            Ok(again) => again == self.text,
            Err(_) => false,
        }
    }
}

impl Codec for Cookie {
    /// A cookie is canonical where the parser and the formatter make of its
    /// text that same text.
    open spec fn canonical(model: Seq<char>) -> bool {
        cookie_parse(model) == Ok::<Seq<char>, Seq<char>>(model)
    }

    open spec fn decoded(tokens: Seq<TokenView>) -> Result<Seq<char>, ErrorView> {
        read(tokens)
    }

    open spec fn encodes(model: Seq<char>, tokens: Seq<TokenView>) -> bool {
        tokens == seq![TokenView::Str(model)]
    }

    open spec fn refuses(model: Seq<char>, why: ErrorView) -> bool {
        false
    }

    /// Reads a cookie from one lone string.
    fn decode(tokens: &[Token]) -> (r: Result<Cookie, Error>) {
        match lone_str(tokens) {
            Some(text) => Cookie::parse(text),
            None => Err(Error::UnexpectedToken),
        }
    }

    /// Writes the cookie as one lone string, its text.
    fn encode(&self) -> (tokens: Vec<Token>) {
        str_token(self.as_str())
    }

    proof fn round_trip(model: Seq<char>, tokens: Seq<TokenView>) {
    }
}

} // verus!
