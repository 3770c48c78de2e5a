//! The media type and the content type, each written as its text.

use vstd::prelude::*;
use crate::codec::Codec;
use crate::error::{Error, ErrorView};
use crate::token::{lone_str, lone_text, str_token, Token, TokenView};
use std::str::FromStr;

verus! {

/// The text of the media type that the mime crate parses `text` to, as the
/// crate displays it; nothing where the crate turns `text` down.
pub uninterp spec fn mime_parse(text: Seq<char>) -> Option<Seq<char>>;

/// What a text that may be missing holds.
pub open spec fn text_of(text: Option<String>) -> Option<Seq<char>> {
    match text {
        Some(t) => Some(t@),
        None => None,
    }
}

/// What is said of a text that is no media type.
pub open spec fn mime_refusal() -> Seq<char> {
    "could not parse mime type"@
}

/// The media type that `text` stands for, or why it stands for none.
pub open spec fn parsed(text: Seq<char>) -> Result<Seq<char>, ErrorView> {
    match mime_parse(text) {
        Some(canon) => Ok(canon),
        None => Err(ErrorView::Custom(mime_refusal())),
    }
}

/// What reading `tokens` as a media type gives: they must be one lone
/// string.
pub open spec fn read(tokens: Seq<TokenView>) -> Result<Seq<char>, ErrorView> {
    match lone_text(tokens) {
        Some(text) => parsed(text),
        None => Err(ErrorView::UnexpectedToken),
    }
}

/// `Mime::from_str` of the mime crate, with the media type it returns
/// displayed as the crate displays it. What the crate accepts, and how it
/// spells what it accepted, is its own matter: the contract only gives the
/// outcome its name.
#[verifier::external_body]
fn parse_mime(text: &str) -> (r: Option<String>)
    ensures
        text_of(r) == mime_parse(text@),
{
    match mime::Mime::from_str(text) {
        Ok(mime) => Some(mime.to_string()),
        Err(_) => None,
    }
}

/// A media type, held as the text that the parser made of it.
#[derive(Clone, Debug, PartialEq, Eq, Hash)]
pub struct Mime {
    text: String,
}

impl View for Mime {
    type V = Seq<char>;

    closed spec fn view(&self) -> Seq<char> {
        self.text@
    }
}

impl Mime {
    /// The media type for what the parser made of a text: its reading where
    /// there is one, and the refusal where there is none.
    pub fn from_parsed(parsed: Option<String>) -> (r: Result<Mime, Error>)
        ensures
            match parsed {
                Some(text) => r matches Ok(mime) && mime@ == text@,
                None => r matches Err(why) && why@ == ErrorView::Custom(mime_refusal()),
            },
    {
        match parsed {
            Some(text) => Ok(Mime { text }),
            None => Err(Error::Custom("could not parse mime type".to_owned())),
        }
    }

    /// The media type that `text` stands for.
    pub fn parse(text: &str) -> (r: Result<Mime, Error>)
        ensures
            match parsed(text@) {
                Ok(canon) => r matches Ok(mime) && mime@ == canon,
                Err(why) => r matches Err(e) && e@ == why,
            },
    {
        Mime::from_parsed(parse_mime(text))
    }

    /// The media type as text.
    pub fn as_str(&self) -> (text: &str)
        ensures
            text@ == self@,
    {
        self.text.as_str()
    }

    /// Whether the parser makes of this media type's text that same text,
    /// so that writing it and reading it back gives it again.
    pub fn is_canonical(&self) -> (r: bool)
        ensures
            r == Self::canonical(self@),
    {
        match parse_mime(self.text.as_str()) {
            Some(again) => again == self.text,
            None => false,
        }
    }
}

impl Codec for Mime {
    /// A media type is canonical where the parser makes of its text that
    /// same text.
    open spec fn canonical(model: Seq<char>) -> bool {
        mime_parse(model) == Some(model)
    }

    open spec fn decoded(tokens: Seq<TokenView>) -> Result<Seq<char>, ErrorView> {
        read(tokens)
    }

    open spec fn encodes(model: Seq<char>, tokens: Seq<TokenView>) -> bool {
        tokens == seq![TokenView::Str(model)]
    }

    open spec fn refuses(model: Seq<char>, why: ErrorView) -> bool {
        false
    }

    /// Reads a media type from one lone string.
    fn decode(tokens: &[Token]) -> (r: Result<Mime, Error>) {
        match lone_str(tokens) {
            Some(text) => Mime::parse(text),
            None => Err(Error::UnexpectedToken),
        }
    }

    /// Writes the media type as one lone string, its text.
    fn encode(&self) -> (tokens: Vec<Token>) {
        str_token(self.as_str())
    }

    proof fn round_trip(model: Seq<char>, tokens: Seq<TokenView>) {
    }
}

/// The content type of a message: a media type and nothing else.
#[derive(Clone, Debug, PartialEq, Eq, Hash)]
pub struct ContentType(pub Mime);

impl View for ContentType {
    type V = Seq<char>;

    open spec fn view(&self) -> Seq<char> {
        self.0@
    }
}

impl Codec for ContentType {
    open spec fn canonical(model: Seq<char>) -> bool {
        Mime::canonical(model)
    }

    open spec fn decoded(tokens: Seq<TokenView>) -> Result<Seq<char>, ErrorView> {
        Mime::decoded(tokens)
    }

    open spec fn encodes(model: Seq<char>, tokens: Seq<TokenView>) -> bool {
        Mime::encodes(model, tokens)
    }

    open spec fn refuses(model: Seq<char>, why: ErrorView) -> bool {
        false
    }

    /// Reads a content type as its media type is read.
    fn decode(tokens: &[Token]) -> (r: Result<ContentType, Error>) {
        match Mime::decode(tokens) {
            Ok(mime) => Ok(ContentType(mime)),
            Err(why) => Err(why),
        }
    }

    /// Writes the content type as its media type is written.
    fn encode(&self) -> (tokens: Vec<Token>) {
        self.0.encode()
    }

    proof fn round_trip(model: Seq<char>, tokens: Seq<TokenView>) {
        Mime::round_trip(model, tokens);
    }
}

} // verus!
