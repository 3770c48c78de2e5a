//! The units of structured data that values are written to and read from.

use vstd::prelude::*;

verus! {

/// One unit of structured data, independent of any wire format.
#[derive(Clone, Debug, PartialEq, Eq)]
pub enum Token {
    /// The absence of a value.
    Unit,
    /// An unsigned 16-bit integer.
    U16(u16),
    /// A string.
    Str(String),
    /// A sequence of raw bytes.
    Bytes(Vec<u8>),
    /// The start of a sequence, with the number of its elements where known.
    SeqStart { len: Option<usize> },
    /// The end of a sequence.
    SeqEnd,
    /// The start of a map, with the number of its entries where known.
    MapStart { len: Option<usize> },
    /// The end of a map.
    MapEnd,
}

/// What a [`Token`] holds, as a mathematical value.
pub enum TokenView {
    Unit,
    U16(u16),
    Str(Seq<char>),
    Bytes(Seq<u8>),
    SeqStart { len: Option<usize> },
    SeqEnd,
    MapStart { len: Option<usize> },
    MapEnd,
}

impl View for Token {
    type V = TokenView;

    open spec fn view(&self) -> TokenView {
        match *self {
            Token::Unit => TokenView::Unit,
            Token::U16(n) => TokenView::U16(n),
            Token::Str(s) => TokenView::Str(s@),
            Token::Bytes(b) => TokenView::Bytes(b@),
            Token::SeqStart { len } => TokenView::SeqStart { len },
            Token::SeqEnd => TokenView::SeqEnd,
            Token::MapStart { len } => TokenView::MapStart { len },
            Token::MapEnd => TokenView::MapEnd,
        }
    }
}

/// The views of a run of tokens, in order.
pub open spec fn stream(tokens: Seq<Token>) -> Seq<TokenView> {
    tokens.map_values(|t: Token| t@)
}

/// The text of tokens that are one lone string, and nothing for any other
/// run of tokens.
pub open spec fn lone_text(tokens: Seq<TokenView>) -> Option<Seq<char>> {
    if tokens.len() == 1 {
        match tokens[0] {
            TokenView::Str(text) => Some(text),
            _ => None,
        }
    } else {
        None
    }
}

/// The text of `tokens` where they are one lone string.
pub fn lone_str(tokens: &[Token]) -> (r: Option<&str>)
    ensures
        match lone_text(stream(tokens@)) {
            Some(text) => r matches Some(s) && s@ == text,
            None => r is None,
        },
{
    if tokens.len() != 1 {
        return None;
    }
    match &tokens[0] {
        Token::Str(text) => Some(text.as_str()),
        _ => None,
    }
}

/// `text` as one lone string token.
pub fn str_token(text: &str) -> (tokens: Vec<Token>)
    ensures
        stream(tokens@) == seq![TokenView::Str(text@)],
{
    let mut tokens: Vec<Token> = Vec::new();
    tokens.push(Token::Str(text.to_owned()));
    assert(stream(tokens@) =~= seq![TokenView::Str(text@)]);
    tokens
}

} // verus!
