//! The character classes that HTTP names and values are made of.

use vstd::prelude::*;

verus! {

/// Whether `c` is an ASCII letter.
pub open spec fn is_alpha(c: char) -> bool {
    ('a' <= c && c <= 'z') || ('A' <= c && c <= 'Z')
}

/// Whether `c` is an ASCII digit.
pub open spec fn is_digit(c: char) -> bool {
    '0' <= c && c <= '9'
}

/// Whether `c` may stand in an HTTP token: a letter, a digit, or one of
/// ``! # $ % & ' * + - . ^ _ ` | ~``.
pub open spec fn is_tchar(c: char) -> bool {
    is_alpha(c) || is_digit(c) || c == '!' || c == '#' || c == '$' || c == '%' || c == '&'
        || c == '\'' || c == '*' || c == '+' || c == '-' || c == '.' || c == '^' || c == '_'
        || c == '`' || c == '|' || c == '~'
}

/// Whether `text` is an HTTP token: one or more token characters.
pub open spec fn is_token(text: Seq<char>) -> bool {
    text.len() > 0 && forall|i: int| 0 <= i < text.len() ==> is_tchar(#[trigger] text[i])
}

/// `c` with an ASCII capital letter replaced by its small letter.
pub open spec fn ascii_lower(c: char) -> char {
    if 'A' <= c && c <= 'Z' {
        ((c as u8) + 32) as char
    } else {
        c
    }
}

/// `text` with each ASCII capital letter replaced by its small letter.
pub open spec fn lowercase(text: Seq<char>) -> Seq<char> {
    text.map_values(|c: char| ascii_lower(c))
}

/// Whether `text` holds no ASCII capital letter.
pub open spec fn is_lowercase(text: Seq<char>) -> bool {
    forall|i: int| 0 <= i < text.len() ==> !('A' <= #[trigger] text[i] && text[i] <= 'Z')
}

/// Lowering a character gives a character that lowering leaves alone, and
/// keeps token characters token characters.
pub proof fn lemma_ascii_lower(c: char)
    ensures
        !('A' <= ascii_lower(c) && ascii_lower(c) <= 'Z'),
        ascii_lower(ascii_lower(c)) == ascii_lower(c),
        is_tchar(c) ==> is_tchar(ascii_lower(c)),
{
}

/// Lowering a text keeps its length, gives a text without capital letters,
/// and keeps a token a token.
pub proof fn lemma_lowercase(text: Seq<char>)
    ensures
        lowercase(text).len() == text.len(),
        is_lowercase(lowercase(text)),
        lowercase(lowercase(text)) == lowercase(text),
        is_token(text) ==> is_token(lowercase(text)),
{
    let low = lowercase(text);
    assert forall|i: int| 0 <= i < low.len() implies !('A' <= #[trigger] low[i] && low[i] <= 'Z') by {
        lemma_ascii_lower(text[i]);
    }
    assert forall|i: int| 0 <= i < low.len() implies lowercase(low)[i] == low[i] by {
        lemma_ascii_lower(text[i]);
    }
    assert(lowercase(low) =~= low);
    if is_token(text) {
        assert forall|i: int| 0 <= i < low.len() implies is_tchar(#[trigger] low[i]) by {
            assert(is_tchar(text[i]));
            lemma_ascii_lower(text[i]);
        }
    }
}

/// A text without capital letters is what lowering it gives.
pub proof fn lemma_lowercase_fixed(text: Seq<char>)
    requires
        is_lowercase(text),
    ensures
        lowercase(text) == text,
{
    assert(lowercase(text) =~= text);
}

} // verus!
