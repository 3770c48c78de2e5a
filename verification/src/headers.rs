//! The header collection: a map from header names to the raw values given
//! for each name, in the order in which they were given.

use vstd::prelude::*;
use crate::codec::Codec;
use crate::error::{Error, ErrorView};
use crate::grammar::{is_lowercase, is_token, lemma_lowercase, lemma_lowercase_fixed, lowercase};
use crate::headers_proofs::{
    lemma_gathered_canonical, lemma_gathered_names, lemma_headers_round_trip,
};
use crate::token::{stream, Token, TokenView};
use std::str::FromStr;

verus! {

/// `HeaderMap` of the http crate, under its name in hyper. Nothing is known
/// of what is inside a value but what the functions below say.
#[verifier::external_type_specification]
#[verifier::external_body]
#[verifier::reject_recursive_types(T)]
pub struct ExHeaderMap<T>(hyper::HeaderMap<T>);

/// `HeaderValue` of the http crate, under its name in hyper: the type of
/// the values that a `HeaderMap` holds where no other is named.
#[verifier::external_type_specification]
#[verifier::external_body]
pub struct ExHeaderValue(hyper::header::HeaderValue);

/// What a header collection holds: for each name that has a value, its
/// values in the order in which they were given.
pub type Fields = Map<Seq<char>, Seq<Seq<u8>>>;

/// A header name paired with one of its values.
pub type Field = (Seq<char>, Seq<u8>);

/// A header name paired with all its values.
pub type Entry = (Seq<char>, Seq<Seq<u8>>);

/// The fields that `map` holds: its names as `HeaderName::as_str` gives
/// them, each with the bytes of its values in the order in which
/// `HeaderMap::get_all` hands them out.
pub uninterp spec fn header_contents(map: hyper::HeaderMap<hyper::header::HeaderValue>) -> Fields;

/// The longest header name, in bytes.
pub const MAX_NAME_LEN: usize = 65535;

/// Whether `text` can be given as a header name: a token of at most
/// [`MAX_NAME_LEN`] characters. Capital letters are accepted and lowered.
pub open spec fn is_header_name(text: Seq<char>) -> bool {
    is_token(text) && text.len() <= MAX_NAME_LEN
}

/// Whether `b` may stand in a header value: a tab, or any byte from 32 up
/// but 127.
pub open spec fn is_value_byte(b: u8) -> bool {
    (b >= 32 && b != 127) || b == 9
}

/// Whether `bytes` can be given as a header value.
pub open spec fn is_header_value(bytes: Seq<u8>) -> bool {
    forall|i: int| 0 <= i < bytes.len() ==> is_value_byte(#[trigger] bytes[i])
}

/// What the parser of header names says of a text that it turns down.
pub open spec fn name_refusal() -> Seq<char> {
    "invalid HTTP header name"@
}

/// What the parser of header values says of bytes that it turns down.
pub open spec fn value_refusal() -> Seq<char> {
    "failed to parse header value"@
}

/// A collection that holds fewer names than this takes one more field,
/// whatever went before.
pub const NAME_LIMIT: usize = 6554;

/// Whether a collection that holds `fields` is sure to take one more field.
pub open spec fn has_room(fields: Fields) -> bool {
    fields.dom().finite() && fields.dom().len() < NAME_LIMIT
}

/// What the header collection says when it can take no more.
pub open spec fn size_refusal() -> Seq<char> {
    "max size reached"@
}

/// A collection's contents while it holds no field.
pub open spec fn no_fields() -> Fields {
    Map::empty()
}

/// `fields` after `value` was given for `name`: it comes last among the
/// values of that name.
pub open spec fn appended(fields: Fields, name: Seq<char>, value: Seq<u8>) -> Fields {
    if fields.dom().contains(name) {
        fields.insert(name, fields[name].push(value))
    } else {
        fields.insert(name, seq![value])
    }
}

/// The fields that giving each pair of `pairs` in turn leaves in an empty
/// collection.
pub open spec fn gathered(pairs: Seq<Field>) -> Fields
    decreases pairs.len(),
{
    if pairs.len() == 0 {
        no_fields()
    } else {
        appended(gathered(pairs.drop_last()), pairs.last().0, pairs.last().1)
    }
}

/// Whether `field` is as the collection holds it: a name that can be given
/// and has no capital letter, with a value that can be given.
pub open spec fn is_settled(field: Field) -> bool {
    is_header_name(field.0) && is_lowercase(field.0) && is_header_value(field.1)
}

/// Whether each of `pairs` is as the collection holds it.
pub open spec fn all_settled(pairs: Seq<Field>) -> bool {
    forall|i: int| 0 <= i < pairs.len() ==> is_settled(#[trigger] pairs[i])
}

/// Where a reader stands inside the entries of a map.
pub enum Place {
    /// Before the name of an entry, or before the end of the map.
    Name,
    /// After the name of an entry, before its value.
    Value(Seq<char>),
    /// Inside the sequence of values of the entry with this name.
    Element(Seq<char>),
}

/// The bytes of a token that holds one byte string: raw bytes, or a string,
/// which stands for its UTF-8 bytes.
pub open spec fn byte_string(token: TokenView) -> Option<Seq<u8>> {
    match token {
        TokenView::Bytes(bytes) => Some(bytes),
        TokenView::Str(text) => Some(vstd::utf8::encode_utf8(text)),
        _ => None,
    }
}

/// The field that giving `value` for `name` adds, or why the two cannot be
/// given: the name is looked at first.
pub open spec fn checked(name: Seq<char>, value: Seq<u8>) -> Result<Field, ErrorView> {
    if !is_header_name(name) {
        Err(ErrorView::InvalidValue(name_refusal()))
    } else if !is_header_value(value) {
        Err(ErrorView::InvalidValue(value_refusal()))
    } else {
        Ok((lowercase(name), value))
    }
}

/// What reading the entries of a map gives, from the token at `at` on, for a
/// reader that stands at `place` and has found `found` so far: all the
/// fields in the order of the tokens, or the first error.
///
/// An entry is a string, the name, followed by its values: a sequence of
/// byte strings, or one bare byte string. The end of the map must be the
/// last token.
pub open spec fn scan(tokens: Seq<TokenView>, at: int, place: Place, found: Seq<Field>) -> Result<
    Seq<Field>,
    ErrorView,
>
    decreases tokens.len() - at,
{
    if at < 0 || at >= tokens.len() {
        Err(ErrorView::UnexpectedToken)
    } else {
        match place {
            Place::Name => match tokens[at] {
                TokenView::MapEnd => if at + 1 == tokens.len() {
                    Ok(found)
                } else {
                    Err(ErrorView::UnexpectedToken)
                },
                TokenView::Str(name) => scan(tokens, at + 1, Place::Value(name), found),
                _ => Err(ErrorView::UnexpectedToken),
            },
            Place::Value(name) => match tokens[at] {
                TokenView::SeqStart { .. } => scan(tokens, at + 1, Place::Element(name), found),
                token => match byte_string(token) {
                    Some(value) => match checked(name, value) {
                        Ok(field) => scan(tokens, at + 1, Place::Name, found.push(field)),
                        Err(why) => Err(why),
                    },
                    None => Err(ErrorView::UnexpectedToken),
                },
            },
            Place::Element(name) => match tokens[at] {
                TokenView::SeqEnd => scan(tokens, at + 1, Place::Name, found),
                token => match byte_string(token) {
                    Some(value) => match checked(name, value) {
                        Ok(field) => scan(tokens, at + 1, Place::Element(name), found.push(field)),
                        Err(why) => Err(why),
                    },
                    None => Err(ErrorView::UnexpectedToken),
                },
            },
        }
    }
}

/// The fields that `tokens` spell out, in the order of the tokens, or the
/// first error: a lone unit token spells out none, and a map spells out
/// those of its entries.
pub open spec fn spelled(tokens: Seq<TokenView>) -> Result<Seq<Field>, ErrorView> {
    if tokens.len() == 0 {
        Err(ErrorView::UnexpectedToken)
    } else {
        match tokens[0] {
            TokenView::Unit => if tokens.len() == 1 {
                Ok(Seq::empty())
            } else {
                Err(ErrorView::UnexpectedToken)
            },
            TokenView::MapStart { .. } => scan(tokens, 1, Place::Name, Seq::empty()),
            _ => Err(ErrorView::UnexpectedToken),
        }
    }
}

/// What reading `tokens` as a header collection gives.
pub open spec fn read(tokens: Seq<TokenView>) -> Result<Fields, ErrorView> {
    match spelled(tokens) {
        Ok(pairs) => Ok(gathered(pairs)),
        Err(why) => Err(why),
    }
}

/// The tokens of a sequence's elements: each value as raw bytes.
pub open spec fn value_tokens(values: Seq<Seq<u8>>) -> Seq<TokenView> {
    values.map_values(|v: Seq<u8>| TokenView::Bytes(v))
}

/// The tokens of one entry: the name as a string, then its values as a
/// sequence of raw bytes that says how many they are.
pub open spec fn entry_tokens(name: Seq<char>, values: Seq<Seq<u8>>) -> Seq<TokenView> {
    seq![TokenView::Str(name), TokenView::SeqStart { len: Some(values.len() as usize) }]
        + value_tokens(values) + seq![TokenView::SeqEnd]
}

/// The tokens of `entries`, in order.
pub open spec fn entries_tokens(entries: Seq<Entry>) -> Seq<TokenView>
    decreases entries.len(),
{
    if entries.len() == 0 {
        Seq::empty()
    } else {
        entries_tokens(entries.drop_last()) + entry_tokens(entries.last().0, entries.last().1)
    }
}

/// `entries` written as a map that says how many they are.
pub open spec fn written(entries: Seq<Entry>) -> Seq<TokenView> {
    seq![TokenView::MapStart { len: Some(entries.len() as usize) }] + entries_tokens(entries)
        + seq![TokenView::MapEnd]
}

/// Whether `entries` lists `fields`: each name of `fields` once, in any
/// order, with the values that `fields` has for it.
pub open spec fn lists(entries: Seq<Entry>, fields: Fields) -> bool {
    &&& forall|i: int, j: int|
        0 <= i < j < entries.len() ==> (#[trigger] entries[i]).0 != (#[trigger] entries[j]).0
    &&& forall|i: int|
        0 <= i < entries.len() ==> fields.dom().contains((#[trigger] entries[i]).0)
            && fields[entries[i].0] == entries[i].1
    &&& forall|name: Seq<char>| #[trigger]
        fields.dom().contains(name) ==> exists|i: int|
            0 <= i < entries.len() && (#[trigger] entries[i]).0 == name
}

/// Whether `tokens` is `fields` written as a map, with its entries in some
/// order.
pub open spec fn writes(fields: Fields, tokens: Seq<TokenView>) -> bool {
    exists|entries: Seq<Entry>| lists(entries, fields) && tokens == #[trigger] written(entries)
}

/// Whether `fields` is what a collection holds that was filled through the
/// parsers of names and values: every name can be given and has no capital
/// letter, and has at least one value, each of which can be given.
pub open spec fn is_canonical(fields: Fields) -> bool {
    forall|name: Seq<char>| #[trigger]
        fields.dom().contains(name) ==> {
            &&& is_header_name(name)
            &&& is_lowercase(name)
            &&& fields[name].len() > 0
            &&& forall|k: int| 0 <= k < fields[name].len() ==> is_header_value(#[trigger] fields[name][k])
        }
}

/// `HeaderMap::new` of the http crate, under its name in hyper: the result
/// holds no field.
#[verifier::external_body]
fn map_new() -> (map: hyper::HeaderMap)
    ensures
        header_contents(map) == no_fields(),
{
    hyper::HeaderMap::new()
}

/// `HeaderName::from_str` of the http crate, with the name it returns read
/// by `HeaderName::as_str`: a text is accepted exactly if it is a token of
/// at most 65535 characters, and the name is the text with its capital
/// letters lowered. A refusal carries the text that the crate's error
/// displays.
#[verifier::external_body]
fn parse_header_name(text: &str) -> (r: Result<String, String>)
    ensures
        r is Ok <==> is_header_name(text@),
        r matches Ok(name) ==> name@ == lowercase(text@),
        r matches Err(why) ==> why@ == name_refusal(),
{
    match hyper::header::HeaderName::from_str(text) {
        Ok(name) => Ok(name.as_str().to_string()),
        Err(e) => Err(e.to_string()),
    }
}

/// `HeaderValue::from_bytes` of the http crate: bytes are accepted exactly
/// if each is a tab or at least 32 and not 127. A refusal carries the text
/// that the crate's error displays.
#[verifier::external_body]
fn check_header_value(bytes: &[u8]) -> (r: Result<(), String>)
    ensures
        r is Ok <==> is_header_value(bytes@),
        r matches Err(why) ==> why@ == value_refusal(),
{
    match hyper::header::HeaderValue::from_bytes(bytes) {
        Ok(_) => Ok(()),
        Err(e) => Err(e.to_string()),
    }
}

/// `HeaderMap::try_append` of the http crate, on a name and a value that
/// its parsers accept. Where it succeeds, the value comes last among the
/// values of the lowered name; where the collection is full, nothing
/// changes and the text is the one that the crate's error displays.
///
/// The crate turns a field down only where its table of 32768 slots would
/// have to grow, which it does when the names fill three quarters of the
/// slots, or a fifth of them after a run of collisions. A fifth of 32768
/// is more than 6553, so that a collection with fewer than 6554 names
/// takes the field.
#[verifier::external_body]
fn map_append(map: &mut hyper::HeaderMap, name: &str, value: &[u8]) -> (r: Result<(), String>)
    requires
        is_header_name(name@),
        is_header_value(value@),
    ensures
        r is Ok ==> header_contents(*final(map)) == appended(
            header_contents(*old(map)),
            lowercase(name@),
            value@,
        ),
        r matches Err(why) ==> header_contents(*final(map)) == header_contents(*old(map))
            && why@ == size_refusal(),
        has_room(header_contents(*old(map))) ==> r is Ok,
{
    match (hyper::header::HeaderName::from_str(name), hyper::header::HeaderValue::from_bytes(value)) {
        (Ok(key), Ok(val)) => match map.try_append(key, val) {
            Ok(_) => Ok(()),
            Err(e) => Err(e.to_string()),
        },
        (Err(e), _) => Err(e.to_string()),
        (_, Err(e)) => Err(e.to_string()),
    }
}

/// The byte strings of `values`, in order.
pub open spec fn values_of(values: Vec<Vec<u8>>) -> Seq<Seq<u8>> {
    values@.map_values(|v: Vec<u8>| v@)
}

/// The entries that `entries` stand for.
pub open spec fn entries_of(entries: Seq<(String, Vec<Vec<u8>>)>) -> Seq<Entry> {
    entries.map_values(|e: (String, Vec<Vec<u8>>)| (e.0@, values_of(e.1)))
}

/// `HeaderMap::keys` of the http crate, each name read by
/// `HeaderName::as_str` and paired with what `HeaderMap::get_all` gives for
/// it, read by `HeaderValue::as_bytes`: every name that has a value comes
/// once, in an order that is left open, with all its values in the order in
/// which they were given.
#[verifier::external_body]
fn map_entries(map: &hyper::HeaderMap) -> (entries: Vec<(String, Vec<Vec<u8>>)>)
    ensures
        lists(entries_of(entries@), header_contents(*map)),
{
    map.keys()
        .map(|key| {
            let values = map.get_all(key).iter().map(|v| v.as_bytes().to_vec()).collect();
            (key.as_str().to_string(), values)
        })
        .collect()
}

/// A header collection.
#[derive(Debug, PartialEq, Eq)]
pub struct Headers(pub hyper::HeaderMap);

impl View for Headers {
    type V = Fields;

    open spec fn view(&self) -> Fields {
        header_contents(self.0)
    }
}

impl Headers {
    /// A collection without fields.
    pub fn new() -> (headers: Headers)
        ensures
            headers@ == no_fields(),
    {
        Headers(map_new())
    }
}

/// The fields that `pairs` stand for.
pub open spec fn fields_of(pairs: Seq<(String, Vec<u8>)>) -> Seq<Field> {
    pairs.map_values(|p: (String, Vec<u8>)| (p.0@, p.1@))
}

/// Where [`read_pairs`] stands; the name that goes with the last two is
/// kept beside it.
#[derive(Clone, Copy)]
enum Mode {
    Name,
    Value,
    Element,
}

/// The place that `mode` and `name` stand for.
spec fn place_of(mode: Mode, name: Seq<char>) -> Place {
    match mode {
        Mode::Name => Place::Name,
        Mode::Value => Place::Value(name),
        Mode::Element => Place::Element(name),
    }
}

/// The bytes of a token that holds one byte string.
fn read_byte_string(token: &Token) -> (r: Option<Vec<u8>>)
    ensures
        match byte_string(token@) {
            Some(bytes) => r matches Some(v) && v@ == bytes,
            None => r is None,
        },
{
    match token {
        Token::Bytes(bytes) => Some(vstd::slice::slice_to_vec(bytes.as_slice())),
        Token::Str(text) => Some(text.as_str().as_bytes_vec()),
        _ => None,
    }
}

/// Has the parsers of the http crate look at `name`, then at `value`, and
/// returns the field with the name lowered.
fn check_field(name: &str, value: Vec<u8>) -> (r: Result<(String, Vec<u8>), Error>)
    ensures
        match checked(name@, value@) {
            Ok(field) => r matches Ok(p) && (p.0@, p.1@) == field && is_settled(field),
            Err(why) => r matches Err(e) && e@ == why,
        },
{
    proof {
        lemma_lowercase(name@);
    }
    match parse_header_name(name) {
        Err(why) => Err(Error::InvalidValue(why)),
        Ok(lowered) => match check_header_value(value.as_slice()) {
            Err(why) => Err(Error::InvalidValue(why)),
            Ok(()) => Ok((lowered, value)),
        },
    }
}

/// Reads the fields that `tokens` spell out, in the order of the tokens,
/// each with its name lowered; or returns the first error.
pub fn read_pairs(tokens: &[Token]) -> (r: Result<Vec<(String, Vec<u8>)>, Error>)
    ensures
        match spelled(stream(tokens@)) {
            Ok(pairs) => r matches Ok(found) && fields_of(found@) == pairs,
            Err(why) => r matches Err(e) && e@ == why,
        },
        r matches Ok(found) ==> all_settled(fields_of(found@)),
{
    let ghost all = stream(tokens@);
    let mut found: Vec<(String, Vec<u8>)> = Vec::new();
    if tokens.len() == 0 {
        return Err(Error::UnexpectedToken);
    }
    match &tokens[0] {
        Token::Unit => {
            if tokens.len() == 1 {
                return Ok(found);
            } else {
                return Err(Error::UnexpectedToken);
            }
        },
        Token::MapStart { .. } => {},
        _ => {
            return Err(Error::UnexpectedToken);
        },
    }
    assert(fields_of(found@) =~= Seq::<Field>::empty());
    let mut at: usize = 1;
    let mut mode = Mode::Name;
    let mut name: &str = "";
    while at < tokens.len()
        invariant
            all == stream(tokens@),
            1 <= at <= tokens.len(),
            spelled(all) == scan(all, at as int, place_of(mode, name@), fields_of(found@)),
            all_settled(fields_of(found@)),
        decreases tokens.len() - at,
    {
        let token = &tokens[at];
        match mode {
            Mode::Name => match token {
                Token::MapEnd => {
                    if at + 1 == tokens.len() {
                        return Ok(found);
                    } else {
                        return Err(Error::UnexpectedToken);
                    }
                },
                Token::Str(text) => {
                    name = text.as_str();
                    mode = Mode::Value;
                },
                _ => {
                    return Err(Error::UnexpectedToken);
                },
            },
            Mode::Value => match token {
                Token::SeqStart { .. } => {
                    mode = Mode::Element;
                },
                _ => match read_byte_string(token) {
                    None => {
                        return Err(Error::UnexpectedToken);
                    },
                    Some(value) => match check_field(name, value) {
                        Err(why) => {
                            return Err(why);
                        },
                        Ok(field) => {
                            let ghost before = fields_of(found@);
                            found.push(field);
                            assert(fields_of(found@) =~= before.push((field.0@, field.1@)));
                            mode = Mode::Name;
                        },
                    },
                },
            },
            Mode::Element => match token {
                Token::SeqEnd => {
                    mode = Mode::Name;
                },
                _ => match read_byte_string(token) {
                    None => {
                        return Err(Error::UnexpectedToken);
                    },
                    Some(value) => match check_field(name, value) {
                        Err(why) => {
                            return Err(why);
                        },
                        Ok(field) => {
                            let ghost before = fields_of(found@);
                            found.push(field);
                            assert(fields_of(found@) =~= before.push((field.0@, field.1@)));
                        },
                    },
                },
            },
        }
        at += 1;
    }
    Err(Error::UnexpectedToken)
}

impl Headers {
    /// Gives each of `pairs` to an empty collection, in order. The
    /// collection may turn a field down when it is full, which it is not
    /// while `pairs` has fewer than [`NAME_LIMIT`] names; then nothing is
    /// returned but the error.
    fn collect(pairs: &Vec<(String, Vec<u8>)>) -> (r: Result<Headers, Error>)
        requires
            all_settled(fields_of(pairs@)),
        ensures
            match r {
                Ok(headers) => headers@ == gathered(fields_of(pairs@)),
                Err(why) => !has_room(gathered(fields_of(pairs@))) && why@
                    == ErrorView::InvalidValue(size_refusal()),
            },
    {
        let ghost all = fields_of(pairs@);
        let mut map = map_new();
        let mut at: usize = 0;
        while at < pairs.len()
            invariant
                all == fields_of(pairs@),
                all_settled(all),
                at <= pairs.len(),
                header_contents(map) == gathered(all.take(at as int)),
            decreases pairs.len() - at,
        {
            let pair = &pairs[at];
            assert(is_settled(all[at as int]));
            proof {
                lemma_lowercase_fixed(pair.0@);
                assert(all.take(at + 1).drop_last() =~= all.take(at as int));
                lemma_gathered_names(all, at as int);
            }
            match map_append(&mut map, pair.0.as_str(), pair.1.as_slice()) {
                Ok(()) => {},
                Err(why) => {
                    return Err(Error::InvalidValue(why));
                },
            }
            at += 1;
        }
        assert(all.take(at as int) =~= all);
        Ok(Headers(map))
    }
}

/// Writes `entries` as a map, in order: for each, its name as a string and
/// its values as a sequence of raw bytes.
pub fn write_entries(entries: &Vec<(String, Vec<Vec<u8>>)>) -> (tokens: Vec<Token>)
    ensures
        stream(tokens@) == written(entries_of(entries@)),
{
    let ghost all = entries_of(entries@);
    let mut tokens: Vec<Token> = Vec::new();
    tokens.push(Token::MapStart { len: Some(entries.len()) });
    let ghost head = stream(tokens@);
    let mut at: usize = 0;
    while at < entries.len()
        invariant
            all == entries_of(entries@),
            at <= entries.len(),
            stream(tokens@) == head + entries_tokens(all.take(at as int)),
        decreases entries.len() - at,
    {
        let entry = &entries[at];
        let ghost before = stream(tokens@);
        let ghost values = values_of(entry.1);
        tokens.push(Token::Str(entry.0.clone()));
        tokens.push(Token::SeqStart { len: Some(entry.1.len()) });
        let ghost opened = stream(tokens@);
        let mut k: usize = 0;
        while k < entry.1.len()
            invariant
                values == values_of(entry.1),
                k <= entry.1.len(),
                stream(tokens@) == opened + value_tokens(values.take(k as int)),
            decreases entry.1.len() - k,
        {
            let ghost so_far = stream(tokens@);
            tokens.push(Token::Bytes(vstd::slice::slice_to_vec(entry.1[k].as_slice())));
            assert(stream(tokens@) =~= so_far.push(TokenView::Bytes(values[k as int])));
            k += 1;
        }
        let ghost filled = stream(tokens@);
        tokens.push(Token::SeqEnd);
        proof {
            assert(stream(tokens@) =~= filled.push(TokenView::SeqEnd));
            assert(all.take(at + 1).drop_last() =~= all.take(at as int));
            assert(stream(tokens@) =~= before + entry_tokens(entry.0@, values));
        }
        at += 1;
    }
    assert(all.take(at as int) =~= all);
    let ghost body = stream(tokens@);
    tokens.push(Token::MapEnd);
    assert(stream(tokens@) =~= body.push(TokenView::MapEnd));
    tokens
}

impl Headers {
    /// Every name that has a value, once and in an order that is left open,
    /// with all its values in the order in which they were given.
    pub fn entries(&self) -> (entries: Vec<(String, Vec<Vec<u8>>)>)
        ensures
            lists(entries_of(entries@), self@),
    {
        map_entries(&self.0)
    }
}

impl Codec for Headers {
    open spec fn canonical(model: Fields) -> bool {
        is_canonical(model)
    }

    open spec fn decoded(tokens: Seq<TokenView>) -> Result<Fields, ErrorView> {
        read(tokens)
    }

    open spec fn encodes(model: Fields, tokens: Seq<TokenView>) -> bool {
        writes(model, tokens)
    }

    /// The collection may be full before it holds every field, but not
    /// while the fields have fewer than [`NAME_LIMIT`] names.
    open spec fn refuses(model: Fields, why: ErrorView) -> bool {
        !has_room(model) && why == ErrorView::InvalidValue(size_refusal())
    }

    /// Reads a header collection: a lone unit token gives one without
    /// fields; a map gives the fields of its entries, each value coming
    /// last among the values of its name. What is returned is canonical.
    fn decode(tokens: &[Token]) -> (r: Result<Headers, Error>)
        ensures
            r matches Ok(headers) ==> is_canonical(headers@),
    {
        match read_pairs(tokens) {
            Err(why) => Err(why),
            Ok(pairs) => {
                proof {
                    lemma_gathered_canonical(fields_of(pairs@));
                }
                Headers::collect(&pairs)
            },
        }
    }

    /// Writes the collection as a map that says how many names it has, with
    /// one entry for each name, in an order that is left open.
    fn encode(&self) -> (tokens: Vec<Token>) {
        let entries = self.entries();
        write_entries(&entries)
    }

    proof fn round_trip(model: Fields, tokens: Seq<TokenView>) {
        lemma_headers_round_trip(model, tokens);
    }
}

} // verus!
