use hyper::header::{HeaderName, HeaderValue};
use hyper_serde::headers::{read_pairs, write_entries};
use hyper_serde::{deserialize, serialize, Codec, Error, Headers, Token};

fn text(s: &str) -> Token {
    Token::Str(s.to_string())
}

fn raw(b: &[u8]) -> Token {
    Token::Bytes(b.to_vec())
}

fn map(len: usize) -> Token {
    Token::MapStart { len: Some(len) }
}

fn seq(len: usize) -> Token {
    Token::SeqStart { len: Some(len) }
}

fn values(headers: &Headers, name: &str) -> Vec<Vec<u8>> {
    headers
        .0
        .get_all(name)
        .iter()
        .map(|v| v.as_bytes().to_vec())
        .collect()
}

fn invalid_name() -> Error {
    Error::InvalidValue("invalid HTTP header name".to_string())
}

fn invalid_value() -> Error {
    Error::InvalidValue("failed to parse header value".to_string())
}

#[test]
fn headers_unit_gives_empty_collection() {
    let headers = deserialize::<Headers>(&[Token::Unit]).unwrap();
    assert_eq!(headers, Headers::new());
    assert_eq!(headers.0.len(), 0);
}

#[test]
fn headers_empty_map_gives_empty_collection() {
    let headers = deserialize::<Headers>(&[map(0), Token::MapEnd]).unwrap();
    assert_eq!(headers, Headers::new());
}

#[test]
fn headers_empty_collection_is_written_as_empty_map() {
    assert_eq!(serialize(&Headers::new()), vec![map(0), Token::MapEnd]);
}

#[test]
fn headers_multi_value_round_trip() {
    let mut inner = hyper::HeaderMap::new();
    inner.append("Host", HeaderValue::from_static("baguette"));
    inner.append("Host", HeaderValue::from_static("other"));
    let headers = Headers(inner);

    let tokens = serialize(&headers);
    assert_eq!(
        tokens,
        vec![
            map(1),
            text("host"),
            seq(2),
            raw(b"baguette"),
            raw(b"other"),
            Token::SeqEnd,
            Token::MapEnd,
        ]
    );

    let back = deserialize::<Headers>(&tokens).unwrap();
    assert_eq!(
        values(&back, "Host"),
        vec![b"baguette".to_vec(), b"other".to_vec()]
    );
    assert_eq!(back, headers);
}

#[test]
fn headers_repeated_name_appends() {
    let tokens = [
        map(2),
        text("accept"),
        seq(1),
        raw(b"text/html"),
        Token::SeqEnd,
        text("accept"),
        seq(2),
        raw(b"text/plain"),
        raw(b"*/*"),
        Token::SeqEnd,
        Token::MapEnd,
    ];
    let headers = deserialize::<Headers>(&tokens).unwrap();
    assert_eq!(headers.0.keys_len(), 1);
    assert_eq!(
        values(&headers, "accept"),
        vec![b"text/html".to_vec(), b"text/plain".to_vec(), b"*/*".to_vec()]
    );
}

#[test]
fn headers_names_are_lowered_and_meet() {
    let tokens = [
        map(2),
        text("X-Thing"),
        seq(1),
        raw(b"1"),
        Token::SeqEnd,
        text("x-thing"),
        seq(1),
        raw(b"2"),
        Token::SeqEnd,
        Token::MapEnd,
    ];
    let headers = deserialize::<Headers>(&tokens).unwrap();
    let names: Vec<String> = headers.0.keys().map(|k| k.as_str().to_string()).collect();
    assert_eq!(names, vec!["x-thing".to_string()]);
    assert_eq!(values(&headers, "x-thing"), vec![b"1".to_vec(), b"2".to_vec()]);
}

#[test]
fn headers_bare_value_is_one_value() {
    let bare = [map(1), text("host"), raw(b"baguette"), Token::MapEnd];
    let listed = [
        map(1),
        text("host"),
        seq(1),
        raw(b"baguette"),
        Token::SeqEnd,
        Token::MapEnd,
    ];
    assert_eq!(
        deserialize::<Headers>(&bare).unwrap(),
        deserialize::<Headers>(&listed).unwrap()
    );
    let bare_text = [map(1), text("host"), text("baguette"), Token::MapEnd];
    assert_eq!(
        deserialize::<Headers>(&bare_text).unwrap(),
        deserialize::<Headers>(&listed).unwrap()
    );
}

#[test]
fn headers_string_value_stands_for_its_bytes() {
    let tokens = [
        map(1),
        text("x-name"),
        seq(2),
        text("caf\u{e9}"),
        raw(&[0xff, 0x20]),
        Token::SeqEnd,
        Token::MapEnd,
    ];
    let headers = deserialize::<Headers>(&tokens).unwrap();
    assert_eq!(
        values(&headers, "x-name"),
        vec![vec![b'c', b'a', b'f', 0xc3, 0xa9], vec![0xff, 0x20]]
    );
}

#[test]
fn headers_length_hints_are_not_held_to() {
    let tokens = [
        Token::MapStart { len: None },
        text("host"),
        Token::SeqStart { len: Some(7) },
        raw(b"a"),
        Token::SeqEnd,
        Token::MapEnd,
    ];
    let headers = deserialize::<Headers>(&tokens).unwrap();
    assert_eq!(values(&headers, "host"), vec![b"a".to_vec()]);
}

#[test]
fn headers_name_without_values_leaves_nothing() {
    let tokens = [map(1), text("not a name"), seq(0), Token::SeqEnd, Token::MapEnd];
    assert_eq!(deserialize::<Headers>(&tokens).unwrap(), Headers::new());
}

#[test]
fn headers_invalid_name() {
    let tokens = [
        map(1),
        text("not a name"),
        seq(1),
        raw(b"x"),
        Token::SeqEnd,
        Token::MapEnd,
    ];
    assert_eq!(deserialize::<Headers>(&tokens), Err(invalid_name()));
    let empty = [map(1), text(""), raw(b"x"), Token::MapEnd];
    assert_eq!(deserialize::<Headers>(&empty), Err(invalid_name()));
}

#[test]
fn headers_invalid_value() {
    let tokens = [
        map(1),
        text("host"),
        seq(2),
        raw(b"fine"),
        raw(b"line\nbreak"),
        Token::SeqEnd,
        Token::MapEnd,
    ];
    assert_eq!(deserialize::<Headers>(&tokens), Err(invalid_value()));
}

#[test]
fn headers_name_is_looked_at_before_value() {
    let tokens = [map(1), text("a b"), raw(b"\n"), Token::MapEnd];
    assert_eq!(deserialize::<Headers>(&tokens), Err(invalid_name()));
}

#[test]
fn headers_first_error_in_token_order_is_returned() {
    let value_first = [
        map(2),
        text("host"),
        raw(b"\x00"),
        text("other"),
        Token::U16(1),
        Token::MapEnd,
    ];
    assert_eq!(deserialize::<Headers>(&value_first), Err(invalid_value()));
    let shape_first = [
        map(2),
        text("host"),
        Token::U16(1),
        text("other"),
        raw(b"\x00"),
        Token::MapEnd,
    ];
    assert_eq!(
        deserialize::<Headers>(&shape_first),
        Err(Error::UnexpectedToken)
    );
    let value_inside = [
        map(1),
        text("host"),
        seq(2),
        raw(b"\x7f"),
        Token::Unit,
        Token::SeqEnd,
        Token::MapEnd,
    ];
    assert_eq!(deserialize::<Headers>(&value_inside), Err(invalid_value()));
}

#[test]
fn headers_shape_errors() {
    let wrong: Vec<Vec<Token>> = vec![
        vec![],
        vec![Token::MapEnd],
        vec![text("host")],
        vec![Token::U16(0)],
        vec![Token::Unit, Token::Unit],
        vec![Token::Unit, Token::MapEnd],
        vec![map(0)],
        vec![map(0), Token::MapEnd, Token::MapEnd],
        vec![map(0), Token::MapEnd, Token::Unit],
        vec![map(1), text("host")],
        vec![map(1), text("host"), Token::MapEnd],
        vec![map(1), text("host"), Token::Unit, Token::MapEnd],
        vec![map(1), text("host"), seq(1), raw(b"a")],
        vec![map(1), text("host"), seq(1), raw(b"a"), Token::MapEnd],
        vec![map(1), text("host"), seq(1), raw(b"a"), Token::SeqEnd],
        vec![map(1), text("host"), seq(1), seq(0), Token::SeqEnd, Token::SeqEnd, Token::MapEnd],
        vec![map(1), text("host"), seq(1), Token::U16(7), Token::SeqEnd, Token::MapEnd],
        vec![map(1), raw(b"host"), seq(0), Token::SeqEnd, Token::MapEnd],
        vec![map(1), Token::SeqEnd, Token::MapEnd],
        vec![map(1), map(0), Token::MapEnd, Token::MapEnd],
        vec![seq(0), Token::SeqEnd],
    ];
    for tokens in wrong {
        assert_eq!(
            deserialize::<Headers>(&tokens),
            Err(Error::UnexpectedToken),
            "{:?}",
            tokens
        );
    }
}

#[test]
fn headers_round_trip_with_several_names() {
    let mut inner = hyper::HeaderMap::new();
    for (name, value) in [
        ("host", "example.org"),
        ("accept", "text/html"),
        ("set-cookie", "a=b"),
        ("accept", "text/plain"),
        ("x-empty", ""),
        ("set-cookie", "c=d"),
        ("accept", "*/*"),
    ] {
        inner.append(
            HeaderName::from_bytes(name.as_bytes()).unwrap(),
            HeaderValue::from_str(value).unwrap(),
        );
    }
    inner.append("x-raw", HeaderValue::from_bytes(&[0x80, 0xff, 0x09]).unwrap());
    let headers = Headers(inner);

    let tokens = serialize(&headers);
    assert_eq!(tokens[0], map(5));
    assert_eq!(tokens.len(), 2 + 5 * 3 + 8);
    let back = deserialize::<Headers>(&tokens).unwrap();
    assert_eq!(back, headers);
    assert_eq!(
        values(&back, "accept"),
        vec![b"text/html".to_vec(), b"text/plain".to_vec(), b"*/*".to_vec()]
    );
    assert_eq!(values(&back, "set-cookie"), vec![b"a=b".to_vec(), b"c=d".to_vec()]);
    assert_eq!(values(&back, "x-empty"), vec![Vec::<u8>::new()]);
    assert_eq!(values(&back, "x-raw"), vec![vec![0x80, 0xff, 0x09]]);
    assert_eq!(serialize(&back).len(), tokens.len());
}

#[test]
fn headers_what_was_read_reads_back() {
    let tokens = [
        map(3),
        text("B"),
        seq(2),
        raw(b"1"),
        text("2"),
        Token::SeqEnd,
        text("a"),
        raw(b"3"),
        text("b"),
        seq(1),
        raw(b"4"),
        Token::SeqEnd,
        Token::MapEnd,
    ];
    let first = deserialize::<Headers>(&tokens).unwrap();
    let second = deserialize::<Headers>(&serialize(&first)).unwrap();
    assert_eq!(first, second);
    assert_eq!(
        values(&second, "b"),
        vec![b"1".to_vec(), b"2".to_vec(), b"4".to_vec()]
    );
    assert_eq!(values(&second, "a"), vec![b"3".to_vec()]);
}

#[test]
fn headers_name_that_the_parser_refuses_does_not_read_back() {
    let mut inner = hyper::HeaderMap::new();
    inner.append(
        HeaderName::from_static("a\"b"),
        HeaderValue::from_static("x"),
    );
    let tokens = serialize(&Headers(inner));
    assert_eq!(tokens[1], text("a\"b"));
    assert_eq!(deserialize::<Headers>(&tokens), Err(invalid_name()));
}

#[test]
fn headers_name_characters() {
    let allowed = "!#$%&'*+-.^_`|~0123456789ABCDEFGHIJKLMNOPQRSTUVWXYZabcdefghijklmnopqrstuvwxyz";
    let mut candidates: Vec<char> = (0u8..=127).map(|b| b as char).collect();
    candidates.extend(['\u{80}', '\u{e9}', '\u{ff}', '\u{100}', '\u{20ac}', '\u{1f600}']);
    for c in candidates {
        let name: String = ['x', c, 'y'].iter().collect();
        let tokens = [map(1), Token::Str(name.clone()), raw(b"v"), Token::MapEnd];
        let r = deserialize::<Headers>(&tokens);
        if allowed.contains(c) {
            let headers = r.unwrap();
            let names: Vec<String> =
                headers.0.keys().map(|k| k.as_str().to_string()).collect();
            assert_eq!(names, vec![name.to_ascii_lowercase()], "{:?}", c);
        } else {
            assert_eq!(r, Err(invalid_name()), "{:?}", c);
        }
    }
}

#[test]
fn headers_name_length() {
    let longest = "a".repeat(65535);
    let tokens = [map(1), Token::Str(longest.clone()), raw(b"v"), Token::MapEnd];
    let headers = deserialize::<Headers>(&tokens).unwrap();
    assert_eq!(values(&headers, &longest), vec![b"v".to_vec()]);

    let too_long = "a".repeat(65536);
    let tokens = [map(1), Token::Str(too_long), raw(b"v"), Token::MapEnd];
    assert_eq!(deserialize::<Headers>(&tokens), Err(invalid_name()));

    let mixed = format!("{}{}", "A".repeat(64), "b".repeat(64));
    let tokens = [map(1), Token::Str(mixed.clone()), raw(b"v"), Token::MapEnd];
    let headers = deserialize::<Headers>(&tokens).unwrap();
    let names: Vec<String> = headers.0.keys().map(|k| k.as_str().to_string()).collect();
    assert_eq!(names, vec![mixed.to_ascii_lowercase()]);
}

#[test]
fn headers_value_bytes() {
    for b in 0u8..=255 {
        let tokens = [map(1), text("x"), raw(&[b'a', b, b'z']), Token::MapEnd];
        let r = deserialize::<Headers>(&tokens);
        if (b >= 32 && b != 127) || b == 9 {
            assert_eq!(values(&r.unwrap(), "x"), vec![vec![b'a', b, b'z']], "{}", b);
        } else {
            assert_eq!(r, Err(invalid_value()), "{}", b);
        }
    }
}

#[test]
fn headers_read_pairs_keeps_token_order() {
    let tokens = [
        map(2),
        text("B"),
        seq(2),
        raw(b"1"),
        raw(b"2"),
        Token::SeqEnd,
        text("a"),
        raw(b"3"),
        text("b"),
        seq(0),
        Token::SeqEnd,
        Token::MapEnd,
    ];
    assert_eq!(
        read_pairs(&tokens),
        Ok(vec![
            ("b".to_string(), b"1".to_vec()),
            ("b".to_string(), b"2".to_vec()),
            ("a".to_string(), b"3".to_vec()),
        ])
    );
    assert_eq!(read_pairs(&[Token::Unit]), Ok(vec![]));
    assert_eq!(read_pairs(&[]), Err(Error::UnexpectedToken));
}

#[test]
fn headers_entries_list_each_name_once() {
    let mut inner = hyper::HeaderMap::new();
    inner.append("a", HeaderValue::from_static("1"));
    inner.append("b", HeaderValue::from_static("2"));
    inner.append("a", HeaderValue::from_static("3"));
    let mut entries = Headers(inner).entries();
    entries.sort();
    assert_eq!(
        entries,
        vec![
            ("a".to_string(), vec![b"1".to_vec(), b"3".to_vec()]),
            ("b".to_string(), vec![b"2".to_vec()]),
        ]
    );
    assert_eq!(Headers::new().entries(), vec![]);
}

#[test]
fn headers_write_entries_in_given_order() {
    let entries = vec![
        ("b".to_string(), vec![b"1".to_vec(), b"2".to_vec()]),
        ("a".to_string(), vec![]),
        ("c".to_string(), vec![vec![0xff]]),
    ];
    assert_eq!(
        write_entries(&entries),
        vec![
            map(3),
            text("b"),
            seq(2),
            raw(b"1"),
            raw(b"2"),
            Token::SeqEnd,
            text("a"),
            seq(0),
            Token::SeqEnd,
            text("c"),
            seq(1),
            raw(&[0xff]),
            Token::SeqEnd,
            Token::MapEnd,
        ]
    );
    assert_eq!(write_entries(&vec![]), vec![map(0), Token::MapEnd]);
}

#[test]
fn headers_codec_functions_are_the_free_functions() {
    let tokens = [map(1), text("host"), raw(b"a"), Token::MapEnd];
    let headers = Headers::decode(&tokens).unwrap();
    assert_eq!(headers, deserialize::<Headers>(&tokens).unwrap());
    assert_eq!(headers.encode(), serialize(&headers));
}

fn many_names(count: usize) -> Vec<Token> {
    let mut tokens = vec![Token::MapStart { len: Some(count) }];
    for i in 0..count {
        tokens.push(Token::Str(format!("x-{}", i)));
        tokens.push(raw(b"v"));
    }
    tokens.push(Token::MapEnd);
    tokens
}

#[test]
fn headers_below_the_name_limit_are_taken() {
    assert_eq!(hyper_serde::headers::NAME_LIMIT, 6554);
    let headers = deserialize::<Headers>(&many_names(6553)).unwrap();
    assert_eq!(headers.0.keys_len(), 6553);
    assert_eq!(values(&headers, "x-6552"), vec![b"v".to_vec()]);
    let tokens = serialize(&headers);
    assert_eq!(tokens[0], map(6553));
    assert_eq!(deserialize::<Headers>(&tokens).unwrap(), headers);
}

#[test]
fn headers_full_collection_turns_fields_down() {
    let full = deserialize::<Headers>(&many_names(24576)).unwrap();
    assert_eq!(full.0.keys_len(), 24576);
    assert_eq!(
        deserialize::<Headers>(&many_names(24577)),
        Err(Error::InvalidValue("max size reached".to_string()))
    );
    let mut tokens = many_names(24576);
    tokens.pop();
    tokens.push(text("x-0"));
    tokens.push(raw(b"again"));
    tokens.push(Token::MapEnd);
    assert_eq!(
        deserialize::<Headers>(&tokens),
        Err(Error::InvalidValue("max size reached".to_string()))
    );
}

#[test]
fn headers_many_values_of_one_name_are_taken() {
    let mut tokens = vec![map(1), text("x"), Token::SeqStart { len: None }];
    for i in 0..40000u32 {
        tokens.push(Token::Bytes(i.to_string().into_bytes()));
    }
    tokens.push(Token::SeqEnd);
    tokens.push(Token::MapEnd);
    let headers = deserialize::<Headers>(&tokens).unwrap();
    assert_eq!(headers.0.keys_len(), 1);
    assert_eq!(headers.0.len(), 40000);
    assert_eq!(values(&headers, "x")[39999], b"39999".to_vec());
}
