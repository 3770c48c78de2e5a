use hyper_serde::{deserialize, serialize, Codec, Error, StatusCode, Token};

fn invalid_status() -> Error {
    Error::InvalidValue("invalid status code".to_string())
}

#[test]
fn status_200() {
    let ok = deserialize::<StatusCode>(&[Token::U16(200)]).unwrap();
    assert_eq!(ok.as_u16(), 200);
    assert_eq!(ok.as_u16(), hyper::StatusCode::OK.as_u16());
    assert_eq!(serialize(&ok), vec![Token::U16(200)]);
}

#[test]
fn status_boundaries() {
    assert_eq!(StatusCode::from_u16(0), Err(invalid_status()));
    assert_eq!(StatusCode::from_u16(99), Err(invalid_status()));
    assert_eq!(StatusCode::from_u16(100).unwrap().as_u16(), 100);
    assert_eq!(StatusCode::from_u16(599).unwrap().as_u16(), 599);
    assert_eq!(StatusCode::from_u16(600).unwrap().as_u16(), 600);
    assert_eq!(StatusCode::from_u16(999).unwrap().as_u16(), 999);
    assert_eq!(StatusCode::from_u16(1000), Err(invalid_status()));
    assert_eq!(StatusCode::from_u16(u16::MAX), Err(invalid_status()));
    assert_eq!(
        deserialize::<StatusCode>(&[Token::U16(0)]),
        Err(invalid_status())
    );
    assert_eq!(
        deserialize::<StatusCode>(&[Token::U16(1000)]),
        Err(invalid_status())
    );
}

#[test]
fn status_every_number() {
    for code in 0..=u16::MAX {
        let r = deserialize::<StatusCode>(&[Token::U16(code)]);
        if (100..=999).contains(&code) {
            let status = r.unwrap();
            assert_eq!(status.as_u16(), code);
            assert_eq!(serialize(&status), vec![Token::U16(code)]);
        } else {
            assert_eq!(r, Err(invalid_status()));
        }
    }
}

#[test]
fn status_shape_errors() {
    let wrong: Vec<Vec<Token>> = vec![
        vec![],
        vec![Token::Unit],
        vec![Token::Str("200".to_string())],
        vec![Token::U16(200), Token::U16(200)],
        vec![Token::U16(200), Token::Str("OK".to_string())],
        vec![Token::U16(0), Token::Unit],
    ];
    for tokens in wrong {
        assert_eq!(
            StatusCode::decode(&tokens),
            Err(Error::UnexpectedToken),
            "{:?}",
            tokens
        );
    }
}

#[test]
fn status_is_copied() {
    let status = StatusCode::from_u16(404).unwrap();
    let copy = status;
    assert_eq!(copy, status);
    assert_eq!(copy.encode(), vec![Token::U16(404)]);
}
