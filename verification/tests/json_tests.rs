//! The JSON reader on raw bytes: values, strings with escapes, numbers,
//! structure, and rejections.

use opensea_stream::json::{parse_json, Json};

fn parse(s: &str) -> Option<Json> {
    parse_json(s.as_bytes())
}

#[test]
fn scalars() {
    assert!(matches!(parse("null"), Some(Json::Null)));
    assert!(matches!(parse("true"), Some(Json::Bool(true))));
    assert!(matches!(parse("false"), Some(Json::Bool(false))));
    assert!(matches!(parse("42"), Some(Json::Int(42))));
    assert!(matches!(parse("-7"), Some(Json::Int(-7))));
    assert!(matches!(parse("0"), Some(Json::Int(0))));
}

#[test]
fn strings_and_escapes() {
    match parse("\"hello\"").unwrap() {
        Json::Str(s) => assert_eq!(s, b"hello".to_vec()),
        other => panic!("{:?}", other),
    }
    match parse(r#""a\"b\\c\/d\n\t""#).unwrap() {
        Json::Str(s) => assert_eq!(s, b"a\"b\\c/d\n\t".to_vec()),
        other => panic!("{:?}", other),
    }
    // é is é, UTF-8 bytes C3 A9; a surrogate pair spells U+1F600
    match parse(r#""café""#).unwrap() {
        Json::Str(s) => assert_eq!(s, vec![b'c', b'a', b'f', 0xC3, 0xA9]),
        other => panic!("{:?}", other),
    }
    match parse(r#""😀""#).unwrap() {
        Json::Str(s) => assert_eq!(s, vec![0xF0, 0x9F, 0x98, 0x80]),
        other => panic!("{:?}", other),
    }
}

#[test]
fn numbers_beyond_plain_integers_keep_their_text() {
    match parse("1.5").unwrap() {
        Json::Num(s) => assert_eq!(s, b"1.5".to_vec()),
        other => panic!("{:?}", other),
    }
    match parse("-2e10").unwrap() {
        Json::Num(s) => assert_eq!(s, b"-2e10".to_vec()),
        other => panic!("{:?}", other),
    }
    // nineteen digits: kept verbatim rather than as an integer
    match parse("9999999999999999999").unwrap() {
        Json::Num(s) => assert_eq!(s, b"9999999999999999999".to_vec()),
        other => panic!("{:?}", other),
    }
}

#[test]
fn structure_and_whitespace() {
    let v = parse(" { \"a\" : [ 1 , 2 ] , \"b\" : { } } \n").unwrap();
    match v {
        Json::Obj(members) => {
            assert_eq!(members.len(), 2);
            assert_eq!(members[0].0, b"a".to_vec());
            match &members[0].1 {
                Json::Arr(items) => {
                    assert_eq!(items.len(), 2);
                    assert!(matches!(items[0], Json::Int(1)));
                    assert!(matches!(items[1], Json::Int(2)));
                },
                other => panic!("{:?}", other),
            }
        },
        other => panic!("{:?}", other),
    }
}

#[test]
fn malformed_documents_are_refused() {
    for bad in [
        "", "{", "}", "[1,", "[1 2]", "{\"a\":}", "{\"a\" 1}", "{a:1}", "nul", "tru", "01",
        "+1", "1e", "\"unterminated", "\"bad\\escape\"", "\"ctrl\u{0}\"", "[] []", "1 2",
        r#""\ud83d""#,
    ] {
        assert!(parse(bad).is_none(), "accepted {:?}", bad);
    }
}

#[test]
fn first_member_wins_on_lookup() {
    // lookups take the first member of a name; both members survive parsing
    let v = parse("{\"k\":1,\"k\":2}").unwrap();
    match v {
        Json::Obj(members) => assert_eq!(members.len(), 2),
        other => panic!("{:?}", other),
    }
}
