//! Field codec behaviour: hex addresses and hashes, decimal big integers,
//! and the two timestamp wire shapes.

use opensea_stream::codec::{Address, BigUint, Hash256, Timestamp};
use opensea_stream::json::{parse_json, Json};

fn addr_bytes(b: u8) -> Vec<u8> {
    vec![b; 20]
}

#[test]
fn address_round_trip() {
    let a = Address::from_bytes(addr_bytes(0xab)).unwrap();
    let encoded = a.encode();
    let back = Address::decode(&encoded).unwrap();
    assert_eq!(back.bytes(), a.bytes());
}

#[test]
fn address_round_trip_mixed_bytes() {
    let mut bytes = Vec::new();
    for i in 0..20u8 {
        bytes.push(i.wrapping_mul(13).wrapping_add(7));
    }
    let a = Address::from_bytes(bytes.clone()).unwrap();
    let back = Address::decode(&a.encode()).unwrap();
    assert_eq!(back.bytes(), &bytes);
}

#[test]
fn address_accepts_prefix_and_bare_and_uppercase() {
    let with = parse_json(b"{\"address\":\"0xABABABABABABABABABABABABABABABABABABABAB\"}").unwrap();
    let bare = parse_json(b"{\"address\":\"abababababababababababababababababababab\"}").unwrap();
    let a1 = Address::decode(&with).unwrap();
    let a2 = Address::decode(&bare).unwrap();
    assert_eq!(a1.bytes(), a2.bytes());
    assert_eq!(a1.bytes(), &addr_bytes(0xab));
}

#[test]
fn address_rejects_wrong_length_and_bad_digits() {
    let short = parse_json(b"{\"address\":\"0xabab\"}").unwrap();
    assert!(Address::decode(&short).is_none());
    let bad = parse_json(b"{\"address\":\"0xzzabababababababababababababababababab\"}").unwrap();
    assert!(Address::decode(&bad).is_none());
    let missing = parse_json(b"{\"addr\":\"0xabababababababababababababababababababab\"}").unwrap();
    assert!(Address::decode(&missing).is_none());
}

#[test]
fn hash_round_trip() {
    let h = Hash256::from_bytes(vec![0xcd; 32]).unwrap();
    let back = Hash256::decode(&h.encode()).unwrap();
    assert_eq!(back.bytes(), h.bytes());
}

#[test]
fn bigint_round_trip_beyond_64_bits() {
    // a value needing 128 bits
    let n: u128 = 1u128 << 127;
    let b = BigUint::from_u128(n);
    let encoded = b.encode();
    let back = BigUint::decode(&encoded).unwrap();
    assert_eq!(back.digits(), b.digits());
    assert_eq!(back.digits(), &b"170141183460469231731687303715884105728".to_vec());
}

#[test]
fn bigint_zero_renders_as_single_zero() {
    let z = BigUint::zero();
    assert_eq!(z.digits(), &b"0".to_vec());
    let z2 = BigUint::from_u128(0);
    assert_eq!(z2.digits(), &b"0".to_vec());
}

#[test]
fn bigint_strips_leading_zeros() {
    let v = parse_json(b"\"000123\"").unwrap();
    let b = BigUint::decode(&v).unwrap();
    assert_eq!(b.digits(), &b"123".to_vec());
}

#[test]
fn bigint_rejects_sign_prefix_and_empty_and_letters() {
    for bad in [&b"\"\""[..], b"\"-5\"", b"\"0x10\"", b"\"12a\"", b"17"] {
        let v = parse_json(bad).unwrap();
        assert!(BigUint::decode(&v).is_none(), "accepted {:?}", bad);
    }
}

#[test]
fn timestamp_offset_string_equals_epoch_forms() {
    // 2023-08-01T22:39:32+00:00 is epoch second 1690929572
    let rfc = parse_json(b"\"2023-08-01T22:39:32+00:00\"").unwrap();
    let epoch_str = parse_json(b"\"1690929572\"").unwrap();
    let epoch_num = parse_json(b"1690929572").unwrap();
    let t1 = Timestamp::decode(&rfc).unwrap();
    let t2 = Timestamp::decode(&epoch_str).unwrap();
    let t3 = Timestamp::decode(&epoch_num).unwrap();
    assert_eq!(t1, t2);
    assert_eq!(t2, t3);
    assert_eq!(t1.secs, 1690929572);
    assert_eq!(t1.nanos, 0);
}

#[test]
fn timestamp_nonzero_offset_shifts_instant() {
    let plus2 = parse_json(b"\"2023-08-01T22:39:32+02:00\"").unwrap();
    let t = Timestamp::decode(&plus2).unwrap();
    assert_eq!(t.secs, 1690929572 - 7200);
    let minus0330 = parse_json(b"\"2023-08-01T22:39:32-03:30\"").unwrap();
    let t2 = Timestamp::decode(&minus0330).unwrap();
    assert_eq!(t2.secs, 1690929572 + 3 * 3600 + 30 * 60);
}

#[test]
fn timestamp_fraction_becomes_nanos() {
    let v = parse_json(b"\"2023-08-01T22:39:32.033948+00:00\"").unwrap();
    let t = Timestamp::decode(&v).unwrap();
    assert_eq!(t.secs, 1690929572);
    assert_eq!(t.nanos, 33_948_000);
}

#[test]
fn timestamp_z_and_lowercase_accepted() {
    let z = parse_json(b"\"1970-01-01T00:00:00Z\"").unwrap();
    assert_eq!(Timestamp::decode(&z).unwrap().secs, 0);
    let t = parse_json(b"\"2000-03-01t00:00:00z\"").unwrap();
    // 2000 is a leap year: 2000-03-01 is epoch day 11017
    assert_eq!(Timestamp::decode(&t).unwrap().secs, 11017 * 86400);
}

#[test]
fn timestamp_rejects_malformed() {
    for bad in [
        &b"\"2023-13-01T00:00:00Z\""[..],
        b"\"2023-02-29T00:00:00Z\"",
        b"\"2023-08-01T24:00:00Z\"",
        b"\"2023-08-01T00:00:00\"",
        b"\"2023-08-01\"",
        b"\"not a date\"",
        b"true",
    ] {
        let v = parse_json(bad).unwrap();
        assert!(Timestamp::decode(&v).is_none(), "accepted {:?}", bad);
    }
}

#[test]
fn timestamp_encodes_epoch_seconds_string() {
    let t = Timestamp::from_parts(1690929572, 33_948_000).unwrap();
    match t.encode() {
        Json::Str(s) => assert_eq!(s, b"1690929572".to_vec()),
        other => panic!("expected a string, got {:?}", other),
    }
    let neg = Timestamp::from_parts(-62, 0).unwrap();
    match neg.encode() {
        Json::Str(s) => assert_eq!(s, b"-62".to_vec()),
        other => panic!("expected a string, got {:?}", other),
    }
}

#[test]
fn timestamp_negative_epoch_string() {
    let v = parse_json(b"\"-1\"").unwrap();
    assert_eq!(Timestamp::decode(&v).unwrap().secs, -1);
}
