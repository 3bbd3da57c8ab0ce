//! The JSON codec against concrete wire texts, including a cross-check
//! with an independent JSON implementation.

use xtb::decimal::Decimal;
use xtb::json::{decode_json, encode_json, Json};

fn s(bytes: &[u8]) -> Json {
    Json::Str(bytes.to_vec())
}

#[test]
fn prints_canonical_object() {
    let j = Json::Obj(vec![
        (b"name".to_vec(), s(b"abc")),
        (b"ok".to_vec(), Json::Bool(true)),
        (b"n".to_vec(), Json::Num(Decimal { neg: false, mag: 42, scale: 0 })),
    ]);
    let out = encode_json(&j);
    assert_eq!(out, b"{\"name\":\"abc\",\"ok\":true,\"n\":42}".to_vec());
}

#[test]
fn prints_decimals_exactly() {
    let cases: Vec<(Decimal, &[u8])> = vec![
        (Decimal { neg: false, mag: 0, scale: 0 }, b"0"),
        (Decimal { neg: true, mag: 1250, scale: 2 }, b"-12.50"),
        (Decimal { neg: false, mag: 5, scale: 2 }, b"0.05"),
        (Decimal { neg: false, mag: 20000000, scale: 1 }, b"2000000.0"),
        (Decimal { neg: true, mag: 7, scale: 0 }, b"-7"),
    ];
    for (d, expect) in cases {
        let out = encode_json(&Json::Num(d));
        assert_eq!(out, expect.to_vec());
    }
}

#[test]
fn parses_what_it_prints() {
    let j = Json::Arr(vec![
        Json::Null,
        Json::Bool(false),
        Json::Num(Decimal { neg: true, mag: 31415, scale: 4 }),
        s(b"hi there"),
        Json::Obj(vec![(b"k".to_vec(), Json::Arr(vec![]))]),
    ]);
    let out = encode_json(&j);
    let back = decode_json(&out).expect("canonical text must parse");
    assert_eq!(back, j);
}

#[test]
fn escapes_round_trip() {
    let tricky = b"q\"uote b\\ack\nnew\rret\ttab \x01ctl".to_vec();
    let j = Json::Str(tricky.clone());
    let out = encode_json(&j);
    let back = decode_json(&out).expect("escaped text must parse");
    assert_eq!(back, Json::Str(tricky));
}

#[test]
fn parses_common_escapes() {
    let back = decode_json(b"\"a\\u0041\\/\\b\\f\"").expect("escapes parse");
    assert_eq!(back, Json::Str(b"aA/\x08\x0c".to_vec()));
}

#[test]
fn tolerates_whitespace() {
    let back = decode_json(b" { \"a\" : [ 1 , 2 ] , \"b\" : null } ").expect("spaced text parses");
    let expect = Json::Obj(vec![
        (
            b"a".to_vec(),
            Json::Arr(vec![
                Json::Num(Decimal { neg: false, mag: 1, scale: 0 }),
                Json::Num(Decimal { neg: false, mag: 2, scale: 0 }),
            ]),
        ),
        (b"b".to_vec(), Json::Null),
    ]);
    assert_eq!(back, expect);
}

#[test]
fn rejects_malformed_text() {
    assert!(decode_json(b"").is_none());
    assert!(decode_json(b"{").is_none());
    assert!(decode_json(b"{\"a\":}").is_none());
    assert!(decode_json(b"[1,]").is_none());
    assert!(decode_json(b"12.").is_none());
    assert!(decode_json(b"tru").is_none());
    assert!(decode_json(b"\"unterminated").is_none());
    assert!(decode_json(b"{} trailing").is_none());
}

#[test]
fn rejects_oversized_magnitudes() {
    // One digit past what u64 can carry.
    assert!(decode_json(b"18446744073709551616").is_none());
    assert!(decode_json(b"18446744073709551615").is_some());
}

#[test]
fn agrees_with_serde_json_on_printed_text() {
    let j = Json::Obj(vec![
        (b"sym".to_vec(), s(b"EURUSD")),
        (b"vol".to_vec(), Json::Num(Decimal { neg: false, mag: 12345, scale: 2 })),
        (b"flag".to_vec(), Json::Bool(true)),
        (b"nothing".to_vec(), Json::Null),
    ]);
    let out = encode_json(&j);
    let v: serde_json::Value = serde_json::from_slice(&out).expect("serde_json accepts our text");
    assert_eq!(v["sym"], serde_json::Value::String("EURUSD".to_string()));
    assert_eq!(v["vol"].as_f64(), Some(123.45));
    assert_eq!(v["flag"], serde_json::Value::Bool(true));
    assert!(v["nothing"].is_null());
}

#[test]
fn reads_serde_json_output() {
    let mut m = serde_json::Map::new();
    m.insert("b".to_string(), serde_json::Value::from(2u64));
    m.insert("a".to_string(), serde_json::Value::String("x".to_string()));
    let v = serde_json::Value::Object(m);
    let text = serde_json::to_string(&v).expect("serde_json prints");
    let back = decode_json(text.as_bytes()).expect("we accept serde_json's text");
    match back {
        Json::Obj(fields) => {
            assert_eq!(fields.len(), 2);
            assert!(fields.contains(&(b"a".to_vec(), Json::Str(b"x".to_vec()))));
            assert!(fields.contains(&(
                b"b".to_vec(),
                Json::Num(Decimal { neg: false, mag: 2, scale: 0 })
            )));
        }
        other => panic!("expected an object, got {:?}", other),
    }
}

#[test]
fn decimal_integer_conversions() {
    assert_eq!(Decimal::from_i64(i64::MIN).to_i64(), Some(i64::MIN));
    assert_eq!(Decimal::from_i64(-1).to_i64(), Some(-1));
    assert_eq!(Decimal::from_u64(u64::MAX).to_u64(), Some(u64::MAX));
    assert_eq!(Decimal { neg: false, mag: 5, scale: 1 }.to_i64(), None);
    assert_eq!(Decimal { neg: true, mag: 5, scale: 0 }.to_u64(), None);
}
