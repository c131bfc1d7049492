//! Encoder and query-string behaviour on concrete values.

use rest_shim::encode::{percent_decode, percent_encode};
use rest_shim::query::{emit_query, parse_query, IncludePolicy, QueryParam};

fn is_unreserved_byte(b: u8) -> bool {
    b.is_ascii_alphanumeric() || b == b'-' || b == b'.' || b == b'_' || b == b'~'
}

#[test]
fn encode_passes_unreserved_through() {
    let out = percent_encode(b"AZaz09-._~");
    assert_eq!(out, b"AZaz09-._~".to_vec());
}

#[test]
fn encode_escapes_reserved_bytes() {
    let out = percent_encode(b"a b/c");
    assert_eq!(out, b"a%20b%2Fc".to_vec());
}

#[test]
fn encode_escapes_every_reserved_character() {
    // No byte of the output may be an unencoded reserved character or a
    // placeholder delimiter: only unreserved bytes, `%`, and hex digits.
    let out = percent_encode(b"/?#[]@!$&'()*+,;={}\xc3\xa9");
    for &b in &out {
        assert!(is_unreserved_byte(b) || b == b'%' || b.is_ascii_hexdigit());
    }
    assert_eq!(out[0..3].to_vec(), b"%2F".to_vec());
}

#[test]
fn decode_inverts_encode() {
    let raw = b"name with /?&= and \xc3\xa9 inside".to_vec();
    let decoded = percent_decode(&percent_encode(&raw));
    assert_eq!(decoded, raw);
}

#[test]
fn decode_passes_malformed_escape_through() {
    assert_eq!(percent_decode(b"%ZZ%4"), b"%ZZ%4".to_vec());
    assert_eq!(percent_decode(b"%41"), b"A".to_vec());
}

#[test]
fn query_emits_in_declaration_order() {
    let params = vec![
        QueryParam { name: b"end_date".to_vec(), value: b"2020-12-31".to_vec(), policy: IncludePolicy::IfNonEmpty },
        QueryParam { name: b"start_date".to_vec(), value: b"2020-01-01".to_vec(), policy: IncludePolicy::IfNonEmpty },
    ];
    let q = emit_query(&params);
    assert_eq!(q, b"end_date=2020-12-31&start_date=2020-01-01".to_vec());
}

#[test]
fn query_omits_empty_optional_and_keeps_always() {
    let params = vec![
        QueryParam { name: b"skipped".to_vec(), value: Vec::new(), policy: IncludePolicy::IfNonEmpty },
        QueryParam { name: b"kept".to_vec(), value: Vec::new(), policy: IncludePolicy::Always },
    ];
    let q = emit_query(&params);
    assert_eq!(q, b"kept=".to_vec());
}

#[test]
fn query_round_trips_present_pairs() {
    let params = vec![
        QueryParam { name: b"a".to_vec(), value: b"1&2=3".to_vec(), policy: IncludePolicy::Always },
        QueryParam { name: b"gone".to_vec(), value: Vec::new(), policy: IncludePolicy::IfNonEmpty },
        QueryParam { name: b"b c".to_vec(), value: b"x y".to_vec(), policy: IncludePolicy::IfNonEmpty },
    ];
    let q = emit_query(&params);
    let parsed = parse_query(&q);
    assert_eq!(parsed.len(), 2);
    assert_eq!(parsed[0].0, b"a".to_vec());
    assert_eq!(parsed[0].1, b"1&2=3".to_vec());
    assert_eq!(parsed[1].0, b"b c".to_vec());
    assert_eq!(parsed[1].1, b"x y".to_vec());
}

#[test]
fn parse_splits_on_separators() {
    let parsed = parse_query(b"a=1&b=2&c");
    assert_eq!(parsed.len(), 3);
    assert_eq!(parsed[0], (b"a".to_vec(), b"1".to_vec()));
    assert_eq!(parsed[1], (b"b".to_vec(), b"2".to_vec()));
    assert_eq!(parsed[2], (b"c".to_vec(), Vec::new()));
}
