use std::collections::BTreeMap;
use std::collections::HashMap;

use apoxy_js::fetch::{FetchRequest, FetchResponse};
use apoxy_js::headers::Headers;
use apoxy_js::wire::{
    put_length, put_mapping, put_nil, put_text, put_uint, read_length, read_mapping,
    read_optional_text, read_text, read_uint, Family, WireError,
};

fn headers_of(pairs: &[(&str, &str)]) -> Headers {
    let mut headers = Headers::new();
    for (name, value) in pairs {
        headers.insert(name.to_string(), value.to_string());
    }
    headers
}

fn request(url: &str, method: &str, pairs: &[(&str, &str)]) -> FetchRequest {
    FetchRequest { url: url.to_string(), method: method.to_string(), headers: headers_of(pairs) }
}

fn sorted(pairs: &[(&str, &str)]) -> BTreeMap<String, String> {
    pairs.iter().map(|(k, v)| (k.to_string(), v.to_string())).collect()
}

#[test]
fn request_bytes_are_exact() {
    let bytes = request("a", "GET", &[]).to_wire().unwrap();
    assert_eq!(bytes, vec![0x93, 0xa1, b'a', 0xa3, b'G', b'E', b'T', 0x80]);
}

#[test]
fn request_bytes_with_a_header_are_exact() {
    let bytes = request("u", "PUT", &[("k", "v")]).to_wire().unwrap();
    assert_eq!(
        bytes,
        vec![0x93, 0xa1, b'u', 0xa3, b'P', b'U', b'T', 0x81, 0xa1, b'k', 0xa1, b'v']
    );
}

#[test]
fn request_bytes_match_rmp_serde() {
    let pairs = [("accept", "*/*"), ("x-trace", "abc")];
    let ours = request("https://example.com/path?q=1", "POST", &pairs).to_wire().unwrap();
    let theirs = rmp_serde::to_vec(&(
        "https://example.com/path?q=1".to_string(),
        "POST".to_string(),
        sorted(&pairs),
    ))
    .unwrap();
    assert_eq!(ours, theirs);
}

#[test]
fn long_texts_match_rmp_serde() {
    for len in [31usize, 32, 255, 256, 65535, 65536, 70000] {
        let url = "x".repeat(len);
        let ours = request(&url, "GET", &[]).to_wire().unwrap();
        let theirs =
            rmp_serde::to_vec(&(url.clone(), "GET".to_string(), sorted(&[]))).unwrap();
        assert_eq!(ours, theirs, "length {}", len);
        let back = FetchRequest::from_wire(&ours).unwrap();
        assert_eq!(back.url, url);
    }
}

#[test]
fn many_headers_match_rmp_serde() {
    let names: Vec<String> = (0..20).map(|i| format!("h{:02}", i)).collect();
    let mut headers = Headers::new();
    let mut map = BTreeMap::new();
    for name in &names {
        headers.insert(name.clone(), "v".to_string());
        map.insert(name.clone(), "v".to_string());
    }
    let ours = FetchRequest { url: "u".to_string(), method: "GET".to_string(), headers }
        .to_wire()
        .unwrap();
    let theirs = rmp_serde::to_vec(&("u".to_string(), "GET".to_string(), map)).unwrap();
    assert_eq!(ours, theirs);
    assert_eq!(ours[7], 0xde);
}

#[test]
fn request_round_trip() {
    let sent = request(
        "https://example.com/a b?c=d&e=\u{00e9}",
        "DELETE",
        &[("content-type", "text/plain"), ("x-empty", ""), ("\u{4e16}", "\u{754c}")],
    );
    let bytes = sent.to_wire().unwrap();
    let back = FetchRequest::from_wire(&bytes).unwrap();
    assert_eq!(back.url, sent.url);
    assert_eq!(back.method, sent.method);
    assert_eq!(back.headers.len(), 3);
    for i in 0..3 {
        assert_eq!(back.headers.name_at(i), sent.headers.name_at(i));
        assert_eq!(back.headers.value_at(i), sent.headers.value_at(i));
    }
}

#[test]
fn request_is_read_by_rmp_serde() {
    let bytes = request("u", "HEAD", &[("a", "1"), ("b", "2")]).to_wire().unwrap();
    let (url, method, headers): (String, String, HashMap<String, String>) =
        rmp_serde::from_slice(&bytes).unwrap();
    assert_eq!(url, "u");
    assert_eq!(method, "HEAD");
    assert_eq!(headers.len(), 2);
    assert_eq!(headers["a"], "1");
    assert_eq!(headers["b"], "2");
}

#[test]
fn request_decoding_ignores_trailing_bytes() {
    let mut bytes = request("u", "GET", &[]).to_wire().unwrap();
    bytes.extend_from_slice(&[1, 2, 3]);
    let back = FetchRequest::from_wire(&bytes).unwrap();
    assert_eq!(back.url, "u");
}

#[test]
fn duplicate_header_on_the_wire_last_wins() {
    let bytes = vec![
        0x93, 0xa1, b'u', 0xa3, b'G', b'E', b'T', 0x82, 0xa1, b'k', 0xa1, b'1', 0xa1, b'k', 0xa1,
        b'2',
    ];
    let back = FetchRequest::from_wire(&bytes).unwrap();
    assert_eq!(back.headers.len(), 1);
    assert_eq!(back.headers.get("k"), Some(&"2".to_string()));
}

#[test]
fn response_from_rmp_serde_bytes() {
    let mut map = HashMap::new();
    map.insert("content-type".to_string(), "text/html".to_string());
    let bytes = rmp_serde::to_vec(&(200u16, map, 4096u64, None::<String>)).unwrap();
    let response = FetchResponse::from_wire(&bytes).unwrap();
    assert_eq!(response.status, 200);
    assert_eq!(response.headers.len(), 1);
    assert_eq!(response.headers.get("content-type"), Some(&"text/html".to_string()));
    assert_eq!(response.body_offset, 4096);
    assert_eq!(response.error, None);
}

#[test]
fn response_with_error_from_rmp_serde_bytes() {
    let map: HashMap<String, String> = HashMap::new();
    let bytes =
        rmp_serde::to_vec(&(502u16, map, 0u64, Some("upstream down".to_string()))).unwrap();
    let response = FetchResponse::from_wire(&bytes).unwrap();
    assert_eq!(response.status, 502);
    assert_eq!(response.body_offset, 0);
    assert_eq!(response.error, Some("upstream down".to_string()));
}

#[test]
fn response_bytes_match_rmp_serde() {
    for (status, offset) in [
        (0u16, 0u64),
        (127, 127),
        (128, 255),
        (200, 256),
        (65535, 65535),
        (404, 65536),
        (500, 0xffff_ffff),
        (201, 0x1_0000_0000),
        (204, u64::MAX),
    ] {
        let response = FetchResponse {
            status,
            headers: headers_of(&[("a", "b")]),
            body_offset: offset,
            error: None,
        };
        let ours = response.to_wire().unwrap();
        let theirs =
            rmp_serde::to_vec(&(status, sorted(&[("a", "b")]), offset, None::<String>)).unwrap();
        assert_eq!(ours, theirs, "status {} offset {}", status, offset);
        let back = FetchResponse::from_wire(&ours).unwrap();
        assert_eq!(back.status, status);
        assert_eq!(back.body_offset, offset);
        assert_eq!(back.error, None);
    }
}

#[test]
fn response_bytes_are_exact() {
    let response = FetchResponse {
        status: 200,
        headers: Headers::new(),
        body_offset: 0,
        error: Some("no".to_string()),
    };
    assert_eq!(
        response.to_wire().unwrap(),
        vec![0x94, 0xcc, 200, 0x80, 0x00, 0xa2, b'n', b'o']
    );
}

#[test]
fn response_accepts_every_integer_width() {
    // status 7 as a signed 16-bit integer, offset 9 as an unsigned 64-bit integer
    let bytes = vec![
        0x94, 0xd1, 0x00, 0x07, 0x80, 0xcf, 0, 0, 0, 0, 0, 0, 0, 9, 0xc0,
    ];
    let response = FetchResponse::from_wire(&bytes).unwrap();
    assert_eq!(response.status, 7);
    assert_eq!(response.body_offset, 9);
    let same: (u16, HashMap<String, String>, u64, Option<String>) =
        rmp_serde::from_slice(&bytes).unwrap();
    assert_eq!(same.0, 7);
    assert_eq!(same.2, 9);
}

#[test]
fn response_accepts_long_forms_of_lengths() {
    // array of 4 with a 16-bit count, empty mapping with a 32-bit count,
    // error "e" with an 8-bit length
    let bytes = vec![
        0xdc, 0x00, 0x04, 0x01, 0xdf, 0, 0, 0, 0, 0x02, 0xd9, 0x01, b'e',
    ];
    let response = FetchResponse::from_wire(&bytes).unwrap();
    assert_eq!(response.status, 1);
    assert_eq!(response.headers.len(), 0);
    assert_eq!(response.body_offset, 2);
    assert_eq!(response.error, Some("e".to_string()));
}

#[test]
fn decoding_errors() {
    assert_eq!(FetchResponse::from_wire(&[]).unwrap_err(), WireError::Truncated);
    assert_eq!(FetchResponse::from_wire(&[0x94]).unwrap_err(), WireError::Truncated);
    assert_eq!(FetchResponse::from_wire(&[0x84]).unwrap_err(), WireError::Mismatch);
    assert_eq!(FetchResponse::from_wire(&[0x93, 0, 0x80, 0]).unwrap_err(), WireError::WrongFieldCount);
    assert_eq!(
        FetchResponse::from_wire(&[0x94, 0xce, 0, 1, 0, 0, 0x80, 0, 0xc0]).unwrap_err(),
        WireError::OutOfRange
    );
    assert_eq!(
        FetchResponse::from_wire(&[0x94, 0xd0, 0xff, 0x80, 0, 0xc0]).unwrap_err(),
        WireError::OutOfRange
    );
    assert_eq!(
        FetchResponse::from_wire(&[0x94, 0xff, 0x80, 0, 0xc0]).unwrap_err(),
        WireError::OutOfRange
    );
    assert_eq!(
        FetchResponse::from_wire(&[0x94, 0xa1, b'x', 0x80, 0, 0xc0]).unwrap_err(),
        WireError::Mismatch
    );
    assert_eq!(
        FetchResponse::from_wire(&[0x94, 0, 0x80, 0, 0xa2, 0xff, 0xfe]).unwrap_err(),
        WireError::InvalidText
    );
    assert_eq!(
        FetchResponse::from_wire(&[0x94, 0, 0x81, 0xa1, b'k']).unwrap_err(),
        WireError::Truncated
    );
    assert_eq!(
        FetchResponse::from_wire(&[0x94, 0, 0x80, 0, 0xa5, b'a']).unwrap_err(),
        WireError::Truncated
    );
    assert_eq!(FetchRequest::from_wire(&[0x94]).unwrap_err(), WireError::WrongFieldCount);
    assert_eq!(FetchRequest::from_wire(&[0x93, 0x01]).unwrap_err(), WireError::Mismatch);
}

#[test]
fn huge_announced_counts_end_as_truncated() {
    assert_eq!(
        FetchResponse::from_wire(&[0x94, 0, 0xdf, 0xff, 0xff, 0xff, 0xff]).unwrap_err(),
        WireError::Truncated
    );
    assert_eq!(
        FetchRequest::from_wire(&[0x93, 0xdb, 0xff, 0xff, 0xff, 0xff, b'a']).unwrap_err(),
        WireError::Truncated
    );
}

#[test]
fn primitive_writers_write_the_shortest_form() {
    let mut out = Vec::new();
    put_uint(&mut out, 0);
    put_uint(&mut out, 127);
    put_uint(&mut out, 128);
    put_uint(&mut out, 256);
    put_uint(&mut out, 65536);
    put_uint(&mut out, 0x1_0000_0000);
    put_nil(&mut out);
    assert_eq!(
        out,
        vec![
            0x00, 0x7f, 0xcc, 0x80, 0xcd, 0x01, 0x00, 0xce, 0x00, 0x01, 0x00, 0x00, 0xcf, 0, 0, 0,
            1, 0, 0, 0, 0, 0xc0
        ]
    );
    let mut out = Vec::new();
    put_length(&mut out, Family::Text, 31);
    put_length(&mut out, Family::Text, 32);
    put_length(&mut out, Family::Array, 15);
    put_length(&mut out, Family::Array, 16);
    put_length(&mut out, Family::Mapping, 15);
    put_length(&mut out, Family::Mapping, 65536);
    assert_eq!(
        out,
        vec![0xbf, 0xd9, 32, 0x9f, 0xdc, 0, 16, 0x8f, 0xdf, 0, 1, 0, 0]
    );
    let mut out = Vec::new();
    assert_eq!(put_text(&mut out, "h\u{e9}"), Ok(()));
    assert_eq!(out, vec![0xa3, b'h', 0xc3, 0xa9]);
}

#[test]
fn primitive_readers_give_value_and_next_place() {
    let bytes = [0xff, 0xcd, 0x12, 0x34, 0xa2, b'o', b'k', 0xc0, 0xdc, 0x00, 0x03];
    assert_eq!(read_uint(&bytes, 1), Ok((0x1234, 4)));
    assert_eq!(read_text(&bytes, 4), Ok(("ok".to_string(), 7)));
    assert_eq!(read_optional_text(&bytes, 7), Ok((None, 8)));
    assert_eq!(read_optional_text(&bytes, 4), Ok((Some("ok".to_string()), 7)));
    assert_eq!(read_length(&bytes, 8, Family::Array), Ok((3, 11)));
    assert_eq!(read_length(&bytes, 8, Family::Mapping), Err(WireError::Mismatch));
    assert_eq!(read_uint(&bytes, 11), Err(WireError::Truncated));
    assert_eq!(read_uint(&bytes, 0), Err(WireError::OutOfRange));
}

#[test]
fn reading_past_the_end_is_truncated() {
    let bytes = [0x01, 0xa1, b'x'];
    assert_eq!(read_uint(&bytes, 3), Err(WireError::Truncated));
    assert_eq!(read_uint(&bytes, 100), Err(WireError::Truncated));
    assert_eq!(read_text(&bytes, 4), Err(WireError::Truncated));
    assert_eq!(read_optional_text(&bytes, usize::MAX), Err(WireError::Truncated));
    assert_eq!(read_length(&bytes, 7, Family::Text), Err(WireError::Truncated));
    assert!(matches!(read_mapping(&bytes, 9), Err(WireError::Truncated)));
    assert_eq!(read_text(&bytes, 1), Ok(("x".to_string(), 3)));
}

#[test]
fn mapping_is_read_with_its_next_place() {
    let bytes = [0xff, 0x82, 0xa1, b'a', 0xa1, b'1', 0xa1, b'b', 0xa0, 0x07];
    let (headers, next) = read_mapping(&bytes, 1).unwrap();
    assert_eq!(next, 9);
    assert_eq!(headers.len(), 2);
    assert_eq!(headers.get("a"), Some(&"1".to_string()));
    assert_eq!(headers.get("b"), Some(&"".to_string()));
    let mut out = vec![0xff];
    assert_eq!(put_mapping(&mut out, &headers), Ok(()));
    assert_eq!(out, bytes[..9].to_vec());
}

