use std::io::Read;

use web_blog::encoded::parse_accept_encoding;
use web_blog::encoded::AcceptEncodingHeader;
use web_blog::encoded::EncodedContent;
use web_blog::encoded::EncodingChoice;

fn body() -> Vec<u8> {
    let mut data = Vec::new();
    for i in 0..2000u32 {
        data.push((i % 251) as u8);
        data.push(b'a');
        data.push(b'a');
    }
    data
}

fn header_for(value: &str) -> AcceptEncodingHeader {
    AcceptEncodingHeader::from_header(Some(value)).expect("header should parse")
}

#[test]
fn parses_known_tokens_in_order() {
    let parsed = parse_accept_encoding("gzip, br").expect("should parse");
    assert_eq!(parsed, vec![EncodingChoice::Gzip, EncodingChoice::Brotli]);
}

#[test]
fn parsing_is_case_insensitive_and_trims() {
    let parsed = parse_accept_encoding(" GZip ,\tBR , DEFLATE, identity").expect("should parse");
    assert_eq!(
        parsed,
        vec![
            EncodingChoice::Gzip,
            EncodingChoice::Brotli,
            EncodingChoice::Deflate,
            EncodingChoice::Identity
        ]
    );
}

#[test]
fn unknown_token_fails_the_whole_header() {
    assert_eq!(parse_accept_encoding("gzip, frobnicate"), None);
    assert!(AcceptEncodingHeader::from_header(Some("zstd")).is_none());
}

#[test]
fn empty_header_value_fails() {
    assert_eq!(parse_accept_encoding(""), None);
}

#[test]
fn gzip_and_brotli_pick_brotli_not_gzip() {
    let content = body();
    let encoded = EncodedContent::new(&content, &header_for("gzip, br"));
    assert_eq!(encoded.encoding, EncodingChoice::Brotli);
    let mut decoder = brotli::Decompressor::new(encoded.inner.as_slice(), 4096);
    let mut out = Vec::new();
    decoder.read_to_end(&mut out).expect("brotli stream should decode");
    assert_eq!(out, content);
    assert_ne!(encoded.inner, content);
}

#[test]
fn gzip_alone_is_chosen_and_round_trips() {
    let content = body();
    let encoded = EncodedContent::new(&content, &header_for("gzip"));
    assert_eq!(encoded.encoding, EncodingChoice::Gzip);
    let mut decoder =
        libflate::gzip::Decoder::new(encoded.inner.as_slice()).expect("gzip header should parse");
    let mut out = Vec::new();
    decoder.read_to_end(&mut out).expect("gzip stream should decode");
    assert_eq!(out, content);
    assert_ne!(encoded.inner, content);
}

#[test]
fn deflate_alone_is_chosen_and_round_trips() {
    let content = body();
    let encoded = EncodedContent::new(&content, &header_for("deflate"));
    assert_eq!(encoded.encoding, EncodingChoice::Deflate);
    let mut decoder = libflate::deflate::Decoder::new(encoded.inner.as_slice());
    let mut out = Vec::new();
    decoder.read_to_end(&mut out).expect("deflate stream should decode");
    assert_eq!(out, content);
    assert_ne!(encoded.inner, content);
}

#[test]
fn deflate_loses_to_gzip_and_gzip_to_brotli() {
    let content = body();
    let encoded = EncodedContent::new(&content, &header_for("deflate, gzip"));
    assert_eq!(encoded.encoding, EncodingChoice::Gzip);
    let encoded = EncodedContent::new(&content, &header_for("deflate, br, gzip"));
    assert_eq!(encoded.encoding, EncodingChoice::Brotli);
    let encoded = EncodedContent::new(&content, &header_for("deflate"));
    assert_eq!(encoded.encoding, EncodingChoice::Deflate);
}

#[test]
fn absent_header_means_identity() {
    let content = body();
    let header = AcceptEncodingHeader::from_header(None).expect("absent header is accepted");
    assert!(header.accept_encoding.is_none());
    let encoded = EncodedContent::new(&content, &header);
    assert_eq!(encoded.encoding, EncodingChoice::Identity);
    assert_eq!(encoded.inner, content);
}

#[test]
fn no_match_means_identity() {
    let content = body();
    let encoded = EncodedContent::new(&content, &header_for("identity"));
    assert_eq!(encoded.encoding, EncodingChoice::Identity);
    assert_eq!(encoded.inner, content);
}
