use std::io::Read;

use http_dump::process::pro_http::{charset_of, HeaderMap, ProArgHttp};
use http_dump::text::{lines_of, trim_str};

fn arg(head_show: bool, body_show: bool, itself: bool) -> ProArgHttp {
    ProArgHttp {
        head_show,
        body_show,
        itself,
    }
}

fn gzip(data: &[u8]) -> Vec<u8> {
    let mut encoder =
        flate2::read::GzEncoder::new(data, flate2::Compression::default());
    let mut out = Vec::new();
    encoder.read_to_end(&mut out).unwrap();
    out
}

const REQUEST: &[u8] = b"GET / HTTP/1.1\r\nHost: x\r\n\r\nbody";

#[test]
fn itself_returns_input_unchanged() {
    let out = arg(true, true, true).byte_process(REQUEST);
    assert_eq!(out, REQUEST.to_vec());
}

#[test]
fn itself_body_only_returns_exactly_the_body() {
    let out = arg(false, true, true).byte_process(REQUEST);
    assert_eq!(out, b"body".to_vec());
}

#[test]
fn head_only_returns_the_header_section() {
    let out = arg(true, false, false).byte_process(REQUEST);
    assert_eq!(out, b"GET / HTTP/1.1\r\nHost: x".to_vec());
}

#[test]
fn neither_section_returns_nothing() {
    let out = arg(false, false, false).byte_process(REQUEST);
    assert_eq!(out, Vec::<u8>::new());
}

#[test]
fn decoded_output_keeps_plain_text() {
    let out = arg(true, true, false).byte_process(REQUEST);
    assert_eq!(out, REQUEST.to_vec());
}

#[test]
fn no_separator_means_header_only() {
    let input = b"GET / HTTP/1.1\r\nHost: x";
    let out = arg(true, true, false).byte_process(input);
    // Header and (empty) body are joined by the blank line again.
    assert_eq!(out, b"GET / HTTP/1.1\r\nHost: x\r\n\r\n".to_vec());
    let body = arg(false, true, false).byte_process(input);
    assert_eq!(body, Vec::<u8>::new());
}

#[test]
fn empty_input_with_both_sections_is_a_blank_line() {
    let out = arg(true, true, false).byte_process(b"");
    assert_eq!(out, b"\r\n\r\n".to_vec());
}

#[test]
fn gzip_body_is_decompressed() {
    let mut input = b"HTTP/1.1 200 OK\r\nContent-Encoding: gzip\r\n\r\n".to_vec();
    input.extend_from_slice(&gzip(b"hello gzip"));
    let out = arg(false, true, false).byte_process(&input);
    assert_eq!(out, b"hello gzip".to_vec());
}

#[test]
fn corrupted_gzip_body_is_returned_compressed() {
    let mut broken = gzip(b"hello gzip");
    broken[0] ^= 0xff;
    let map = ProArgHttp::read_head(b"HTTP/1.1 200 OK\r\nContent-Encoding: gzip\r\n");
    let out = ProArgHttp::decompress(&map, broken.clone());
    assert_eq!(out, broken);
}

#[test]
fn well_formed_gzip_decompresses_to_the_original() {
    let map = ProArgHttp::read_head(b"HTTP/1.1 200 OK\r\nContent-Encoding: gzip\r\n");
    let out = ProArgHttp::decompress(&map, gzip(b"round trip \xff bytes"));
    assert_eq!(out, b"round trip \xff bytes".to_vec());
}

#[test]
fn unknown_content_encoding_yields_the_note() {
    let input = b"HTTP/1.1 200 OK\r\nContent-Encoding: br\r\n\r\npayload bytes";
    let out = arg(false, true, false).byte_process(input);
    assert_eq!(out, "不支持的压缩协议".as_bytes().to_vec());
}

#[test]
fn the_note_does_not_depend_on_the_body() {
    let with_empty_body =
        arg(false, true, false).byte_process(b"HTTP/1.1 200 OK\r\nContent-Encoding: br\r\n\r\nx");
    let with_other_body = arg(false, true, false)
        .byte_process(b"HTTP/1.1 200 OK\r\nContent-Encoding: zstd\r\n\r\nsomething else entirely");
    assert_eq!(with_empty_body, with_other_body);
    assert_eq!(with_empty_body, "\u{4e0d}\u{652f}\u{6301}\u{7684}\u{538b}\u{7f29}\u{534f}\u{8bae}".as_bytes().to_vec());
}

#[test]
fn identity_content_encoding_is_untouched() {
    let input = b"HTTP/1.1 200 OK\r\nContent-Encoding: identity\r\n\r\npayload";
    let out = arg(false, true, false).byte_process(input);
    assert_eq!(out, b"payload".to_vec());
}

#[test]
fn chunked_body_drops_the_first_size_line() {
    let input = b"HTTP/1.1 200 OK\r\nTransfer-Encoding: chunked\r\n\r\n5\r\nhello";
    let out = arg(false, true, false).byte_process(input);
    assert_eq!(out, b"hello".to_vec());
}

#[test]
fn chunked_body_without_crlf_becomes_empty() {
    let input = b"HTTP/1.1 200 OK\r\nTransfer-Encoding: chunked\r\n\r\nhello";
    let out = arg(false, true, false).byte_process(input);
    assert_eq!(out, Vec::<u8>::new());
}

#[test]
fn other_transfer_encoding_is_untouched() {
    let input = b"HTTP/1.1 200 OK\r\nTransfer-Encoding: compress\r\n\r\n5\r\nhello";
    let out = arg(false, true, false).byte_process(input);
    assert_eq!(out, b"5\r\nhello".to_vec());
}

#[test]
fn chunked_then_gzip_are_both_undone() {
    let mut input =
        b"HTTP/1.1 200 OK\r\nTransfer-Encoding: chunked\r\nContent-Encoding: gzip\r\n\r\n1f\r\n"
            .to_vec();
    input.extend_from_slice(&gzip(b"layered"));
    let out = arg(false, true, true).byte_process(&input);
    assert_ne!(out, b"layered".to_vec());
    let out = arg(false, true, false).byte_process(&input);
    assert_eq!(out, b"layered".to_vec());
}

#[test]
fn invalid_utf8_is_repaired_in_decoded_output() {
    let input = b"GET / HTTP/1.1\r\nHost: x\r\n\r\nab\xffcd";
    let out = arg(false, true, false).byte_process(input);
    // 0xff is no UTF-8: it comes out as the replacement character.
    assert_eq!(out, b"ab\xef\xbf\xbdcd".to_vec());
    // Raw mode leaves the byte alone.
    let raw = arg(false, true, true).byte_process(input);
    assert_eq!(raw, b"ab\xffcd".to_vec());
}

#[test]
fn read_head_parses_and_trims() {
    let map = ProArgHttp::read_head(b"GET / HTTP/1.1\r\n  Host :  x y \r\nEmpty:\r\nNoColonLine\r\n");
    assert_eq!(map.get("Host").unwrap().as_str(), "x y");
    assert_eq!(map.get("Empty").unwrap().as_str(), "");
    assert!(map.get("NoColonLine").is_none());
    assert!(map.get("GET / HTTP/1.1").is_none());
}

#[test]
fn read_head_last_occurrence_wins() {
    let map = ProArgHttp::read_head(b"HTTP/1.1 200 OK\r\nX-A: one\r\nX-A: two\r\n");
    assert_eq!(map.get("X-A").unwrap().as_str(), "two");
}

#[test]
fn read_head_skips_the_first_line_even_with_colon() {
    let map = ProArgHttp::read_head(b"HTTP/1.1: looks-like-header\r\nReal: yes\r\n");
    assert!(map.get("HTTP/1.1").is_none());
    assert_eq!(map.get("Real").unwrap().as_str(), "yes");
}

#[test]
fn header_map_insert_overwrites() {
    let mut map = HeaderMap::new();
    assert!(map.get("k").is_none());
    map.insert("k".to_string(), "a".to_string());
    map.insert("k".to_string(), "b".to_string());
    assert_eq!(map.get("k").unwrap().as_str(), "b");
}

#[test]
fn find_sep_index_finds_the_first_blank_line() {
    assert_eq!(ProArgHttp::find_sep_index(b"ab\r\n\r\ncd\r\n\r\n"), 2);
    assert_eq!(ProArgHttp::find_sep_index(b"no separator"), 12);
    assert_eq!(ProArgHttp::find_sep_index(b""), 0);
    assert_eq!(ProArgHttp::find_sep_index(b"\r\n\r\n"), 0);
}

#[test]
fn charset_is_read_but_only_utf8_is_honored() {
    let input =
        b"HTTP/1.1 200 OK\r\nContent-Type: text/html; charset=latin-1\r\n\r\nnaive\xe9";
    let out = arg(false, true, false).byte_process(input);
    // The charset note is informational: the byte is repaired as UTF-8.
    assert_eq!(out, b"naive\xef\xbf\xbd".to_vec());
}

#[test]
fn read_head_accepts_bare_line_feeds() {
    let map = ProArgHttp::read_head(b"GET / HTTP/1.1\nHost: y\nLast: z");
    assert_eq!(map.get("Host").unwrap().as_str(), "y");
    assert_eq!(map.get("Last").unwrap().as_str(), "z");
}

#[test]
fn read_head_trims_unicode_white_space() {
    // U+00A0 (no-break space) carries the Unicode white space property.
    let head = "HTTP/1.1 200 OK\r\n\u{a0}Host\u{a0}:\u{a0}x\u{a0}\r\n";
    let map = ProArgHttp::read_head(head.as_bytes());
    assert_eq!(map.get("Host").unwrap().as_str(), "x");
}

#[test]
fn charset_of_reads_the_last_matching_segment() {
    assert_eq!(
        charset_of("text/html; charset=utf-8").unwrap(),
        "utf-8"
    );
    assert_eq!(
        charset_of("text/html; charset=a; charset=b").unwrap(),
        "b"
    );
    assert!(charset_of("text/html").is_none());
    assert!(charset_of("").is_none());
}

#[test]
fn lines_split_like_the_standard_library() {
    let lines = lines_of("a\r\nb\r");
    assert_eq!(lines.len(), 2);
    assert_eq!(lines[0], "a");
    // A carriage return that no line feed follows stays in its line.
    assert_eq!(lines[1], "b\r");
    let lines = lines_of("a\nb\n");
    assert_eq!(lines, vec!["a".to_string(), "b".to_string()]);
    assert_eq!(lines_of(""), Vec::<String>::new());
}

#[test]
fn trim_strips_ascii_and_unicode_white_space() {
    assert_eq!(trim_str("\t x \r\n"), "x");
    assert_eq!(trim_str("\u{a0}y\u{2028}"), "y");
    assert_eq!(trim_str("   "), "");
    assert_eq!(trim_str(""), "");
}

#[test]
fn default_http_arg_shows_everything_decoded() {
    let a = ProArgHttp::new();
    assert!(a.head_show);
    assert!(a.body_show);
    assert!(!a.itself);
}
