use httpd_core::status::{format_status_line, reason};
use httpd_core::text::{chars_of, decimal_string, ends_with_char, str_eq, strip_line_end};

#[test]
fn writes_numbers_in_decimal() {
    assert_eq!(decimal_string(0), "0");
    assert_eq!(decimal_string(7), "7");
    assert_eq!(decimal_string(10), "10");
    assert_eq!(decimal_string(404), "404");
    assert_eq!(decimal_string(1_000_000), "1000000");
    assert_eq!(decimal_string(u32::MAX), "4294967295");
}

#[test]
fn strips_every_trailing_cr_lf() {
    assert_eq!(strip_line_end("GET / HTTP/1.1\r\n"), "GET / HTTP/1.1");
    assert_eq!(strip_line_end("a\r\n\r\n"), "a");
    assert_eq!(strip_line_end("\r\n"), "");
    assert_eq!(strip_line_end(""), "");
    assert_eq!(strip_line_end("a\n"), "a\n");
    assert_eq!(strip_line_end("a\r"), "a\r");
    assert_eq!(strip_line_end("a\n\r"), "a\n\r");
    assert_eq!(strip_line_end("\r\na"), "\r\na");
    assert_eq!(strip_line_end("\n\r\n"), "\n");
}

#[test]
fn walks_a_string_by_characters() {
    assert_eq!(chars_of("a\u{e9}\u{1F600}"), vec!['a', '\u{e9}', '\u{1F600}']);
    assert_eq!(chars_of(""), Vec::<char>::new());
}

#[test]
fn compares_strings() {
    assert!(str_eq("", ""));
    assert!(str_eq("html", "html"));
    assert!(!str_eq("html", "htm"));
    assert!(!str_eq("html", "htmL"));
}

#[test]
fn tells_a_trailing_character() {
    assert!(ends_with_char("/a/", '/'));
    assert!(!ends_with_char("/a", '/'));
    assert!(!ends_with_char("", '/'));
}

#[test]
fn knows_the_reason_phrases() {
    assert_eq!(reason(200), "OK");
    assert_eq!(reason(301), "Moved Permanently");
    assert_eq!(reason(302), "Found");
    assert_eq!(reason(303), "See Other");
    assert_eq!(reason(305), "Use Proxy");
    assert_eq!(reason(307), "Temporary Redirect");
    assert_eq!(reason(404), "Not Found");
    assert_eq!(reason(405), "Method Not Allowed");
    assert_eq!(reason(500), "Internal Server Error");
    assert_eq!(reason(505), "HTTP Version Not Supported");
    assert_eq!(reason(418), "Internal Server Error");
    assert_eq!(reason(0), "Internal Server Error");
}

#[test]
fn writes_the_status_line() {
    assert_eq!(format_status_line(200), "HTTP/1.1 200 OK\r\n");
    assert_eq!(format_status_line(404), "HTTP/1.1 404 Not Found\r\n");
    assert_eq!(format_status_line(505), "HTTP/1.1 505 HTTP Version Not Supported\r\n");
    assert_eq!(format_status_line(7), "HTTP/1.1 7 Internal Server Error\r\n");
}
