use httpd_core::request::{assemble, parse_request, split_request_line, split_target, ParseError};

#[test]
fn parses_a_plain_get() {
    let request = parse_request("GET /a/b.txt HTTP/1.1").unwrap();
    assert_eq!(request.method, "GET");
    assert_eq!(request.path, "/a/b.txt");
    assert_eq!(request.query, "");
    assert_eq!(request.version, "HTTP/1.1");
}

#[test]
fn decodes_percent_escapes_before_splitting_the_query() {
    let request = parse_request("GET /a%20b%3Fc?x=1 HTTP/1.1").unwrap();
    assert_eq!(request.path, "/a b");
    assert_eq!(request.query, "c?x=1");
}

#[test]
fn decodes_escapes_from_left_to_right() {
    let path = |line: &str| parse_request(line).unwrap().path;
    assert_eq!(path("GET /%41%42c HTTP/1.1"), "/ABc");
    assert_eq!(path("GET /%7e%7E HTTP/1.1"), "/~~");
    assert_eq!(path("GET /%%41 HTTP/1.1"), "/%A");
    assert_eq!(path("GET /%2541 HTTP/1.1"), "/%41");
    assert_eq!(path("GET /%4%41 HTTP/1.1"), "/%4A");
    assert_eq!(path("GET /%2F%2f HTTP/1.1"), "///");
    assert_eq!(path("GET /caf\u{e9}%20au%20lait HTTP/1.1"), "/caf\u{e9} au lait");
    assert_eq!(path("GET /%00 HTTP/1.1"), "/\u{0}");
    assert_eq!(path("GET /%7F HTTP/1.1"), "/\u{7f}");
}

#[test]
fn keeps_a_percent_sign_that_starts_no_escape() {
    let request = parse_request("GET /100%.txt HTTP/1.1").unwrap();
    assert_eq!(request.path, "/100%.txt");
    let request = parse_request("GET /a%2 HTTP/1.1").unwrap();
    assert_eq!(request.path, "/a%2");
}

#[test]
fn replaces_malformed_utf8_after_decoding() {
    let request = parse_request("GET /%FF HTTP/1.1").unwrap();
    assert_eq!(request.path, "/\u{FFFD}");
    let request = parse_request("GET /%C3%A9 HTTP/1.1").unwrap();
    assert_eq!(request.path, "/\u{e9}");
}

#[test]
fn splits_the_query_at_the_first_question_mark() {
    let request = parse_request("GET /search?q=a?b&c=d HTTP/1.1").unwrap();
    assert_eq!(request.path, "/search");
    assert_eq!(request.query, "q=a?b&c=d");
    let request = parse_request("GET /search? HTTP/1.1").unwrap();
    assert_eq!(request.path, "/search");
    assert_eq!(request.query, "");
}

#[test]
fn rejects_a_line_with_fewer_than_three_tokens() {
    assert_eq!(parse_request("GET /"), Err(ParseError::RequestLine));
    assert_eq!(parse_request("GET"), Err(ParseError::RequestLine));
    assert_eq!(parse_request(""), Err(ParseError::RequestLine));
}

#[test]
fn rejects_a_path_that_does_not_start_with_a_slash() {
    assert_eq!(parse_request("GET index.html HTTP/1.1"), Err(ParseError::Path));
    assert_eq!(parse_request("GET  HTTP/1.1"), Err(ParseError::Path));
    assert_eq!(parse_request("GET ?x=1 HTTP/1.1"), Err(ParseError::Path));
    assert_eq!(parse_request("GET ./secret HTTP/1.1"), Err(ParseError::Path));
}

#[test]
fn the_version_token_takes_everything_after_the_second_space() {
    let request = parse_request("GET /a b HTTP/1.1").unwrap();
    assert_eq!(request.path, "/a");
    assert_eq!(request.version, "b HTTP/1.1");
    let request = parse_request("GET / ").unwrap();
    assert_eq!(request.version, "");
}

#[test]
fn splits_a_request_line_into_its_tokens() {
    assert_eq!(
        split_request_line("POST /form?x HTTP/1.0"),
        Some(("POST", "/form?x", "HTTP/1.0"))
    );
    assert_eq!(split_request_line("a  b"), Some(("a", "", "b")));
    assert_eq!(split_request_line(" "), None);
    assert_eq!(split_request_line("  "), Some(("", "", "")));
}

#[test]
fn splits_a_decoded_target() {
    assert_eq!(split_target("/a/b"), ("/a/b", ""));
    assert_eq!(split_target("/a?b=c"), ("/a", "b=c"));
    assert_eq!(split_target("?"), ("", ""));
    assert_eq!(split_target(""), ("", ""));
}

#[test]
fn assembles_a_request_from_a_decoded_target() {
    let request = assemble("GET", "/caf\u{e9}?x y", "HTTP/1.1").unwrap();
    assert_eq!(request.method, "GET");
    assert_eq!(request.path, "/caf\u{e9}");
    assert_eq!(request.query, "x y");
    assert_eq!(request.version, "HTTP/1.1");
    assert_eq!(assemble("GET", "caf\u{e9}", "HTTP/1.1"), Err(ParseError::Path));
}

#[test]
fn a_target_without_escapes_parses_to_itself() {
    for target in ["/", "/a/b/", "/x.y-z_~", "/100%", "/%zz", "/caf\u{e9}/"] {
        let line = format!("GET {} HTTP/1.1", target);
        let request = parse_request(&line).unwrap();
        assert_eq!(request.path, target);
        assert_eq!(request.query, "");
    }
}
