use httpd_core::listing::DirEntry;
use httpd_core::response::{
    abort, error_page, format_headers, index, redirect, serve_file, Body, Header, Response,
};

fn header(name: &str, value: &str) -> Header {
    Header { name: name.to_string(), value: value.to_string() }
}

#[test]
fn writes_the_header_block() {
    assert_eq!(format_headers(&Vec::new()), "\r\n");
    assert_eq!(format_headers(&vec![header("Content-Type", "text/plain")]), "Content-Type: text/plain\r\n\r\n");
    assert_eq!(
        format_headers(&vec![header("A", "1"), header("B", ""), header("A", "2")]),
        "A: 1\r\nB: \r\nA: 2\r\n\r\n"
    );
}

#[test]
fn names_the_custom_error_pages() {
    assert_eq!(error_page(404), "404.html");
    assert_eq!(error_page(500), "500.html");
    assert_eq!(error_page(7), "7.html");
}

#[test]
fn a_redirect_carries_only_a_location() {
    let response = redirect(301, "/a/");
    assert_eq!(
        response,
        Response { code: 301, headers: vec![header("Location", "/a/")], body: Body::Empty }
    );
    assert_eq!(response.head(), "HTTP/1.1 301 Moved Permanently\r\nLocation: /a/\r\n\r\n");
    assert_eq!(redirect(307, "/b").head(), "HTTP/1.1 307 Temporary Redirect\r\nLocation: /b\r\n\r\n");
}

#[test]
fn an_error_without_custom_page_is_its_reason_phrase() {
    let response = abort(404, None);
    assert_eq!(
        response,
        Response {
            code: 404,
            headers: vec![header("Content-Type", "text/plain")],
            body: Body::Text("Not Found".to_string()),
        }
    );
    assert_eq!(response.head(), "HTTP/1.1 404 Not Found\r\nContent-Type: text/plain\r\n\r\n");
    assert_eq!(abort(500, None).body, Body::Text("Internal Server Error".to_string()));
    assert_eq!(abort(405, None).body, Body::Text("Method Not Allowed".to_string()));
    assert_eq!(abort(505, None).body, Body::Text("HTTP Version Not Supported".to_string()));
}

#[test]
fn an_error_with_custom_page_serves_it_as_html() {
    let response = abort(404, Some("<h1>gone</h1>".to_string()));
    assert_eq!(
        response,
        Response {
            code: 404,
            headers: vec![header("Content-Type", "text/html")],
            body: Body::Text("<h1>gone</h1>".to_string()),
        }
    );
    assert_eq!(response.head(), "HTTP/1.1 404 Not Found\r\nContent-Type: text/html\r\n\r\n");
}

#[test]
fn a_file_is_announced_with_its_content_type() {
    let response = serve_file("/srv/www/a/b.txt");
    assert_eq!(
        response,
        Response {
            code: 200,
            headers: vec![header("Content-Type", "text/plain")],
            body: Body::File("/srv/www/a/b.txt".to_string()),
        }
    );
    assert_eq!(response.head(), "HTTP/1.1 200 OK\r\nContent-Type: text/plain\r\n\r\n");
    assert_eq!(
        serve_file("/srv/www/blob").head(),
        "HTTP/1.1 200 OK\r\nContent-Type: application/octet-stream\r\n\r\n"
    );
}

#[test]
fn a_listing_is_served_as_html() {
    let entries = vec![
        DirEntry { name: "b.txt".to_string(), is_dir: false },
        DirEntry { name: "a".to_string(), is_dir: true },
    ];
    let response = index("/", entries);
    assert_eq!(response.code, 200);
    assert_eq!(response.headers, vec![header("Content-Type", "text/html")]);
    assert_eq!(
        response.body,
        Body::Text(
            "<html><head><title>Index of /</title></head><body><h1>Index of /</h1>\
             <a href=\"/a/\">a/</a><br/><a href=\"/b.txt\">b.txt</a><br/><body></html>"
                .to_string()
        )
    );
}
