//! Responses: status line, headers, blank line, and the body to send.

use vstd::prelude::*;
use vstd::string::*;
use crate::listing::{entry_order, entry_views, index_html, render_index, DirEntry, EntryView};
use crate::mime::{content_type_of, extension, guess_content_type};
use crate::status::{format_status_line, reason, reason_phrase, status_line};
use crate::text::{decimal, decimal_string};

verus! {

/// One header line of a response.
#[derive(Debug, Clone, PartialEq, Eq)]
pub struct Header {
    pub name: String,
    pub value: String,
}

/// The mathematical content of a `Header`.
pub struct HeaderView {
    pub name: Seq<char>,
    pub value: Seq<char>,
}

impl View for Header {
    type V = HeaderView;

    open spec fn view(&self) -> HeaderView {
        HeaderView { name: self.name@, value: self.value@ }
    }
}

/// What follows the blank line of a response.
#[derive(Debug, Clone, PartialEq, Eq)]
pub enum Body {
    /// Nothing.
    Empty,
    /// The given text.
    Text(String),
    /// The bytes of the file at the given path, to be streamed by the caller.
    File(String),
}

/// The mathematical content of a `Body`.
pub enum BodyView {
    Empty,
    Text(Seq<char>),
    File(Seq<char>),
}

impl View for Body {
    type V = BodyView;

    open spec fn view(&self) -> BodyView {
        match self {
            Body::Empty => BodyView::Empty,
            Body::Text(text) => BodyView::Text(text@),
            Body::File(path) => BodyView::File(path@),
        }
    }
}

/// A response, ready to be written to the connection.
#[derive(Debug, Clone, PartialEq, Eq)]
pub struct Response {
    pub code: u32,
    pub headers: Vec<Header>,
    pub body: Body,
}

/// The mathematical content of a `Response`.
pub struct ResponseView {
    pub code: u32,
    pub headers: Seq<HeaderView>,
    pub body: BodyView,
}

/// The contents of a run of headers.
pub open spec fn header_views(headers: Seq<Header>) -> Seq<HeaderView> {
    headers.map_values(|h: Header| h@)
}

impl View for Response {
    type V = ResponseView;

    open spec fn view(&self) -> ResponseView {
        ResponseView { code: self.code, headers: header_views(self.headers@), body: self.body@ }
    }
}

/// One header on the wire: name, colon, space, value, CR LF.
pub open spec fn header_line(h: HeaderView) -> Seq<char> {
    h.name + ": "@ + h.value + "\r\n"@
}

/// The header lines of a response, in their order.
pub open spec fn header_lines(headers: Seq<HeaderView>) -> Seq<char>
    decreases headers.len(),
{
    if headers.len() == 0 {
        Seq::<char>::empty()
    } else {
        header_lines(headers.drop_last()) + header_line(headers.last())
    }
}

/// The header lines followed by the blank line that ends them.
pub open spec fn header_block(headers: Seq<HeaderView>) -> Seq<char> {
    header_lines(headers) + "\r\n"@
}

/// Everything that precedes the body: status line, headers, blank line.
pub open spec fn head_of(response: ResponseView) -> Seq<char> {
    status_line(response.code) + header_block(response.headers)
}

/// A redirect: a `Location` header and no body.
pub open spec fn redirect_view(code: u32, location: Seq<char>) -> ResponseView {
    ResponseView {
        code,
        headers: seq![HeaderView { name: "Location"@, value: location }],
        body: BodyView::Empty,
    }
}

/// An error response: the custom page as HTML where there is one, else the
/// reason phrase as plain text.
pub open spec fn abort_view(code: u32, page: Option<Seq<char>>) -> ResponseView {
    match page {
        Some(content) => ResponseView {
            code,
            headers: seq![HeaderView { name: "Content-Type"@, value: "text/html"@ }],
            body: BodyView::Text(content),
        },
        None => ResponseView {
            code,
            headers: seq![HeaderView { name: "Content-Type"@, value: "text/plain"@ }],
            body: BodyView::Text(reason_phrase(code)),
        },
    }
}

/// The name of the file that may hold the custom page of a status code.
pub open spec fn error_page_name(code: u32) -> Seq<char> {
    decimal(code as nat) + ".html"@
}

/// A file served as it is, with the content type of its extension.
pub open spec fn file_view(path: Seq<char>) -> ResponseView {
    ResponseView {
        code: 200,
        headers: seq![
            HeaderView { name: "Content-Type"@, value: content_type_of(extension(path)) },
        ],
        body: BodyView::File(path),
    }
}

/// The generated listing of a directory with the given children.
pub open spec fn index_view(url_path: Seq<char>, entries: Seq<EntryView>) -> ResponseView {
    ResponseView {
        code: 200,
        headers: seq![HeaderView { name: "Content-Type"@, value: "text/html"@ }],
        body: BodyView::Text(index_html(url_path, entries.sort_by(entry_order()))),
    }
}

/// Builds the header lines and the blank line that ends them.
pub fn format_headers(headers: &Vec<Header>) -> (block: String)
    ensures
        block@ == header_block(header_views(headers@)),
{
    let mut block = String::new();
    let ghost views = header_views(headers@);
    let mut i: usize = 0;
    while i < headers.len()
        invariant
            i <= headers.len(),
            views == header_views(headers@),
            block@ == header_lines(views.take(i as int)),
        decreases headers.len() - i,
    {
        block.append(headers[i].name.as_str());
        block.append(": ");
        block.append(headers[i].value.as_str());
        block.append("\r\n");
        proof {
            let next = views.take(i + 1);
            assert(next.drop_last() =~= views.take(i as int));
        }
        i += 1;
    }
    assert(views.take(i as int) =~= views);
    block.append("\r\n");
    block
}

/// The single header of a response.
fn one_header(name: &str, value: &str) -> (headers: Vec<Header>)
    ensures
        header_views(headers@) == seq![HeaderView { name: name@, value: value@ }],
{
    let mut headers: Vec<Header> = Vec::new();
    headers.push(Header { name: name.to_owned(), value: value.to_owned() });
    headers
}

/// Names the file that may hold the custom page of `code`.
pub fn error_page(code: u32) -> (name: String)
    ensures
        name@ == error_page_name(code),
{
    let mut name = decimal_string(code);
    name.append(".html");
    name
}

/// Builds a redirect to `location`: a `Location` header and an empty body.
pub fn redirect(code: u32, location: &str) -> (response: Response)
    ensures
        response@ == redirect_view(code, location@),
{
    Response { code, headers: one_header("Location", location), body: Body::Empty }
}

/// Builds the error response of `code`. With a custom page the body is that
/// page, served as HTML; without one it is the reason phrase, as plain text.
pub fn abort(code: u32, page: Option<String>) -> (response: Response)
    ensures
        response@ == abort_view(
            code,
            match page {
                Some(content) => Some(content@),
                None => None,
            },
        ),
{
    match page {
        Some(content) => Response {
            code,
            headers: one_header("Content-Type", "text/html"),
            body: Body::Text(content),
        },
        None => Response {
            code,
            headers: one_header("Content-Type", "text/plain"),
            body: Body::Text(reason(code).to_owned()),
        },
    }
}

/// Builds the response that serves the file at `path`.
pub fn serve_file(path: &str) -> (response: Response)
    ensures
        response@ == file_view(path@),
{
    Response {
        code: 200,
        headers: one_header("Content-Type", guess_content_type(path)),
        body: Body::File(path.to_owned()),
    }
}

/// Builds the response that lists a directory whose children are
/// `entries`, in any order, under `url_path`.
pub fn index(url_path: &str, entries: Vec<DirEntry>) -> (response: Response)
    ensures
        response@ == index_view(url_path@, entry_views(entries@)),
{
    Response {
        code: 200,
        headers: one_header("Content-Type", "text/html"),
        body: Body::Text(render_index(url_path, entries)),
    }
}

impl Response {
    /// Renders what precedes the body: the status line, one line per
    /// header, and the blank line.
    pub fn head(&self) -> (text: String)
        ensures
            text@ == head_of(self@),
    {
        let mut text = format_status_line(self.code);
        let block = format_headers(&self.headers);
        text.append(block.as_str());
        text
    }
}

} // verus!
