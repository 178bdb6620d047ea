//! The life of one connection, as a state machine.
//!
//! A connection serves exactly one request. The machine makes every
//! decision and performs no I/O: each step takes the outcome of the
//! action that the previous step asked for, and answers with the next
//! action. The caller carries the actions out: it reads lines from the
//! stream, asks the file system, and writes the response.

use vstd::prelude::*;
use vstd::string::*;
use crate::listing::{entry_order, entry_views, index_html, DirEntry, EntryView};
use crate::request::{
    has_escape, is_rooted, lemma_parse_round_trip, parse_request, parsed, ParseError, RequestView,
};
use crate::resolve::{
    fs_path, has_trailing_slash, index_file, lemma_index_file_is_html, locate, resolve, resolved,
    within_root, Probe, ProbeView, Target, TargetView,
};
use crate::response::{
    abort, abort_view, error_page, error_page_name, file_view, head_of, header_block,
    header_line, header_lines, index, index_view, redirect, redirect_view, serve_file, BodyView,
    HeaderView, Response, ResponseView,
};
use crate::status::{http_version, status_line};
use crate::text::{decimal, str_eq, strip_line_end, without_line_end};

verus! {

/// What a connection is waiting for.
#[derive(Debug, Clone, PartialEq, Eq)]
pub enum State {
    /// The request line.
    RequestLine,
    /// The next header line of a request for `path`.
    Headers { path: String },
    /// What the file system says of `path`.
    Resolving { path: String },
    /// The children of the directory that was asked for as `url_path`.
    Listing { url_path: String },
    /// Whether the file at `path` can be opened.
    Opening { path: String },
    /// The custom page of the error `code`, if there is one.
    Failing { code: u32 },
    /// Nothing: the response was handed out.
    Closed,
}

/// The mathematical content of a `State`.
pub enum StateView {
    RequestLine,
    Headers { path: Seq<char> },
    Resolving { path: Seq<char> },
    Listing { url_path: Seq<char> },
    Opening { path: Seq<char> },
    Failing { code: u32 },
    Closed,
}

impl View for State {
    type V = StateView;

    open spec fn view(&self) -> StateView {
        match self {
            State::RequestLine => StateView::RequestLine,
            State::Headers { path } => StateView::Headers { path: path@ },
            State::Resolving { path } => StateView::Resolving { path: path@ },
            State::Listing { url_path } => StateView::Listing { url_path: url_path@ },
            State::Opening { path } => StateView::Opening { path: path@ },
            State::Failing { code } => StateView::Failing { code: *code },
            State::Closed => StateView::Closed,
        }
    }
}

/// One connection: the served root and what the connection waits for.
#[derive(Debug, Clone, PartialEq, Eq)]
pub struct Connection {
    /// The canonical path of the served root.
    pub root: String,
    pub state: State,
}

/// The mathematical content of a `Connection`.
pub struct ConnectionView {
    pub root: Seq<char>,
    pub state: StateView,
}

impl View for Connection {
    type V = ConnectionView;

    open spec fn view(&self) -> ConnectionView {
        ConnectionView { root: self.root@, state: self.state@ }
    }
}

/// The outcome of an action.
#[derive(Debug, Clone, PartialEq, Eq)]
pub enum Event {
    /// A line of the stream, with its terminator. The empty string stands
    /// for the end of the stream.
    Line(String),
    /// What the file system says of the path that was to be inspected.
    Inspected(Probe),
    /// The children of the directory that was to be listed.
    Listed(Vec<DirEntry>),
    /// The file that was to be opened is open.
    Opened,
    /// The custom error page that was to be loaded, if there is one.
    Page(Option<String>),
    /// The action could not be carried out.
    Failed,
}

/// The mathematical content of an `Event`.
pub enum EventView {
    Line(Seq<char>),
    Inspected(ProbeView),
    Listed(Seq<EntryView>),
    Opened,
    Page(Option<Seq<char>>),
    Failed,
}

impl View for Event {
    type V = EventView;

    open spec fn view(&self) -> EventView {
        match self {
            Event::Line(raw) => EventView::Line(raw@),
            Event::Inspected(probe) => EventView::Inspected(probe@),
            Event::Listed(entries) => EventView::Listed(entry_views(entries@)),
            Event::Opened => EventView::Opened,
            Event::Page(page) => EventView::Page(
                match page {
                    Some(content) => Some(content@),
                    None => None,
                },
            ),
            Event::Failed => EventView::Failed,
        }
    }
}

/// What the caller is to do next.
#[derive(Debug, Clone, PartialEq, Eq)]
pub enum Action {
    /// Read one line from the stream and report it as `Event::Line`.
    ReadLine,
    /// Ask the file system about `fs_path` and report `Event::Inspected`.
    Inspect { fs_path: String },
    /// Read the children of `dir` and report `Event::Listed`.
    ListDir { dir: String },
    /// Open the file at `path` for reading and report `Event::Opened`.
    Open { path: String },
    /// Load the file `name`, the custom page of `code`, and report
    /// `Event::Page`.
    LoadPage { code: u32, name: String },
    /// Write the response, flush, and close the connection. A body that is
    /// a file is the file that was opened last.
    Respond(Response),
    /// Nothing is left to do.
    Close,
}

/// The mathematical content of an `Action`.
pub enum ActionView {
    ReadLine,
    Inspect { fs_path: Seq<char> },
    ListDir { dir: Seq<char> },
    Open { path: Seq<char> },
    LoadPage { code: u32, name: Seq<char> },
    Respond(ResponseView),
    Close,
}

impl View for Action {
    type V = ActionView;

    open spec fn view(&self) -> ActionView {
        match self {
            Action::ReadLine => ActionView::ReadLine,
            Action::Inspect { fs_path } => ActionView::Inspect { fs_path: fs_path@ },
            Action::ListDir { dir } => ActionView::ListDir { dir: dir@ },
            Action::Open { path } => ActionView::Open { path: path@ },
            Action::LoadPage { code, name } => ActionView::LoadPage { code: *code, name: name@ },
            Action::Respond(response) => ActionView::Respond(response@),
            Action::Close => ActionView::Close,
        }
    }
}

/// The method that is served.
pub open spec fn served_method() -> Seq<char> {
    "GET"@
}

/// The connection gives up with the error `code`: it asks for the custom
/// page of that error.
pub open spec fn failing(root: Seq<char>, code: u32) -> (ConnectionView, ActionView) {
    (
        ConnectionView { root, state: StateView::Failing { code } },
        ActionView::LoadPage { code, name: error_page_name(code) },
    )
}

/// The connection hands out `response` and closes.
pub open spec fn responding(root: Seq<char>, response: ResponseView) -> (
    ConnectionView,
    ActionView,
) {
    (ConnectionView { root, state: StateView::Closed }, ActionView::Respond(response))
}

/// What follows the request line `raw`: a line that does not parse fails
/// with 500, another version than HTTP/1.1 with 505, another method than
/// GET with 405; otherwise the headers are read.
pub open spec fn after_request_line(root: Seq<char>, raw: Seq<char>) -> (
    ConnectionView,
    ActionView,
) {
    match parsed(without_line_end(raw)) {
        Err(_) => failing(root, 500),
        Ok(request) => {
            if request.version != http_version() {
                failing(root, 505)
            } else if request.method != served_method() {
                failing(root, 405)
            } else {
                (
                    ConnectionView { root, state: StateView::Headers { path: request.path } },
                    ActionView::ReadLine,
                )
            }
        },
    }
}

/// What follows the header line `raw` of a request for `path`: the end of
/// the stream fails with 500, the blank line ends the headers, and any
/// other line is skipped.
pub open spec fn after_header_line(root: Seq<char>, path: Seq<char>, raw: Seq<char>) -> (
    ConnectionView,
    ActionView,
) {
    if raw.len() == 0 {
        failing(root, 500)
    } else if without_line_end(raw).len() == 0 {
        (
            ConnectionView { root, state: StateView::Resolving { path } },
            ActionView::Inspect { fs_path: fs_path(root, path) },
        )
    } else {
        (ConnectionView { root, state: StateView::Headers { path } }, ActionView::ReadLine)
    }
}

/// What follows the file system's word on `path`.
pub open spec fn after_inspection(root: Seq<char>, path: Seq<char>, probe: ProbeView) -> (
    ConnectionView,
    ActionView,
) {
    match resolved(path, root, probe) {
        TargetView::NotFound => failing(root, 404),
        TargetView::Redirect { location } => responding(root, redirect_view(301, location)),
        TargetView::Index { dir, url_path } => (
            ConnectionView { root, state: StateView::Listing { url_path } },
            ActionView::ListDir { dir },
        ),
        TargetView::File { path: file } => (
            ConnectionView { root, state: StateView::Opening { path: file } },
            ActionView::Open { path: file },
        ),
    }
}

/// The step of a connection: from what it waits for and the outcome of the
/// pending action to what it waits for next and the next action.
///
/// An outcome that does not answer the pending action, `Failed` among
/// them, makes the connection fail with 500; while it is failing already
/// it answers with the plain error response instead. A closed connection
/// stays closed.
pub open spec fn transition(conn: ConnectionView, event: EventView) -> (
    ConnectionView,
    ActionView,
) {
    let root = conn.root;
    match conn.state {
        StateView::RequestLine => match event {
            EventView::Line(raw) => after_request_line(root, raw),
            _ => failing(root, 500),
        },
        StateView::Headers { path } => match event {
            EventView::Line(raw) => after_header_line(root, path, raw),
            _ => failing(root, 500),
        },
        StateView::Resolving { path } => match event {
            EventView::Inspected(probe) => after_inspection(root, path, probe),
            _ => failing(root, 500),
        },
        StateView::Listing { url_path } => match event {
            EventView::Listed(entries) => responding(root, index_view(url_path, entries)),
            _ => failing(root, 500),
        },
        StateView::Opening { path } => match event {
            EventView::Opened => responding(root, file_view(path)),
            _ => failing(root, 500),
        },
        StateView::Failing { code } => match event {
            EventView::Page(page) => responding(root, abort_view(code, page)),
            _ => responding(root, abort_view(code, None)),
        },
        StateView::Closed => (conn, ActionView::Close),
    }
}

/// Gives up with the error `code`.
fn fail(root: String, code: u32) -> (r: (Connection, Action))
    ensures
        (r.0@, r.1@) == failing(root@, code),
{
    (
        Connection { root, state: State::Failing { code } },
        Action::LoadPage { code, name: error_page(code) },
    )
}

/// Hands out `response` and closes.
fn respond(root: String, response: Response) -> (r: (Connection, Action))
    ensures
        (r.0@, r.1@) == responding(root@, response@),
{
    (Connection { root, state: State::Closed }, Action::Respond(response))
}

/// Takes the request line.
fn request_line(root: String, raw: &str) -> (r: (Connection, Action))
    ensures
        (r.0@, r.1@) == after_request_line(root@, raw@),
{
    match parse_request(strip_line_end(raw)) {
        Err(_) => fail(root, 500),
        Ok(request) => {
            if !str_eq(request.version.as_str(), "HTTP/1.1") {
                fail(root, 505)
            } else if !str_eq(request.method.as_str(), "GET") {
                fail(root, 405)
            } else {
                (Connection { root, state: State::Headers { path: request.path } }, Action::ReadLine)
            }
        },
    }
}

/// Takes one header line.
fn skip_header(root: String, path: String, raw: &str) -> (r: (Connection, Action))
    ensures
        (r.0@, r.1@) == after_header_line(root@, path@, raw@),
{
    if raw.is_empty() {
        fail(root, 500)
    } else if strip_line_end(raw).is_empty() {
        let fs_path = locate(root.as_str(), path.as_str());
        (Connection { root, state: State::Resolving { path } }, Action::Inspect { fs_path })
    } else {
        (Connection { root, state: State::Headers { path } }, Action::ReadLine)
    }
}

/// Takes the file system's word on the path.
fn inspection(root: String, path: String, probe: &Probe) -> (r: (Connection, Action))
    ensures
        (r.0@, r.1@) == after_inspection(root@, path@, probe@),
{
    match resolve(path.as_str(), root.as_str(), probe) {
        Target::NotFound => fail(root, 404),
        Target::Redirect { location } => respond(root, redirect(301, location.as_str())),
        Target::Index { dir, url_path } => (
            Connection { root, state: State::Listing { url_path } },
            Action::ListDir { dir },
        ),
        Target::File { path: file } => {
            let path = file.clone();
            (Connection { root, state: State::Opening { path } }, Action::Open { path: file })
        },
    }
}

impl Connection {
    /// A fresh connection under the served root `root`. It waits for its
    /// request line: the caller starts with `Action::ReadLine`.
    pub fn new(root: String) -> (conn: Connection)
        ensures
            conn@ == (ConnectionView { root: root@, state: StateView::RequestLine }),
    {
        Connection { root, state: State::RequestLine }
    }

    /// Whether the response was handed out.
    pub fn is_closed(&self) -> (closed: bool)
        ensures
            closed == (self@.state == StateView::Closed),
    {
        match &self.state {
            State::Closed => true,
            _ => false,
        }
    }

    /// Takes the outcome of the pending action and decides what is next.
    pub fn handle(self, event: Event) -> (r: (Connection, Action))
        ensures
            (r.0@, r.1@) == transition(self@, event@),
    {
        let Connection { root, state } = self;
        match state {
            State::RequestLine => match event {
                Event::Line(raw) => request_line(root, raw.as_str()),
                _ => fail(root, 500),
            },
            State::Headers { path } => match event {
                Event::Line(raw) => skip_header(root, path, raw.as_str()),
                _ => fail(root, 500),
            },
            State::Resolving { path } => match event {
                Event::Inspected(probe) => inspection(root, path, &probe),
                _ => fail(root, 500),
            },
            State::Listing { url_path } => match event {
                Event::Listed(entries) => {
                    let response = index(url_path.as_str(), entries);
                    respond(root, response)
                },
                _ => fail(root, 500),
            },
            State::Opening { path } => match event {
                Event::Opened => {
                    let response = serve_file(path.as_str());
                    respond(root, response)
                },
                _ => fail(root, 500),
            },
            State::Failing { code } => match event {
                Event::Page(page) => respond(root, abort(code, page)),
                _ => respond(root, abort(code, None)),
            },
            State::Closed => (Connection { root, state: State::Closed }, Action::Close),
        }
    }
}

/// What holds of every state that a fresh connection can reach: the path
/// that it works on starts with `/`, and while it fails, it fails with one
/// of the four error codes of the server.
pub open spec fn reachable(conn: ConnectionView) -> bool {
    match conn.state {
        StateView::Headers { path } => is_rooted(path),
        StateView::Resolving { path } => is_rooted(path),
        StateView::Listing { url_path } => is_rooted(url_path),
        StateView::Failing { code } => code == 404 || code == 405 || code == 500 || code == 505,
        _ => true,
    }
}

/// A fresh connection is in a reachable state, and steps keep a connection
/// among the reachable states and its served root as it was. A response is
/// handed out exactly when the connection closes, so at most once, and it
/// carries one of the six status codes that the server uses. The path that
/// is inspected is the served root followed by a path that starts with `/`.
pub proof fn lemma_step_invariant(conn: ConnectionView, event: EventView)
    requires
        reachable(conn),
    ensures
        reachable(ConnectionView { root: conn.root, state: StateView::RequestLine }),
        reachable(transition(conn, event).0),
        transition(conn, event).1 matches ActionView::Inspect { fs_path: inspected } ==> exists|
            path: Seq<char>,
        |
            is_rooted(path) && inspected == #[trigger] fs_path(conn.root, path),
        transition(conn, event).0.root == conn.root,
        transition(conn, event).1 is Respond <==> conn.state != StateView::Closed && transition(
            conn,
            event,
        ).0.state == StateView::Closed,
        conn.state == StateView::Closed ==> transition(conn, event) == (conn, ActionView::Close),
        transition(conn, event).1 matches ActionView::Respond(response) ==> response.code == 200
            || response.code == 301 || response.code == 404 || response.code == 405
            || response.code == 500 || response.code == 505,
{
}

/// A request line that parses to a `GET` under HTTP/1.1 starts the reading
/// of the headers; every header line is skipped, whatever it holds; and the
/// blank line has the path of the request inspected below the served root.
pub proof fn lemma_valid_request_is_resolved(
    root: Seq<char>,
    raw: Seq<char>,
    request: RequestView,
    header: Seq<char>,
)
    requires
        parsed(without_line_end(raw)) == Ok::<RequestView, ParseError>(request),
        request.method == served_method(),
        request.version == http_version(),
        without_line_end(header).len() > 0,
    ensures
        ({
            let path = request.path;
            let reading = ConnectionView { root, state: StateView::Headers { path } };
            &&& transition(
                ConnectionView { root, state: StateView::RequestLine },
                EventView::Line(raw),
            ) == (reading, ActionView::ReadLine)
            &&& transition(reading, EventView::Line(header)) == (reading, ActionView::ReadLine)
            &&& transition(reading, EventView::Line("\r\n"@)) == (
                ConnectionView { root, state: StateView::Resolving { path } },
                ActionView::Inspect { fs_path: fs_path(root, path) },
            )
        }),
{
    reveal_strlit("\r\n");
    assert(without_line_end("\r\n"@) =~= Seq::<char>::empty()) by {
        reveal_with_fuel(without_line_end, 2);
    }
    assert(header.len() > 0) by {
        if header.len() == 0 {
            assert(without_line_end(header) == header);
        }
    }
}

/// A directory that is asked for without the trailing `/` is answered with
/// a 301 whose `Location` is the path of the request with one `/` appended,
/// whether or not it holds an `index.html`.
pub proof fn lemma_directory_redirect(
    root: Seq<char>,
    path: Seq<char>,
    canonical: Seq<char>,
    has_index: bool,
)
    requires
        within_root(root, canonical),
        !has_trailing_slash(path),
    ensures
        transition(
            ConnectionView { root, state: StateView::Resolving { path } },
            EventView::Inspected(ProbeView::Found { canonical, is_dir: true, has_index }),
        ) == responding(root, redirect_view(301, path + seq!['/'])),
        head_of(redirect_view(301, path + seq!['/']))
            == "HTTP/1.1 301 Moved Permanently\r\nLocation: "@ + path + "/\r\n\r\n"@,
{
    let location = path + seq!['/'];
    assert(location =~= path.push('/'));
    let headers = redirect_view(301, location).headers;
    assert(header_lines(headers) =~= header_line(headers.last())) by {
        reveal_with_fuel(header_lines, 2);
    }
    assert(decimal(301) =~= "301"@) by {
        reveal_with_fuel(decimal, 3);
        reveal_strlit("301");
    }
    assert(status_line(301) =~= "HTTP/1.1 301 Moved Permanently\r\n"@) by {
        reveal_strlit("301");
        reveal_strlit("HTTP/1.1");
        reveal_strlit(" ");
        reveal_strlit("Moved Permanently");
        reveal_strlit("\r\n");
        reveal_strlit("HTTP/1.1 301 Moved Permanently\r\n");
    }
    assert(header_block(headers) =~= "Location: "@ + path + "/\r\n\r\n"@) by {
        reveal_strlit("Location");
        reveal_strlit(": ");
        reveal_strlit("\r\n");
        reveal_strlit("Location: ");
        reveal_strlit("/\r\n\r\n");
    }
    assert(head_of(redirect_view(301, location))
        =~= "HTTP/1.1 301 Moved Permanently\r\nLocation: "@ + path + "/\r\n\r\n"@) by {
        reveal_strlit("HTTP/1.1 301 Moved Permanently\r\n");
        reveal_strlit("Location: ");
        reveal_strlit("HTTP/1.1 301 Moved Permanently\r\nLocation: ");
    }
}

/// A directory with an `index.html`, asked for with its trailing `/`, is
/// answered with status 200 and that file, served as HTML, once the file
/// is open.
pub proof fn lemma_directory_index_file(root: Seq<char>, path: Seq<char>, canonical: Seq<char>)
    requires
        within_root(root, canonical),
        has_trailing_slash(path),
    ensures
        ({
            let opening = transition(
                ConnectionView { root, state: StateView::Resolving { path } },
                EventView::Inspected(
                    ProbeView::Found { canonical, is_dir: true, has_index: true },
                ),
            );
            &&& opening.1 == (ActionView::Open { path: index_file(canonical) })
            &&& transition(opening.0, EventView::Opened) == responding(
                root,
                file_view(index_file(canonical)),
            )
        }),
        file_view(index_file(canonical)) == (ResponseView {
            code: 200,
            headers: seq![(HeaderView { name: "Content-Type"@, value: "text/html"@ })],
            body: BodyView::File(index_file(canonical)),
        }),
{
    lemma_index_file_is_html(canonical);
}

/// A directory without an `index.html`, asked for with its trailing `/`, is
/// listed, and what is read of it is answered with status 200 and the
/// generated page: its children in listing order, under the path of the
/// request.
pub proof fn lemma_directory_listing(
    root: Seq<char>,
    path: Seq<char>,
    canonical: Seq<char>,
    entries: Seq<EntryView>,
)
    requires
        within_root(root, canonical),
        has_trailing_slash(path),
    ensures
        ({
            let listing = transition(
                ConnectionView { root, state: StateView::Resolving { path } },
                EventView::Inspected(
                    ProbeView::Found { canonical, is_dir: true, has_index: false },
                ),
            );
            &&& listing.1 == (ActionView::ListDir { dir: canonical })
            &&& transition(listing.0, EventView::Listed(entries)) == responding(
                root,
                index_view(path, entries),
            )
        }),
        index_view(path, entries).code == 200,
        index_view(path, entries).body == BodyView::Text(
            index_html(path, entries.sort_by(entry_order())),
        ),
{
}

/// A file inside the served root is answered, once it is open, with
/// status 200, the content type of its extension, and the file itself as
/// the body. A file that cannot be opened is answered with 500.
pub proof fn lemma_file_is_served(
    root: Seq<char>,
    path: Seq<char>,
    canonical: Seq<char>,
    has_index: bool,
)
    requires
        within_root(root, canonical),
    ensures
        ({
            let opening = transition(
                ConnectionView { root, state: StateView::Resolving { path } },
                EventView::Inspected(ProbeView::Found { canonical, is_dir: false, has_index }),
            );
            &&& opening.1 == (ActionView::Open { path: canonical })
            &&& transition(opening.0, EventView::Opened) == responding(root, file_view(canonical))
            &&& transition(opening.0, EventView::Failed) == failing(root, 500)
        }),
        file_view(canonical).code == 200,
        file_view(canonical).body == BodyView::File(canonical),
{
}

/// A path at which nothing exists, or whose canonical form lies outside
/// the served root, is answered with 404, whatever else is true of it: the
/// body is the custom page or the reason phrase, never a file.
pub proof fn lemma_outside_root_is_not_found(
    root: Seq<char>,
    path: Seq<char>,
    probe: ProbeView,
    page: Option<Seq<char>>,
)
    requires
        probe matches ProbeView::Found { canonical, .. } ==> !within_root(root, canonical),
    ensures
        ({
            let refused = transition(
                ConnectionView { root, state: StateView::Resolving { path } },
                EventView::Inspected(probe),
            );
            &&& refused == failing(root, 404)
            &&& transition(refused.0, EventView::Page(page)) == responding(
                root,
                abort_view(404, page),
            )
        }),
        abort_view(404, page).code == 404,
        abort_view(404, page).body is Text,
        page is None ==> abort_view(404, page).body == BodyView::Text("Not Found"@),
{
}

/// The link that a listing under `url_path` shows for a child `name`,
/// requested again, leads to that child: the request line parses to the
/// path `url_path` followed by `name`, and the path inspected for it is
/// the path inspected for the directory followed by `name`. This holds
/// where the link holds no space, no `?` and no percent escape.
pub proof fn lemma_listed_link_round_trip(root: Seq<char>, url_path: Seq<char>, name: Seq<char>)
    requires
        is_rooted(url_path),
        !(url_path + name).contains(' '),
        !(url_path + name).contains('?'),
        !has_escape(url_path + name),
    ensures
        ({
            let link = url_path + name;
            let conn = ConnectionView { root, state: StateView::RequestLine };
            let line = "GET "@ + link + " HTTP/1.1\r\n"@;
            let blank = "\r\n"@;
            let reading = transition(conn, EventView::Line(line));
            &&& reading == (
                ConnectionView { root, state: StateView::Headers { path: link } },
                ActionView::ReadLine,
            )
            &&& transition(reading.0, EventView::Line(blank)).1 == (ActionView::Inspect {
                fs_path: fs_path(root, url_path) + name,
            })
        }),
{
    let link = url_path + name;
    let line = "GET "@ + link + " HTTP/1.1\r\n"@;
    reveal_strlit("GET ");
    reveal_strlit("GET");
    reveal_strlit(" HTTP/1.1\r\n");
    reveal_strlit("HTTP/1.1");
    reveal_strlit("\r\n");
    let bare = "GET"@ + seq![' '] + link + seq![' '] + "HTTP/1.1"@;
    assert(without_line_end(line) == bare) by {
        reveal_with_fuel(without_line_end, 2);
    }
    lemma_parse_round_trip("GET"@, link, "HTTP/1.1"@);
    let blank = "\r\n"@;
    assert(without_line_end(blank) =~= Seq::<char>::empty()) by {
        reveal_with_fuel(without_line_end, 2);
    }
    assert(fs_path(root, link) =~= fs_path(root, url_path) + name);
}

} // verus!
