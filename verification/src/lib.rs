//! Verified core of a minimal HTTP/1.1 static-file server.
//!
//! The server answers one `GET` request per connection with a file, a
//! generated directory listing, a redirect or an error page. This crate
//! holds every decision of that server and performs no I/O:
//!
//! - [`request`] parses the request line;
//! - [`resolve`] maps the path of a request, and what the file system says
//!   of it, to the thing that is served, and keeps it inside the served
//!   root;
//! - [`listing`] orders the children of a directory and renders their page;
//! - [`mime`] and [`status`] hold the two fixed tables;
//! - [`response`] builds responses and renders what precedes their body;
//! - [`connection`] ties these together as the state machine of one
//!   connection;
//! - [`pool`] keeps the books of the worker pool that runs the connections.
//!
//! The caller owns the sockets, the files and the threads.

pub mod connection;
pub mod listing;
pub mod mime;
pub mod pool;
pub mod request;
pub mod resolve;
pub mod response;
pub mod status;
pub mod text;
