//! Path resolution: from the decoded path of a request and what the file
//! system says of it to the thing that is served.

use vstd::prelude::*;
use vstd::string::*;
use crate::mime::{content_type_of, extension, file_name};
use crate::text::{chars_of, ends_with_char, lemma_last_index_is};

verus! {

/// What the file system says of the path of a request.
#[derive(Debug, Clone, PartialEq, Eq)]
pub enum Probe {
    /// Nothing exists at the path.
    Missing,
    /// Something exists at the path.
    Found {
        /// Its canonical path: absolute, with no `.`, `..` or symbolic link.
        canonical: String,
        /// Whether it is a directory.
        is_dir: bool,
        /// Whether it is a directory that holds an `index.html`.
        has_index: bool,
    },
}

/// The mathematical content of a `Probe`.
pub enum ProbeView {
    Missing,
    Found { canonical: Seq<char>, is_dir: bool, has_index: bool },
}

impl View for Probe {
    type V = ProbeView;

    open spec fn view(&self) -> ProbeView {
        match self {
            Probe::Missing => ProbeView::Missing,
            Probe::Found { canonical, is_dir, has_index } => ProbeView::Found {
                canonical: canonical@,
                is_dir: *is_dir,
                has_index: *has_index,
            },
        }
    }
}

/// What a request resolves to.
#[derive(Debug, Clone, PartialEq, Eq)]
pub enum Target {
    /// Nothing that may be served.
    NotFound,
    /// A directory that was asked for without its trailing `/`.
    Redirect { location: String },
    /// A directory without an `index.html`: its listing is generated.
    Index { dir: String, url_path: String },
    /// A file.
    File { path: String },
}

/// The mathematical content of a `Target`.
pub enum TargetView {
    NotFound,
    Redirect { location: Seq<char> },
    Index { dir: Seq<char>, url_path: Seq<char> },
    File { path: Seq<char> },
}

impl View for Target {
    type V = TargetView;

    open spec fn view(&self) -> TargetView {
        match self {
            Target::NotFound => TargetView::NotFound,
            Target::Redirect { location } => TargetView::Redirect { location: location@ },
            Target::Index { dir, url_path } => TargetView::Index {
                dir: dir@,
                url_path: url_path@,
            },
            Target::File { path } => TargetView::File { path: path@ },
        }
    }
}

/// The file system path that stands for the decoded path of a request:
/// the path appended to the served root.
pub open spec fn fs_path(root: Seq<char>, path: Seq<char>) -> Seq<char> {
    root + path
}

/// Whether the canonical path `canonical` is the served root `root` or lies
/// below it: `root` is a prefix of it that ends at a component boundary.
pub open spec fn within_root(root: Seq<char>, canonical: Seq<char>) -> bool {
    &&& root.is_prefix_of(canonical)
    &&& (canonical.len() == root.len() || (root.len() > 0 && root.last() == '/')
        || canonical[root.len() as int] == '/')
}

/// Whether a path ends with `/`.
pub open spec fn has_trailing_slash(path: Seq<char>) -> bool {
    path.len() > 0 && path.last() == '/'
}

/// The path of the `index.html` of the directory `dir`.
pub open spec fn index_file(dir: Seq<char>) -> Seq<char> {
    if has_trailing_slash(dir) {
        dir + "index.html"@
    } else {
        dir + "/index.html"@
    }
}

/// What the request for `path` resolves to under the served root `root`,
/// given what the file system says.
pub open spec fn resolved(path: Seq<char>, root: Seq<char>, probe: ProbeView) -> TargetView {
    match probe {
        ProbeView::Missing => TargetView::NotFound,
        ProbeView::Found { canonical, is_dir, has_index } => {
            if !within_root(root, canonical) {
                TargetView::NotFound
            } else if !is_dir {
                TargetView::File { path: canonical }
            } else if !has_trailing_slash(path) {
                TargetView::Redirect { location: path.push('/') }
            } else if has_index {
                TargetView::File { path: index_file(canonical) }
            } else {
                TargetView::Index { dir: canonical, url_path: path }
            }
        },
    }
}

/// Builds the file system path to probe for the decoded path of a request.
pub fn locate(root: &str, path: &str) -> (located: String)
    ensures
        located@ == fs_path(root@, path@),
{
    let mut located = root.to_owned();
    located.append(path);
    located
}

/// Decides whether `canonical` is `root` or lies below it.
pub fn is_within_root(root: &str, canonical: &str) -> (r: bool)
    ensures
        r == within_root(root@, canonical@),
{
    let r = chars_of(root);
    let c = chars_of(canonical);
    if r.len() > c.len() {
        return false;
    }
    let mut i: usize = 0;
    while i < r.len()
        invariant
            i <= r.len() <= c.len(),
            r@ == root@,
            c@ == canonical@,
            forall|j: int| 0 <= j < i ==> r@[j] == c@[j],
        decreases r.len() - i,
    {
        if r[i] != c[i] {
            return false;
        }
        i += 1;
    }
    c.len() == r.len() || (r.len() > 0 && r[r.len() - 1] == '/') || c[r.len()] == '/'
}

/// Builds the path of the `index.html` of the directory `dir`.
pub fn index_path(dir: &str) -> (path: String)
    ensures
        path@ == index_file(dir@),
{
    let mut path = dir.to_owned();
    if ends_with_char(dir, '/') {
        path.append("index.html");
    } else {
        path.append("/index.html");
    }
    path
}

/// Resolves the decoded path of a request.
///
/// A path at which nothing exists, or whose canonical form leaves the
/// served root, is not found. A directory asked for without its trailing
/// `/` redirects to the path with one `/` appended. A directory with an
/// `index.html` is served by that file; one without is listed. Anything
/// else is served as the file it is.
pub fn resolve(path: &str, root: &str, probe: &Probe) -> (target: Target)
    ensures
        target@ == resolved(path@, root@, probe@),
{
    match probe {
        Probe::Missing => Target::NotFound,
        Probe::Found { canonical, is_dir, has_index } => {
            if !is_within_root(root, canonical.as_str()) {
                Target::NotFound
            } else if !*is_dir {
                Target::File { path: canonical.clone() }
            } else if !ends_with_char(path, '/') {
                let mut location = path.to_owned();
                location.append("/");
                proof {
                    reveal_strlit("/");
                    assert(location@ =~= path@.push('/'));
                }
                Target::Redirect { location }
            } else if *has_index {
                Target::File { path: index_path(canonical.as_str()) }
            } else {
                Target::Index { dir: canonical.clone(), url_path: path.to_owned() }
            }
        },
    }
}

/// The `index.html` of a directory is served as HTML.
pub proof fn lemma_index_file_is_html(dir: Seq<char>)
    ensures
        content_type_of(extension(index_file(dir))) == "text/html"@,
{
    reveal_strlit("index.html");
    reveal_strlit("/index.html");
    reveal_strlit("html");
    reveal_strlit("css");
    reveal_strlit("gif");
    let path = index_file(dir);
    // The last `/` of the path is the one in front of `index.html`, and
    // the last `.` of that name is the one in front of `html`.
    lemma_last_index_is(path, '/', path.len() - 11);
    let name = path.skip(path.len() - 10);
    assert(name =~= "index.html"@);
    lemma_last_index_is(name, '.', 5);
    assert(extension(path) =~= "html"@);
}

} // verus!
