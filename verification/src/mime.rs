//! Content types by file extension.

use vstd::prelude::*;
use vstd::string::*;
use crate::text::{chars_of, last_index, lemma_last_index_is, rfind_between, str_eq};

verus! {

/// The file name of a `/`-separated path: its last component, as
/// `std::path::Path::file_name` finds it on such a path. Trailing `/` and
/// trailing `.` components do not count; a path that ends in the component
/// `..`, and a path without any component, has no file name, which is
/// given as the empty text.
pub open spec fn file_name(path: Seq<char>) -> Seq<char>
    decreases path.len(),
{
    if path.len() == 0 {
        path
    } else if path.last() == '/' {
        file_name(path.drop_last())
    } else {
        let segment = path.skip(last_index(path, '/') + 1);
        if segment == seq!['.'] {
            file_name(path.drop_last())
        } else if segment == seq!['.', '.'] {
            Seq::<char>::empty()
        } else {
            segment
        }
    }
}

/// The extension of a path: what follows the last `.` of its file name. It
/// is empty when the file name holds no `.`, or only a leading one.
pub open spec fn extension(path: Seq<char>) -> Seq<char> {
    let name = file_name(path);
    let dot = last_index(name, '.');
    if dot <= 0 {
        Seq::<char>::empty()
    } else {
        name.skip(dot + 1)
    }
}

/// The content type served for a file extension. Extensions are matched
/// exactly, in lower case; any other extension is an octet stream.
pub open spec fn content_type_of(ext: Seq<char>) -> Seq<char> {
    if ext == "css"@ {
        "text/css"@
    } else if ext == "gif"@ {
        "image/gif"@
    } else if ext == "html"@ {
        "text/html"@
    } else if ext == "ico"@ {
        "image/x-icon"@
    } else if ext == "jpg"@ || ext == "jpeg"@ {
        "image/jpeg"@
    } else if ext == "js"@ {
        "application/javascript"@
    } else if ext == "png"@ {
        "image/png"@
    } else if ext == "svg"@ {
        "image/svg+xml"@
    } else if ext == "ttf"@ {
        "font/ttf"@
    } else if ext == "txt"@ {
        "text/plain"@
    } else if ext == "woff"@ {
        "font/woff"@
    } else if ext == "woff2"@ {
        "font/woff2"@
    } else if ext == "xml"@ {
        "application/xml"@
    } else {
        "application/octet-stream"@
    }
}

/// A trailing `/`, and a trailing component `.`, change neither the file
/// name of a path nor its extension, so neither changes its content type.
pub proof fn lemma_trailing_separator(path: Seq<char>)
    ensures
        file_name(path + seq!['/']) == file_name(path),
        file_name(path + seq!['/', '.']) == file_name(path),
        extension(path + seq!['/']) == extension(path),
        extension(path + seq!['/', '.']) == extension(path),
{
    let slash = path + seq!['/'];
    let dot = path + seq!['/', '.'];
    assert(slash.drop_last() =~= path);
    assert(dot.drop_last() =~= slash);
    lemma_last_index_is(dot, '/', path.len() as int);
    assert(dot.skip(path.len() as int + 1) =~= seq!['.']);
}

/// The content type of a path depends on its extension alone.
pub proof fn lemma_same_extension_same_type(p: Seq<char>, q: Seq<char>)
    requires
        extension(p) == extension(q),
    ensures
        content_type_of(extension(p)) == content_type_of(extension(q)),
{
}

/// Finds where the file name of the path `v` starts and ends.
fn file_name_bounds(v: &Vec<char>) -> (bounds: (usize, usize))
    ensures
        bounds.0 <= bounds.1 <= v.len(),
        v@.subrange(bounds.0 as int, bounds.1 as int) == file_name(v@),
{
    let mut end: usize = v.len();
    assert(v@.take(end as int) =~= v@);
    while end > 0
        invariant
            end <= v.len(),
            file_name(v@) == file_name(v@.take(end as int)),
        decreases end,
    {
        let ghost head = v@.take(end as int);
        assert(head.drop_last() =~= v@.take(end - 1));
        if v[end - 1] == '/' {
            end -= 1;
        } else {
            let start: usize = match rfind_between(v, 0, end, '/') {
                Some(slash) => slash + 1,
                None => 0,
            };
            assert(head.skip(start as int) =~= v@.subrange(start as int, end as int));
            let ghost segment = v@.subrange(start as int, end as int);
            if end - start == 1 && v[start] == '.' {
                assert(segment =~= seq!['.']);
                end -= 1;
            } else if end - start == 2 && v[start] == '.' && v[start + 1] == '.' {
                assert(segment =~= seq!['.', '.']);
                return (end, end);
            } else {
                assert(segment == seq!['.'] ==> segment.len() == 1 && segment[0] == '.');
                assert(segment == seq!['.', '.'] ==> segment.len() == 2 && segment[1] == '.');
                return (start, end);
            }
        }
    }
    (0, 0)
}

/// Extracts the file name of `path`; the empty text where it has none.
pub fn file_name_of(path: &str) -> (name: &str)
    ensures
        name@ == file_name(path@),
{
    let v = chars_of(path);
    let (start, end) = file_name_bounds(&v);
    path.substring_char(start, end)
}

/// Extracts the extension of `path`; the empty text where it has none.
pub fn extension_of(path: &str) -> (ext: &str)
    ensures
        ext@ == extension(path@),
{
    let v = chars_of(path);
    let (start, end) = file_name_bounds(&v);
    match rfind_between(&v, start, end, '.') {
        Some(dot) => {
            if dot == start {
                path.substring_char(end, end)
            } else {
                path.substring_char(dot + 1, end)
            }
        },
        None => path.substring_char(end, end),
    }
}

/// Looks up the content type for a file extension.
pub fn content_type_for_extension(ext: &str) -> (r: &'static str)
    ensures
        r@ == content_type_of(ext@),
{
    if str_eq(ext, "css") {
        "text/css"
    } else if str_eq(ext, "gif") {
        "image/gif"
    } else if str_eq(ext, "html") {
        "text/html"
    } else if str_eq(ext, "ico") {
        "image/x-icon"
    } else if str_eq(ext, "jpg") || str_eq(ext, "jpeg") {
        "image/jpeg"
    } else if str_eq(ext, "js") {
        "application/javascript"
    } else if str_eq(ext, "png") {
        "image/png"
    } else if str_eq(ext, "svg") {
        "image/svg+xml"
    } else if str_eq(ext, "ttf") {
        "font/ttf"
    } else if str_eq(ext, "txt") {
        "text/plain"
    } else if str_eq(ext, "woff") {
        "font/woff"
    } else if str_eq(ext, "woff2") {
        "font/woff2"
    } else if str_eq(ext, "xml") {
        "application/xml"
    } else {
        "application/octet-stream"
    }
}

/// Guesses the content type of the file at `path` from its extension.
pub fn guess_content_type(path: &str) -> (r: &'static str)
    ensures
        r@ == content_type_of(extension(path@)),
{
    content_type_for_extension(extension_of(path))
}

} // verus!
