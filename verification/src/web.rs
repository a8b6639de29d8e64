//! What the web surface and the command line decide from text: which file a
//! request names, what kind of content it is, and which lines of a list of
//! links count.

use crate::strings::{chars_of, string_of, strings_view};
use crate::text::{
    ends_with, find_text, found_at, pieces, split, strip_leading, texts, trim, trimmed,
    without_leading,
};
use vstd::prelude::*;

verus! {

/// The content type of a file, by the end of its path.
pub open spec fn content_type_of(path: Seq<char>) -> Seq<char> {
    if ".html"@.is_suffix_of(path) {
        "text/html; charset=utf-8"@
    } else if ".css"@.is_suffix_of(path) {
        "text/css; charset=utf-8"@
    } else if ".js"@.is_suffix_of(path) {
        "application/javascript; charset=utf-8"@
    } else {
        "application/octet-stream"@
    }
}

/// Whether a path ends with the given text.
fn path_ends(path: &[char], end: &str) -> (r: bool)
    ensures
        r == end@.is_suffix_of(path@),
{
    let e = chars_of(end);
    ends_with(path, e.as_slice())
}

/// The content type of a file, by the end of its path.
pub fn content_type_for_path(path: &str) -> (mime: &'static str)
    ensures
        mime@ == content_type_of(path@),
{
    let chars = chars_of(path);
    let p = chars.as_slice();
    if path_ends(p, ".html") {
        "text/html; charset=utf-8"
    } else if path_ends(p, ".css") {
        "text/css; charset=utf-8"
    } else if path_ends(p, ".js") {
        "application/javascript; charset=utf-8"
    } else {
        "application/octet-stream"
    }
}

/// The file below the web root that a request path names: the path without
/// its leading slashes, `index.html` where nothing is left, and none where
/// the path holds `..`.
pub open spec fn static_file_of(url: Seq<char>) -> Option<Seq<char>> {
    let bare = without_leading(url, '/');
    let path = if bare.len() == 0 {
        "index.html"@
    } else {
        bare
    };
    if found_at(path, ".."@) is Some {
        None
    } else {
        Some(path)
    }
}

/// The file below the web root that a request path names.
pub fn static_file_path(url: &str) -> (r: Option<String>)
    ensures
        crate::strings::opt_view(r) == static_file_of(url@),
{
    let chars = chars_of(url);
    let bare = strip_leading(chars.as_slice(), '/');
    let index = chars_of("index.html");
    let path = if bare.len() == 0 {
        index.as_slice()
    } else {
        bare
    };
    let dots = chars_of("..");
    match find_text(path, dots.as_slice()) {
        Some(_) => None,
        None => Some(string_of(path)),
    }
}

/// Whether a line of a list of links counts: it is not blank and does not
/// start with `#`.
pub open spec fn is_entry(line: Seq<char>) -> bool {
    trimmed(line).len() > 0 && trimmed(line)[0] != '#'
}

/// Of the first `k` lines, trimmed, those that count.
pub open spec fn entries(lines: Seq<Seq<char>>, k: int) -> Seq<Seq<char>>
    decreases k,
{
    if k <= 0 {
        seq![]
    } else if is_entry(lines[k - 1]) {
        entries(lines, k - 1).push(trimmed(lines[k - 1]))
    } else {
        entries(lines, k - 1)
    }
}

/// The links of a text that holds one link per line: the lines, trimmed,
/// without the blank ones and those that start with `#`.
pub fn url_lines(text: &str) -> (urls: Vec<String>)
    ensures
        strings_view(urls@) == entries(pieces(text@, '\n'), pieces(text@, '\n').len() as int),
{
    let chars = chars_of(text);
    let lines = split(chars.as_slice(), '\n');
    let ghost ls = pieces(text@, '\n');
    let mut urls: Vec<String> = Vec::new();
    let mut i: usize = 0;
    while i < lines.len()
        invariant
            i <= lines.len(),
            texts(lines@) == ls,
            strings_view(urls@) == entries(ls, i as int),
        decreases lines.len() - i,
    {
        proof {
            assert(texts(lines@)[i as int] == lines@[i as int]@);
        }
        let line = trim(lines[i]);
        if line.len() > 0 && line[0] != '#' {
            let ghost before = urls@;
            urls.push(string_of(line));
            proof {
                assert(strings_view(urls@) =~= strings_view(before).push(line@));
            }
        }
        i += 1;
    }
    urls
}

} // verus!
