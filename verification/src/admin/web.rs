//! The dashboard's web assets: which embedded file a request asks for, and
//! with which content type it is served.

use vstd::prelude::*;

use crate::text::{contains_pair, from_chars, has_pair, str_eq, to_chars};

verus! {

/// The extension of a path as `Path::extension` gives it: the part of the
/// final component after its last `.`, when there is one and the component
/// is not a dot-file without another `.`.
pub uninterp spec fn path_extension(path: Seq<char>) -> Option<Seq<char>>;

/// The extension of a path (`Path::extension`), as a string.
#[verifier::external_body]
fn file_extension(path: &str) -> (ext: Option<String>)
    ensures
        match ext {
            Some(e) => path_extension(path@) == Some(e@),
            None => path_extension(path@) is None,
        },
{
    std::path::Path::new(path).extension().map(|e| e.to_string_lossy().into_owned())
}

/// The embedded file that a request path asks for: `None` when the path
/// holds `..`; otherwise the path with `index.html` after a final `/` (an
/// empty path being `/`), without its leading `/`.
pub open spec fn web_asset_path(request: Seq<char>) -> Option<Seq<char>> {
    if has_pair(request, '.') {
        None
    } else {
        let p1 = if request.len() == 0 {
            seq!['/']
        } else {
            request
        };
        let p2 = if p1.last() == '/' {
            p1 + "index.html"@
        } else {
            p1
        };
        Some(
            if p2[0] == '/' {
                p2.drop_first()
            } else {
                p2
            },
        )
    }
}

/// The content type that a file is served with: HTML and JavaScript by
/// their extension, nothing for other files.
pub open spec fn web_content_type(path: Seq<char>) -> Option<Seq<char>> {
    match path_extension(path) {
        Some(e) => if e == "html"@ {
            Some("text/html"@)
        } else if e == "js"@ {
            Some("text/javascript"@)
        } else {
            None
        },
        None => None,
    }
}

/// The embedded file that a request path asks for (see [`web_asset_path`]).
pub fn resolve_web_path(request: &str) -> (path: Option<String>)
    ensures
        match path {
            Some(p) => web_asset_path(request@) == Some(p@),
            None => web_asset_path(request@) is None,
        },
{
    if contains_pair(request, '.') {
        return None;
    }
    let mut chars = to_chars(request);
    if chars.len() == 0 {
        chars.push('/');
    }
    let ghost p1 = chars@;
    if chars[chars.len() - 1] == '/' {
        let index = to_chars("index.html");
        let mut i: usize = 0;
        while i < index.len()
            invariant
                index@ == "index.html"@,
                i <= index@.len(),
                chars@ == p1 + index@.take(i as int),
            decreases index@.len() - i,
        {
            assert(index@.take(i + 1) =~= index@.take(i as int).push(index@[i as int]));
            chars.push(index[i]);
            i = i + 1;
        }
        assert(index@.take(index@.len() as int) =~= index@);
    }
    assert(chars@.len() > 0);
    if chars[0] == '/' {
        chars.remove(0);
        assert(chars@ =~= (if p1.last() == '/' { p1 + "index.html"@ } else { p1 }).drop_first());
    }
    Some(from_chars(&chars))
}

/// The content type that the file at `path` is served with (see
/// [`web_content_type`]).
pub fn content_type_of(path: &str) -> (ct: Option<&'static str>)
    ensures
        match ct {
            Some(c) => web_content_type(path@) == Some(c@),
            None => web_content_type(path@) is None,
        },
{
    match file_extension(path) {
        Some(e) => {
            if str_eq(e.as_str(), "html") {
                Some("text/html")
            } else if str_eq(e.as_str(), "js") {
                Some("text/javascript")
            } else {
                None
            }
        },
        None => None,
    }
}

} // verus!
