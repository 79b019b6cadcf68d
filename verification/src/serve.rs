//! Serving the compiled wiki over HTTP: which request gets which page.
use vstd::prelude::*;
use vstd::string::StringExecFns;
use crate::bundle::Wiki;
use crate::pathmap::PathMap;
use crate::diag::copy_bytes;
use crate::vpath::{joined_text, parse_virtual_path, VPath};

verus! {

/// The MIME type that `mime_guess` guesses for a path, as text.
pub uninterp spec fn guessed_content_type(path: Seq<char>) -> Seq<char>;

/// Calls `mime_guess::from_path(path).first_or_octet_stream()` and hands back
/// the MIME type as text. Claimed: the result is `guessed_content_type` of the
/// path (the crate looks the extension up in a fixed table).
#[verifier::external_body]
fn guess_content_type(path: &str) -> (r: String)
    ensures
        r@ == guessed_content_type(path@),
{
    mime_guess::from_path(path).first_or_octet_stream().as_ref().to_string()
}

/// A page found for a request: its MIME type and contents.
#[derive(Debug)]
pub struct Found {
    pub content_type: String,
    pub body: Vec<u8>,
}

/// A refused request: the status code and a short HTML body.
#[derive(Debug)]
pub struct Refusal {
    pub status: u16,
    pub html: String,
}

/// The path under which a request for `p` finds its page: `p` itself, or else
/// the `index.html` inside it.
pub open spec fn served_path(entries: Map<Seq<char>, Vec<u8>>, p: Seq<char>) -> Option<Seq<char>> {
    if entries.contains_key(p) {
        Some(p)
    } else {
        match joined_text(p, "index.html"@) {
            Ok(q) => if entries.contains_key(q) {
                Some(q)
            } else {
                None
            },
            Err(_) => None,
        }
    }
}

/// Whether `r` is the refusal with status `status` and body `html`.
pub open spec fn refused_with(r: Result<Found, Refusal>, status: u16, html: Seq<char>) -> bool {
    r matches Err(f) && f.status == status && f.html@ == html
}

/// Looks a page up: under `path` itself, or else under `index` (the path's
/// `index.html`, where there is one). Hands back the path it was found under
/// and its contents.
pub fn find_page<'a>(pages: &'a PathMap<Vec<u8>>, path: &'a VPath, index: Option<&'a VPath>) -> (r: Option<(&'a VPath, &'a Vec<u8>)>)
    ensures
        pages@.contains_key(path@) ==> (r matches Some((p, c)) && p@ == path@ && *c == pages@[path@]),
        !pages@.contains_key(path@) ==> match index {
            Some(q) => if pages@.contains_key(q@) {
                r matches Some((p, c)) && p@ == q@ && *c == pages@[q@]
            } else {
                r is None
            },
            None => r is None,
        },
{
    if let Some(content) = pages.get(path) {
        return Some((path, content));
    }
    match index {
        Some(q) => match pages.get(q) {
            Some(content) => Some((q, content)),
            None => None,
        },
        None => None,
    }
}

/// Answers a request for `uri_path`. Without a compiled wiki the answer is a
/// server error; a path that typst refuses is a bad request; a path with no
/// page, even with `index.html` joined to it, is not found. Otherwise the page
/// is served with the MIME type guessed from the path it was found under.
pub fn handler(wiki: Option<&Wiki<Vec<u8>>>, uri_path: &str) -> (r: Result<Found, Refusal>)
    ensures
        match wiki {
            None => refused_with(r, 500, "<code>compilation error</code>"@),
            Some(w) => match parse_virtual_path(uri_path@) {
                Err(_) => refused_with(r, 400, "<code>malformed uri</code>"@),
                Ok(p) => match served_path(w.entries@, p) {
                    None => refused_with(r, 404, "<code>page not found</code>"@),
                    Some(q) => r matches Ok(f) && f.content_type@ == guessed_content_type(q)
                        && f.body@ == w.entries@[q]@,
                },
            },
        },
{
    let pages = match wiki {
        Some(w) => &w.entries,
        None => {
            return Err(Refusal { status: 500, html: String::from_str("<code>compilation error</code>") });
        },
    };
    let path = match VPath::new(uri_path) {
        Ok(p) => p,
        Err(_) => {
            return Err(Refusal { status: 400, html: String::from_str("<code>malformed uri</code>") });
        },
    };
    let index = match path.join("index.html") {
        Ok(q) => Some(q),
        Err(_) => None,
    };
    match find_page(pages, &path, index.as_ref()) {
        Some((found_at, content)) => Ok(Found { content_type: guess_content_type(found_at.as_str()), body: copy_bytes(content) }),
        None => Err(Refusal { status: 404, html: String::from_str("<code>page not found</code>") }),
    }
}

/// How a request is finally answered.
#[derive(Debug)]
pub enum Answer {
    /// With the page that the wiki holds.
    Page(Found),
    /// From the directory of additional static files.
    Static,
    /// With the refusal.
    Refuse(Refusal),
}

/// Decides how a request is answered: a page of the wiki if there is one;
/// otherwise, where a directory of static files is configured, from that
/// directory, whatever the reason of the refusal; otherwise the refusal.
pub fn answer(result: Result<Found, Refusal>, has_static_dir: bool) -> (r: Answer)
    ensures
        match result {
            Ok(found) => r == Answer::Page(found),
            Err(refusal) => if has_static_dir {
                r is Static
            } else {
                r == Answer::Refuse(refusal)
            },
        },
{
    match result {
        Ok(found) => Answer::Page(found),
        Err(refusal) => {
            if has_static_dir {
                Answer::Static
            } else {
                Answer::Refuse(refusal)
            }
        },
    }
}

/// The headers added to every response so that browsers always reload.
pub open spec fn cache_header_views() -> Seq<(Seq<char>, Seq<char>)> {
    seq![
        ("cache-control"@, "no-cache, no-store, must-revalidate"@),
        ("pragma"@, "no-cache"@),
        ("expires"@, "0"@),
    ]
}

/// The headers added to every response, as names and values.
pub fn cache_headers() -> (r: Vec<(String, String)>)
    ensures
        r@.map_values(|h: (String, String)| (h.0@, h.1@)) == cache_header_views(),
{
    let mut r = Vec::new();
    r.push((String::from_str("cache-control"), String::from_str("no-cache, no-store, must-revalidate")));
    r.push((String::from_str("pragma"), String::from_str("no-cache")));
    r.push((String::from_str("expires"), String::from_str("0")));
    assert(r@.map_values(|h: (String, String)| (h.0@, h.1@)) =~= cache_header_views());
    r
}

/// Whether a compiler diagnostic with this message is shown to the user;
/// the notes that HTML and bundle export are experimental are not.
pub fn is_reported(message: &str) -> (r: bool)
    ensures
        r == (message@ != "html export is under active development and incomplete"@
            && message@ != "bundle export is experimental"@),
{
    let m = String::from_str(message);
    let first = String::from_str("html export is under active development and incomplete");
    let second = String::from_str("bundle export is experimental");
    m != first && m != second
}

} // verus!
