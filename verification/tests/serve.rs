use typwiki::bundle::{compile, Wiki};
use typwiki::diag::Spanned;
use typwiki::pathmap::PathMap;
use typwiki::serve::{answer, cache_headers, handler, is_reported, Answer, Found, Refusal};
use typwiki::vpath::VPath;

fn site() -> Wiki<Vec<u8>> {
    let mut docs: PathMap<Spanned<Result<Vec<u8>, Vec<String>>>> = PathMap::new();
    docs.insert_new(VPath::new("/index.html").unwrap(), Spanned { v: Ok(b"home".to_vec()), span: 1 }).unwrap();
    docs.insert_new(VPath::new("/notes/index.html").unwrap(), Spanned { v: Ok(b"notes".to_vec()), span: 2 }).unwrap();
    docs.insert_new(VPath::new("/style.css").unwrap(), Spanned { v: Ok(b"css".to_vec()), span: 3 }).unwrap();
    compile(docs, vec![]).unwrap()
}

#[test]
fn without_a_wiki_every_request_is_an_error() {
    let r = handler(None, "/index.html").unwrap_err();
    assert_eq!(r.status, 500);
    assert_eq!(r.html, "<code>compilation error</code>");
}

#[test]
fn serves_pages_and_directories() {
    let wiki = site();
    let page = handler(Some(&wiki), "/index.html").unwrap();
    assert_eq!(page.body, b"home".to_vec());
    assert_eq!(page.content_type, "text/html");
    let root = handler(Some(&wiki), "/").unwrap();
    assert_eq!(root.body, b"home".to_vec());
    let notes = handler(Some(&wiki), "/notes/").unwrap();
    assert_eq!(notes.body, b"notes".to_vec());
    let css = handler(Some(&wiki), "/style.css").unwrap();
    assert_eq!(css.content_type, "text/css");
}

#[test]
fn refuses_bad_and_unknown_paths() {
    let wiki = site();
    let bad = handler(Some(&wiki), "/../secret").unwrap_err();
    assert_eq!(bad.status, 400);
    assert_eq!(bad.html, "<code>malformed uri</code>");
    let missing = handler(Some(&wiki), "/nothing.html").unwrap_err();
    assert_eq!(missing.status, 404);
    assert_eq!(missing.html, "<code>page not found</code>");
}

#[test]
fn headers_disable_caching() {
    let h = cache_headers();
    assert_eq!(
        h,
        vec![
            ("cache-control".to_string(), "no-cache, no-store, must-revalidate".to_string()),
            ("pragma".to_string(), "no-cache".to_string()),
            ("expires".to_string(), "0".to_string()),
        ]
    );
}

#[test]
fn experimental_notes_are_not_reported() {
    assert!(!is_reported("html export is under active development and incomplete"));
    assert!(!is_reported("bundle export is experimental"));
    assert!(is_reported("unknown variable: x"));
}

#[test]
fn static_directory_takes_over_refusals() {
    let found = Found { content_type: "text/html".to_string(), body: b"x".to_vec() };
    assert!(matches!(answer(Ok(found), true), Answer::Page(f) if f.body == b"x".to_vec()));
    let refusal = || Refusal { status: 404, html: "<code>page not found</code>".to_string() };
    assert!(matches!(answer(Err(refusal()), true), Answer::Static));
    assert!(matches!(answer(Err(refusal()), false), Answer::Refuse(r) if r.status == 404));
    let wiki_missing = handler(None, "/x").unwrap_err();
    assert!(matches!(answer(Err(wiki_missing), true), Answer::Static));
}

#[test]
fn pages_are_found_directly_or_by_index() {
    let wiki = site();
    let notes = VPath::new("/notes").unwrap();
    let index = VPath::new("/notes/index.html").unwrap();
    let (at, content) = typwiki::serve::find_page(&wiki.entries, &notes, Some(&index)).unwrap();
    assert_eq!(at.as_str(), "/notes/index.html");
    assert_eq!(content, &b"notes".to_vec());
    let css = VPath::new("/style.css").unwrap();
    let (at, _) = typwiki::serve::find_page(&wiki.entries, &css, Some(&index)).unwrap();
    assert_eq!(at.as_str(), "/style.css");
    assert!(typwiki::serve::find_page(&wiki.entries, &notes, None).is_none());
}
