use typwiki::assets::collect_assets;
use typwiki::bundle::{compile, duplicate_path_error, place_entry, AssetOutput};
use typwiki::diag::{Severity, Spanned};
use typwiki::pathmap::PathMap;
use typwiki::vpath::VPath;

fn vp(s: &str) -> VPath {
    VPath::new(s).unwrap()
}

fn asset(path: &str, data: &[u8], span: u64) -> AssetOutput {
    AssetOutput { path: vp(path), data: data.to_vec(), span }
}

#[test]
fn duplicate_path_message() {
    let d = duplicate_path_error(&vp("/img/logo.png"), "asset", 7, 3);
    assert_eq!(d.severity, Severity::Error);
    assert_eq!(d.span, 7);
    assert_eq!(d.message, "path `img/logo.png` occurs multiple times in the bundle");
    assert_eq!(d.hints.len(), 2);
    assert_eq!(d.hints[0].message, "asset paths must be unique in the bundle");
    assert_eq!(d.hints[0].span, None);
    assert_eq!(d.hints[1].message, "path is already in use here");
    assert_eq!(d.hints[1].span, Some(3));
}

#[test]
fn first_document_keeps_its_path() {
    let mut entries: PathMap<Spanned<&str>> = PathMap::new();
    assert!(place_entry(&mut entries, vp("/a.html"), "first", 1, "document").is_none());
    let err = place_entry(&mut entries, vp("/a.html"), "second", 2, "document").unwrap();
    assert_eq!(err.message, "path `a.html` occurs multiple times in the bundle");
    assert_eq!(err.hints[0].message, "document paths must be unique in the bundle");
    assert_eq!(err.hints[1].span, Some(1));
    assert_eq!(entries.len(), 1);
    assert_eq!(entries.get(&vp("/a.html")).unwrap().v, "first");
    assert!(entries.contains(&vp("/a.html")));
    assert!(!entries.contains(&vp("/b.html")));
}

fn documents(docs: Vec<(&str, Result<Vec<u8>, Vec<String>>, u64)>) -> PathMap<Spanned<Result<Vec<u8>, Vec<String>>>> {
    let mut m = PathMap::new();
    for (p, r, span) in docs {
        assert!(m.insert_new(vp(p), Spanned { v: r, span }).is_ok());
    }
    m
}

#[test]
fn compiles_documents_and_assets() {
    let docs = documents(vec![("/index.html", Ok(b"<p>hi</p>".to_vec()), 1)]);
    let wiki = compile(docs, vec![asset("/logo.png", b"PNG", 2)]).unwrap();
    assert_eq!(wiki.entries.len(), 2);
    assert_eq!(wiki.entries.get(&vp("/index.html")).unwrap(), b"<p>hi</p>");
    assert_eq!(wiki.entries.get(&vp("/logo.png")).unwrap(), b"PNG");
}

#[test]
fn compile_reports_rendering_errors() {
    let docs = documents(vec![
        ("/a.html", Err(vec!["broken".to_string()]), 1),
        ("/b.html", Ok(b"b".to_vec()), 2),
    ]);
    let errors = compile(docs, vec![]).unwrap_err();
    assert_eq!(errors.rendering, vec!["broken".to_string()]);
    assert!(errors.collisions.is_empty());
}

#[test]
fn compile_reports_assets_that_take_a_document_path() {
    let docs = documents(vec![("/a.html", Ok(b"page".to_vec()), 1)]);
    let errors = compile(docs, vec![asset("/a.html", b"other", 5), asset("/x.css", b"css", 6), asset("/x.css", b"css", 7)]).unwrap_err();
    assert!(errors.rendering.is_empty());
    assert_eq!(errors.collisions.len(), 2);
    assert_eq!(errors.collisions[0].span, 5);
    assert_eq!(errors.collisions[0].message, "path `a.html` occurs multiple times in the bundle");
    assert_eq!(errors.collisions[0].hints[1].span, Some(1));
    assert_eq!(errors.collisions[1].span, 7);
    assert_eq!(errors.collisions[1].hints[1].span, Some(6));
}

#[test]
fn collects_agreeing_assets() {
    let assets = vec![asset("/a.css", b"x", 1), asset("/b.css", b"y", 2), asset("/a.css", b"x", 3)];
    let out = collect_assets(&assets).unwrap();
    assert_eq!(out.len(), 2);
    assert_eq!(out[0].0.as_str(), "/a.css");
    assert_eq!(out[0].1, b"x".to_vec());
    assert_eq!(out[1].0.as_str(), "/b.css");
    assert_eq!(out[1].1, b"y".to_vec());
}

#[test]
fn reports_conflicting_assets() {
    let assets = vec![
        asset("/a.css", b"x", 1),
        asset("/a.css", b"y", 2),
        asset("/b.css", b"z", 3),
        asset("/a.css", b"x", 4),
    ];
    let errors = collect_assets(&assets).unwrap_err();
    assert_eq!(errors.len(), 1);
    let e = &errors[0];
    assert_eq!(e.severity, Severity::Error);
    assert_eq!(e.span, 4);
    assert_eq!(e.message, "multiple conflicting assets for output \"/a.css\"");
    assert_eq!(e.hints.len(), 1);
    assert_eq!(e.hints[0].message, "conflicting asset");
    assert_eq!(e.hints[0].span, Some(2));
}

#[test]
fn no_assets_no_outputs() {
    assert!(collect_assets(&vec![]).unwrap().is_empty());
}

#[test]
fn reads_give_back_what_was_inserted() {
    let mut map: PathMap<u32> = PathMap::new();
    assert!(map.insert_new(vp("/a"), 1).is_ok());
    assert_eq!(map.get(&vp("/a")), Some(&1));
    assert_eq!(map.get(&vp("/b")), None);
    let refused = map.insert_new(vp("/a"), 2);
    assert!(matches!(refused, Err((ref p, 2)) if p.as_str() == "/a"));
    assert_eq!(map.get(&vp("/a")), Some(&1));
    assert!(map.insert_new(vp("/b"), 3).is_ok());
    assert_eq!(map.get(&vp("/a")), Some(&1));
    assert_eq!(map.get(&vp("/b")), Some(&3));
    assert_eq!(map.len(), 2);
}
