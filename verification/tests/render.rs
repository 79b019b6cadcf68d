use typwiki::focus::{focus_label, path_location, query_labelled};
use typwiki::render::{
    build_outcomes, ext_ref_link, make_relative, render_wiki, Compiled, HtmlNodeKind, Page, Warned, Wiki, WikiEntry,
};
use typwiki::scope::{check_asset_root, containing_file};
use typwiki::scope::{GlobalIndicator, WikiScope};
use typwiki::vpath::VPath;

fn vp(s: &str) -> VPath {
    VPath::new(s).unwrap()
}

fn page(path: &str) -> Page<&'static str> {
    Page { path: vp(path), anchors: vec![(42, "intro".to_string())], document: "doc" }
}

#[test]
fn fresh_wiki_is_incomplete() {
    let wiki: Wiki<&str, String> = Wiki::from_paths(vec![vp("/a.typ"), vp("/b.typ")]);
    assert_eq!(wiki.0.len(), 2);
    assert!(wiki.is_incomplete());
    assert!(wiki.pages().is_empty());
    assert_eq!(wiki.query_label(Vec::<u8>::new(), "x"), Ok(None));
    let empty: Wiki<&str, String> = Wiki::from_paths(vec![]);
    assert!(!empty.is_incomplete());
}

#[test]
fn rendering_round() {
    let wiki: Wiki<&str, String> = Wiki(vec![
        Warned { output: WikiEntry::Empty(vp("/a.typ")), warnings: vec![] },
        Warned { output: WikiEntry::Error(vec!["old".to_string()]), warnings: vec!["w0".to_string()] },
        Warned { output: WikiEntry::Rendered(page("/b.typ")), warnings: vec![] },
    ]);
    let (failed, targets) = wiki.render_targets();
    assert_eq!(failed.len(), 1);
    let names: Vec<&str> = targets.iter().map(|p| p.as_str()).collect();
    assert_eq!(names, vec!["/a.typ", "/b.typ"]);
    let compiled = vec![
        Warned { output: Ok((vec![(42, "intro".to_string())], "doc", Some(HtmlNodeKind::Element))), warnings: vec!["w1".to_string()] },
        Warned { output: Err(vec!["e".to_string()]), warnings: vec![] },
    ];
    let wiki = render_wiki(failed, targets, compiled);
    assert_eq!(wiki.0.len(), 3);
    assert!(!wiki.is_incomplete());
    assert_eq!(wiki.pages().len(), 1);
    assert_eq!(wiki.pages()[0].path.as_str(), "/a.typ");
    let diags: Vec<&String> = wiki.diagnostics();
    assert_eq!(diags, vec!["w0", "old", "w1", "e"]);
    assert_eq!(
        wiki.query_label(Vec::<u8>::new(), "x"),
        Err("label `<x>` does not exist in the wiki".to_string())
    );
    assert_eq!(
        wiki.query_label(vec![1, 2], "x"),
        Err("label `<x>` occurs multiple times in the wiki".to_string())
    );
    assert_eq!(wiki.query_label(vec![7], "x"), Ok(Some(7)));
}

#[test]
fn links_to_pages_and_elements() {
    let main = vp("/notes/main.typ");
    let p = page("/notes/intro.typ");
    assert_eq!(p.html_link(&main), "intro.html");
    assert_eq!(ext_ref_link(&p, &main, Some(42)), "intro.html#intro");
    assert_eq!(ext_ref_link(&p, &main, Some(7)), "intro.html");
    assert_eq!(ext_ref_link(&p, &main, None), "intro.html");
    let other = page("/blog/post.typ");
    assert_eq!(other.html_link(&main), "../blog/post.html");
    assert_eq!(make_relative(&vp("/img/a.png"), true, &main), Ok("../img/a.png".to_string()));
    assert_eq!(
        make_relative(&vp("/img/a.png"), false, &main),
        Err("relativizing paths from outside the main root is not supported".to_string())
    );
}

#[test]
fn scope_functions() {
    let scope = WikiScope;
    let _marker = GlobalIndicator;
    assert_eq!(scope.repr(), "wiki");
    assert_eq!(scope.query_label(vec!["x"], "lbl"), Ok("x"));
    assert_eq!(
        scope.query_label(Vec::<&str>::new(), "lbl"),
        Err("label `<lbl>` does not exist in the wiki".to_string())
    );
    assert_eq!(
        scope.query_label(vec!["x", "y"], "lbl"),
        Err("label `<lbl>` occurs multiple times in the wiki".to_string())
    );
    assert_eq!(scope.make_relative("/a/b.html", "/a/c.typ"), "b.html");
    assert_eq!(scope.try_make_relative("/a/b.html", "/"), None);
    assert_eq!(scope.try_make_relative("/../b", "/a/c.typ"), None);
    assert_eq!(scope.try_make_relative("/x.html", "/a/c.typ"), Some("../x.html".to_string()));
    let marker = scope.register_for_index("notes//a.typ");
    assert_eq!(marker.0.as_str(), "/notes/a.typ");
    assert_eq!(marker.repr(), "index-marker(\"/notes/a.typ\")");
    assert!(scope.try_register_for_index("/a\\b").is_none());
}

#[test]
fn focused_queries() {
    assert_eq!(focus_label(Ok::<u8, String>(1), Some(5), 5, "<a>"), Ok(1));
    assert_eq!(
        focus_label(Ok::<u8, String>(1), Some(6), 5, "<a>"),
        Err("label `<a>` exists in the wiki, but not in the document".to_string())
    );
    assert_eq!(focus_label(Ok::<u8, String>(1), None, 5, "<a>").is_err(), true);
    assert_eq!(focus_label(Err::<u8, String>("gone".to_string()), Some(5), 5, "<a>"), Err("gone".to_string()));
    assert_eq!(query_labelled(vec![(1, Some(5)), (2, Some(6)), (3, None), (4, Some(5))], 5), vec![1, 4]);
    assert_eq!(path_location(Some(9), 3), 9);
    assert_eq!(path_location(None, 3), 3);
}

#[test]
fn rendered_pages_carry_their_paths() {
    let paths = vec![vp("/x.typ"), vp("/y.typ")];
    let compiled: Vec<Compiled<&str, String>> = vec![
        Warned { output: Err(vec!["bad".to_string()]), warnings: vec![] },
        Warned { output: Ok((vec![(1, "top".to_string())], "y-doc", Some(HtmlNodeKind::Element))), warnings: vec!["w".to_string()] },
    ];
    let outcomes = build_outcomes(paths, compiled);
    assert_eq!(outcomes.len(), 2);
    assert_eq!(outcomes[0].output.as_ref().unwrap_err(), &vec!["bad".to_string()]);
    let built = outcomes[1].output.as_ref().unwrap();
    assert_eq!(built.path.as_str(), "/y.typ");
    assert_eq!(built.anchors, vec![(1, "top".to_string())]);
    assert_eq!(built.document, "y-doc");
    assert_eq!(outcomes[1].warnings, vec!["w".to_string()]);
}

#[test]
fn queries_pair_elements_with_their_pages() {
    let wiki: Wiki<&str, String> = Wiki(vec![
        Warned { output: WikiEntry::Rendered(page("/a.typ")), warnings: vec![] },
        Warned { output: WikiEntry::Error(vec!["e".to_string()]), warnings: vec![] },
        Warned { output: WikiEntry::Rendered(page("/b.typ")), warnings: vec![] },
    ]);
    let found = wiki.query(vec![vec!["x", "y"], vec!["z"]]);
    let pairs: Vec<(&str, &str)> = found.iter().map(|(t, p)| (*t, p.path.as_str())).collect();
    assert_eq!(pairs, vec![("x", "/a.typ"), ("y", "/a.typ"), ("z", "/b.typ")]);
    assert!(wiki.query(vec![Vec::<u8>::new(), vec![]]).is_empty());
}

#[test]
fn asset_reads_need_a_known_file_under_the_root() {
    assert_eq!(containing_file(Some(3)), Ok(3));
    assert_eq!(containing_file::<u8>(None), Err("the containing file is unknown".to_string()));
    assert_eq!(check_asset_root(true), Ok(()));
    assert_eq!(
        check_asset_root(false),
        Err("including resources from outside the main root is not supported".to_string())
    );
}
