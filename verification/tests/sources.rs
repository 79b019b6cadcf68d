use typwiki::sources::{
    auto_include_source, collect_document_paths, collect_index_paths, generate_typst_index,
    has_hidden_segment, index_content, is_wiki_source, path_is_hidden, source_path,
};
use typwiki::vpath::VPath;
use typwiki::watch::{actions_for_event, WatchAction};

fn vp(s: &str) -> VPath {
    VPath::new(s).unwrap()
}

#[test]
fn hidden_paths() {
    assert!(path_is_hidden("notes/.git/config"));
    assert!(path_is_hidden(".hidden.typ"));
    assert!(path_is_hidden("./a.typ"));
    assert!(!path_is_hidden("notes/a.typ"));
    assert!(!path_is_hidden("/srv/wiki/a.typ"));
    assert!(has_hidden_segment(&vec!["a".to_string(), ".b".to_string()]));
    assert!(!has_hidden_segment(&vec!["a".to_string(), "".to_string()]));
}

#[test]
fn wiki_sources() {
    assert!(is_wiki_source("/srv/wiki/a.typ", true));
    assert!(!is_wiki_source("/srv/wiki/a.typ", false));
    assert!(!is_wiki_source("/srv/wiki/a.md", true));
    assert!(!is_wiki_source("/srv/wiki/.drafts/a.typ", true));
    assert_eq!(source_path("/srv/wiki", "/srv/wiki/notes/a.typ", true).unwrap().as_str(), "/notes/a.typ");
    assert!(source_path("/srv/wiki", "/elsewhere/a.typ", true).is_none());
    assert!(source_path("/srv/wiki", "/srv/wiki/a.txt", true).is_none());
}

#[test]
fn include_source_lists_every_page() {
    let paths = vec![vp("/a.typ"), vp("/b/c.typ")];
    assert_eq!(auto_include_source(&paths), "#include \"/a.typ\"\n#include \"/b/c.typ\"\n");
    assert_eq!(auto_include_source(&vec![]), "");
}

#[test]
fn index_file_contents() {
    assert_eq!(index_content(&vec![]), "#set heading(numbering: \"1.\")\n");
    assert_eq!(
        index_content(&vec![vp("/a.typ")]),
        "#set heading(numbering: \"1.\")\n#include(\"/a.typ\")\n"
    );
    assert!(generate_typst_index(None, "/srv/wiki", "/srv/wiki/index.typ").is_none());
    let paths = vec![vp("/a.typ"), vp("/b/c.typ")];
    assert_eq!(
        generate_typst_index(Some(&paths), "/srv/wiki", "/srv/wiki/sub/index.typ").unwrap(),
        "#set heading(numbering: \"1.\")\n"
    );
    assert_eq!(
        generate_typst_index(Some(&paths), "/srv/wiki", "/srv/wiki/index.typ").unwrap(),
        "#set heading(numbering: \"1.\")\n#include(\"/a.typ\")\n#include(\"/b/c.typ\")\n"
    );
}

#[test]
fn registered_paths_are_distinct() {
    let markers = vec![Some(vp("/a.typ")), None, Some(vp("/b.typ")), Some(vp("/a.typ"))];
    let paths = collect_index_paths(&markers);
    let texts: Vec<&str> = paths.iter().map(|p| p.as_str()).collect();
    assert_eq!(texts, vec!["/a.typ", "/b.typ"]);
    let docs = collect_document_paths(&markers);
    assert_eq!(docs.len(), 2);
}

#[test]
fn registered_index_paths_are_collected() {
    let scope = typwiki::scope::WikiScope;
    let raws = ["notes/a.typ", "/b.typ", "/notes//a.typ", "c/../d.typ"];
    let markers: Vec<Option<VPath>> = raws.iter().map(|r| Some(scope.register_for_index(r).0)).collect();
    let paths = collect_index_paths(&markers);
    let texts: Vec<&str> = paths.iter().map(|p| p.as_str()).collect();
    assert_eq!(texts, vec!["/notes/a.typ", "/b.typ", "/d.typ"]);
}

#[test]
fn hidden_paths_stay_hidden_below() {
    assert!(path_is_hidden("/home/.cache"));
    assert!(path_is_hidden("/home/.cache/wiki/page.typ"));
    assert!(!path_is_hidden("/home/cache/wiki/page.typ"));
}

#[test]
fn events_lead_to_actions() {
    assert_eq!(
        actions_for_event(true),
        vec![
            WatchAction::Compile,
            WatchAction::WriteIndex,
            WatchAction::Reload,
            WatchAction::WatchDependencies,
            WatchAction::ResetFiles,
            WatchAction::DropQueued,
        ]
    );
    assert_eq!(
        actions_for_event(false),
        vec![
            WatchAction::Compile,
            WatchAction::Reload,
            WatchAction::WatchDependencies,
            WatchAction::ResetFiles,
            WatchAction::DropQueued,
        ]
    );
}
