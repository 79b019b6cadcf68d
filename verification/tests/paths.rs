use typwiki::vpath::{relative_from_parent, PathFault, VPath};

#[test]
fn parses_and_normalizes_paths() {
    let p = VPath::new("a//b/../c.typ").unwrap();
    assert_eq!(p.as_str(), "/a/c.typ");
    assert_eq!(p.without_slash(), "a/c.typ");
}

#[test]
fn refuses_escaping_and_backslash_paths() {
    assert_eq!(VPath::new("/..").unwrap_err(), PathFault::Escapes);
    assert_eq!(VPath::new("/a\\b").unwrap_err(), PathFault::Backslash);
}

#[test]
fn relative_links_between_pages() {
    let page = VPath::new("/a/b.html").unwrap();
    let base = VPath::new("/a/c.typ").unwrap();
    assert_eq!(relative_from_parent(&page, &base), "b.html");
    let dir = VPath::new("/a").unwrap();
    assert_eq!(relative_from_parent(&dir, &base), ".");
}

#[test]
fn parents_joins_and_extensions() {
    let p = VPath::new("/notes/intro.typ").unwrap();
    assert_eq!(p.parent().unwrap().as_str(), "/notes");
    assert!(VPath::new("/").unwrap().parent().is_none());
    assert!(VPath::new("/").unwrap().is_root());
    assert!(!p.is_root());
    assert_eq!(p.join("index.html").unwrap().as_str(), "/notes/intro.typ/index.html");
    assert_eq!(VPath::new("/").unwrap().join("..").unwrap_err(), PathFault::Escapes);
    assert_eq!(p.with_extension("html").as_str(), "/notes/intro.html");
    assert!(p.same_as(&p.duplicate()));
    assert!(!p.same_as(&VPath::new("/notes").unwrap()));
}

#[test]
fn relative_from_walks_up_and_down() {
    let a = VPath::new("/a/b/c.html").unwrap();
    let base = VPath::new("/a/d").unwrap();
    assert_eq!(a.relative_from(&base), "../b/c.html");
    let page = VPath::new("/x/y.html").unwrap();
    let main = VPath::new("/a/b/main.typ").unwrap();
    assert_eq!(relative_from_parent(&page, &main), "../../x/y.html");
}

#[test]
fn realizes_under_a_root() {
    let p = VPath::new("/notes/a.typ").unwrap();
    assert_eq!(p.realize("/srv/wiki").unwrap(), "/srv/wiki/notes/a.typ");
}

#[test]
fn empty_relative_paths_become_dots() {
    assert_eq!(typwiki::vpath::link_or_dot(String::new(), false), ".");
    assert_eq!(typwiki::vpath::link_or_dot(String::new(), true), "");
    assert_eq!(typwiki::vpath::link_or_dot("a.html".to_string(), false), "a.html");
}

#[test]
fn links_resolve_back_from_the_directory() {
    let base = VPath::new("/notes/deep/main.typ").unwrap();
    let dir = base.parent().unwrap();
    for target in ["/notes/deep/other.html", "/notes/x.png", "/img/a/b.png", "/notes/deep/sub/c.typ", "/"] {
        let path = VPath::new(target).unwrap();
        let link = relative_from_parent(&path, &base);
        assert!(!link.is_empty());
        assert_eq!(dir.join(&link).unwrap().as_str(), target);
    }
    let link = relative_from_parent(&dir, &base);
    assert_eq!(link, ".");
    let same = relative_from_parent(&base, &base);
    assert_eq!(same, "main.typ");
    assert_eq!(dir.join(&same).unwrap().as_str(), "/notes/deep/main.typ");
}

#[test]
fn relative_from_is_empty_only_for_the_same_path() {
    let a = VPath::new("/a/b").unwrap();
    assert_eq!(a.relative_from(&a), "");
    let up = VPath::new("/a").unwrap();
    assert_eq!(a.relative_from(&up), "b");
    assert_eq!(up.relative_from(&a), "..");
    assert_eq!(a.join(&up.relative_from(&a)).unwrap().as_str(), "/a");
}

#[test]
fn extensions_replace_the_last_suffix() {
    let html = |p: &str| VPath::new(p).unwrap().with_extension("html").as_str().to_string();
    assert_eq!(html("/a/b.typ"), "/a/b.html");
    assert_eq!(html("/a/b.c.typ"), "/a/b.c.html");
    assert_eq!(html("/a/.hidden"), "/a/.hidden.html");
    assert_eq!(html("/plain"), "/plain.html");
    assert_eq!(html("/"), "/");
}
