//! Finding the wiki's sources and writing the generated typst files: the
//! source that includes every page, and the index file for editors.
use vstd::prelude::*;
use vstd::string::StringExecFns;
use typst::foundations::Repr;
use crate::vpath::{is_normal_text, realized_text, VPath};

verus! {

/// The segments that `std::path::Path::iter` yields for a path.
pub uninterp spec fn path_segments(path: Seq<char>) -> Seq<Seq<char>>;

/// The extension that `std::path::Path::extension` finds in a path.
pub uninterp spec fn path_extension(path: Seq<char>) -> Option<Seq<char>>;

/// The parent that `std::path::Path::parent` gives for a path.
pub uninterp spec fn path_parent(path: Seq<char>) -> Option<Seq<char>>;

/// What `VirtualPath::virtualize(root, path)` gives, as text with a leading slash.
pub uninterp spec fn virtualized_text(root: Seq<char>, path: Seq<char>) -> Option<Seq<char>>;

/// The typst literal for a string, as `Repr::repr` writes it.
pub uninterp spec fn repr_text(s: Seq<char>) -> Seq<char>;

/// Calls `std::path::Path::iter` on the path and hands back each segment as
/// text. Claimed: the result is `path_segments` of the path.
#[verifier::external_body]
fn segments_of(path: &str) -> (r: Vec<String>)
    ensures
        r@.map_values(|s: String| s@) == path_segments(path@),
{
    std::path::Path::new(path).iter().map(|s| s.to_string_lossy().into_owned()).collect()
}

/// Calls `std::path::Path::extension`. Claimed: the result is
/// `path_extension` of the path.
#[verifier::external_body]
fn extension_of(path: &str) -> (r: Option<String>)
    ensures
        match r {
            Some(e) => path_extension(path@) == Some(e@),
            None => path_extension(path@) is None,
        },
{
    match std::path::Path::new(path).extension() {
        Some(e) => Some(e.to_string_lossy().into_owned()),
        None => None,
    }
}

/// Calls `std::path::Path::parent`. Claimed: the result is `path_parent` of
/// the path.
#[verifier::external_body]
fn parent_of(path: &str) -> (r: Option<String>)
    ensures
        match r {
            Some(p) => path_parent(path@) == Some(p@),
            None => path_parent(path@) is None,
        },
{
    match std::path::Path::new(path).parent() {
        Some(p) => Some(p.to_string_lossy().into_owned()),
        None => None,
    }
}

/// Calls `VirtualPath::virtualize(root, path)` and hands back the virtual path
/// with its leading slash. Claimed: the result is `virtualized_text`, and an
/// accepted path is a normal text (the source builds it from `Segments`).
#[verifier::external_body]
fn virtualize(root: &str, path: &str) -> (r: Option<String>)
    ensures
        match r {
            Some(t) => virtualized_text(root@, path@) == Some(t@) && is_normal_text(t@),
            None => virtualized_text(root@, path@) is None,
        },
{
    match typst::syntax::VirtualPath::virtualize(std::path::Path::new(root), std::path::Path::new(path)) {
        Ok(p) => Some(p.get_with_slash().to_string()),
        Err(_) => None,
    }
}

/// Calls `Repr::repr` on a string. Claimed: the result is `repr_text`.
#[verifier::external_body]
pub(crate) fn repr_of(s: &str) -> (r: String)
    ensures
        r@ == repr_text(s@),
{
    s.repr().to_string()
}

/// A name that starts with a dot, which hides it.
pub open spec fn starts_with_dot(s: Seq<char>) -> bool {
    s.len() > 0 && s[0] == '.'
}

/// Whether some segment starts with a dot.
pub fn has_hidden_segment(segments: &Vec<String>) -> (r: bool)
    ensures
        r == exists|i: int| 0 <= i < segments@.len() && starts_with_dot(#[trigger] segments@[i]@),
{
    let mut i: usize = 0;
    while i < segments.len()
        invariant
            i <= segments@.len(),
            forall|j: int| 0 <= j < i ==> !starts_with_dot(#[trigger] segments@[j]@),
        decreases segments@.len() - i,
    {
        let s = segments[i].as_str();
        if s.unicode_len() > 0 && s.get_char(0) == '.' {
            assert(starts_with_dot(segments@[i as int]@));
            return true;
        }
        i = i + 1;
    }
    false
}

/// Whether a file-system path is hidden: some segment of it starts with a dot.
pub fn path_is_hidden(path: &str) -> (r: bool)
    ensures
        r == exists|i: int| 0 <= i < path_segments(path@).len() && starts_with_dot(#[trigger] path_segments(path@)[i]),
{
    let segments = segments_of(path);
    let r = has_hidden_segment(&segments);
    proof {
        let views = segments@.map_values(|s: String| s@);
        if r {
            let i = choose|i: int| 0 <= i < segments@.len() && starts_with_dot(#[trigger] segments@[i]@);
            assert(views[i] == segments@[i]@);
        } else {
            assert forall|i: int| 0 <= i < path_segments(path@).len() implies !starts_with_dot(#[trigger] path_segments(path@)[i]) by {
                assert(views[i] == segments@[i]@);
            }
        }
    }
    r
}

/// A file that belongs to the wiki: a `.typ` file that is not hidden.
pub open spec fn is_wiki_source_spec(path: Seq<char>, is_file: bool) -> bool {
    &&& path_extension(path) == Some("typ"@)
    &&& is_file
    &&& !(exists|i: int| 0 <= i < path_segments(path).len() && starts_with_dot(#[trigger] path_segments(path)[i]))
}

/// Whether a file found under the wiki's root is one of its sources.
pub fn is_wiki_source(path: &str, is_file: bool) -> (r: bool)
    ensures
        r == is_wiki_source_spec(path@, is_file),
{
    let typ = String::from_str("typ");
    let ext_ok = match extension_of(path) {
        Some(e) => e == typ,
        None => false,
    };
    ext_ok && is_file && !path_is_hidden(path)
}

/// The wiki path of a file found under `root`, if the file is one of the
/// wiki's sources and lies inside the root.
pub fn source_path(root: &str, path: &str, is_file: bool) -> (r: Option<VPath>)
    ensures
        match r {
            Some(p) => is_wiki_source_spec(path@, is_file) && virtualized_text(root@, path@) == Some(p@),
            None => !is_wiki_source_spec(path@, is_file) || virtualized_text(root@, path@) is None,
        },
{
    if !is_wiki_source(path, is_file) {
        return None;
    }
    match virtualize(root, path) {
        Some(text) => {
            let r = VPath::new(text.as_str());
            match r {
                Ok(p) => {
                    assert(p@ == text@);
                    Some(p)
                },
                Err(_) => {
                    assert(false);
                    None
                },
            }
        },
        None => None,
    }
}

/// The lines `#include "<path>"` for each path, one per line.
pub open spec fn include_lines(paths: Seq<Seq<char>>) -> Seq<char>
    decreases paths.len(),
{
    if paths.len() == 0 {
        Seq::empty()
    } else {
        include_lines(paths.drop_last()) + "#include "@ + repr_text(paths.last()) + "\n"@
    }
}

/// The typst source that includes every page of the wiki: the entry point
/// from which the whole wiki is compiled.
pub fn auto_include_source(paths: &Vec<VPath>) -> (r: String)
    ensures
        r@ == include_lines(paths@.map_values(|p: VPath| p@)),
{
    let ghost views = paths@.map_values(|p: VPath| p@);
    let mut r = String::new();
    let mut i: usize = 0;
    while i < paths.len()
        invariant
            i <= paths@.len(),
            views == paths@.map_values(|p: VPath| p@),
            r@ == include_lines(views.take(i as int)),
        decreases paths@.len() - i,
    {
        let repr = repr_of(paths[i].as_str());
        r.append("#include ");
        r.append(repr.as_str());
        r.append("\n");
        proof {
            assert(views.take(i + 1).drop_last() =~= views.take(i as int));
            assert(views.take(i + 1).last() == paths@[i as int]@);
        }
        i = i + 1;
    }
    proof {
        assert(views.take(paths@.len() as int) =~= views);
    }
    r
}

/// The distinct paths that were registered for the index, in the order they
/// were first registered; `None` marks metadata that is no index marker.
pub open spec fn registered_paths(markers: Seq<Option<VPath>>) -> Seq<Seq<char>>
    decreases markers.len(),
{
    if markers.len() == 0 {
        Seq::empty()
    } else {
        let r = registered_paths(markers.drop_last());
        match markers.last() {
            Some(p) => if r.contains(p@) {
                r
            } else {
                r.push(p@)
            },
            None => r,
        }
    }
}

/// Whether `k` is among `paths`.
fn contains_path(paths: &Vec<VPath>, k: &VPath) -> (r: bool)
    ensures
        r == paths@.map_values(|p: VPath| p@).contains(k@),
{
    let ghost views = paths@.map_values(|p: VPath| p@);
    let mut i: usize = 0;
    while i < paths.len()
        invariant
            i <= paths@.len(),
            views == paths@.map_values(|p: VPath| p@),
            forall|j: int| 0 <= j < i ==> views[j] != k@,
        decreases paths@.len() - i,
    {
        if paths[i].same_as(k) {
            assert(views[i as int] == k@);
            return true;
        }
        i = i + 1;
    }
    false
}

/// The paths of the documents found in the wiki, each once; `None` marks a
/// document that does not lie in the project.
pub fn collect_document_paths(found: &Vec<Option<VPath>>) -> (r: Vec<VPath>)
    ensures
        r@.map_values(|p: VPath| p@) == registered_paths(found@),
{
    collect_index_paths(found)
}

/// The paths that pages registered for the index, each once, from the
/// metadata found in the wiki.
pub fn collect_index_paths(markers: &Vec<Option<VPath>>) -> (r: Vec<VPath>)
    ensures
        r@.map_values(|p: VPath| p@) == registered_paths(markers@),
{
    let mut r: Vec<VPath> = Vec::new();
    let mut i: usize = 0;
    while i < markers.len()
        invariant
            i <= markers@.len(),
            r@.map_values(|p: VPath| p@) == registered_paths(markers@.take(i as int)),
        decreases markers@.len() - i,
    {
        proof {
            assert(markers@.take(i + 1).drop_last() =~= markers@.take(i as int));
            assert(markers@.take(i + 1).last() == markers@[i as int]);
        }
        match &markers[i] {
            Some(p) => {
                if !contains_path(&r, p) {
                    r.push(p.duplicate());
                    proof {
                        assert(r@.map_values(|p: VPath| p@) =~= registered_paths(markers@.take(i + 1)));
                    }
                }
            },
            None => {},
        }
        i = i + 1;
    }
    proof {
        assert(markers@.take(markers@.len() as int) =~= markers@);
    }
    r
}

/// The lines that include each path, each after a line break.
pub open spec fn index_lines(paths: Seq<Seq<char>>) -> Seq<char>
    decreases paths.len(),
{
    if paths.len() == 0 {
        Seq::empty()
    } else {
        index_lines(paths.drop_last()) + "\n#include("@ + repr_text(paths.last()) + ")"@
    }
}

/// The header of the index file.
pub open spec fn index_header() -> Seq<char> {
    "#set heading(numbering: \"1.\")"@
}

/// The index file: a header line, an include line per path, and a final
/// line break.
pub open spec fn index_text(paths: Seq<Seq<char>>) -> Seq<char> {
    index_header() + index_lines(paths) + "\n"@
}

/// The text of the index file that includes the given paths.
pub fn index_content(paths: &Vec<VPath>) -> (r: String)
    ensures
        r@ == index_text(paths@.map_values(|p: VPath| p@)),
{
    let ghost views = paths@.map_values(|p: VPath| p@);
    let mut r = String::from_str("#set heading(numbering: \"1.\")");
    let mut i: usize = 0;
    while i < paths.len()
        invariant
            i <= paths@.len(),
            views == paths@.map_values(|p: VPath| p@),
            r@ == index_header() + index_lines(views.take(i as int)),
        decreases paths@.len() - i,
    {
        let repr = repr_of(paths[i].as_str());
        r.append("\n#include(");
        r.append(repr.as_str());
        r.append(")");
        proof {
            assert(views.take(i + 1).drop_last() =~= views.take(i as int));
            assert(views.take(i + 1).last() == paths@[i as int]@);
            assert(r@ =~= index_header() + index_lines(views.take(i + 1)));
        }
        i = i + 1;
    }
    proof {
        assert(views.take(paths@.len() as int) =~= views);
    }
    r.append("\n");
    r
}

/// Where an index path points when it is read from the index file's
/// directory: the file under `root`, expressed inside `index_dir`.
pub open spec fn relocated(path: Seq<char>, root: Seq<char>, index_dir: Seq<char>) -> Option<Seq<char>> {
    match realized_text(path, root) {
        Some(on_disk) => virtualized_text(index_dir, on_disk),
        None => None,
    }
}

/// The paths that still lie inside `index_dir` once realized under `root`,
/// expressed from there, in order.
pub open spec fn relocated_all(paths: Seq<Seq<char>>, root: Seq<char>, index_dir: Seq<char>) -> Seq<Seq<char>>
    decreases paths.len(),
{
    if paths.len() == 0 {
        Seq::empty()
    } else {
        let r = relocated_all(paths.drop_last(), root, index_dir);
        match relocated(paths.last(), root, index_dir) {
            Some(q) => r.push(q),
            None => r,
        }
    }
}

/// The directory of the index file: its parent, or `..` where it has none.
pub open spec fn index_dir_of(index_path: Seq<char>) -> Seq<char> {
    match path_parent(index_path) {
        Some(p) => p,
        None => ".."@,
    }
}

/// The contents of the index file for editors, or `None` when there is no
/// compiled wiki. The registered paths are realized under the wiki's root and
/// included relative to the index file's directory; those that cannot be
/// expressed there are left out.
pub fn generate_typst_index(index_paths: Option<&Vec<VPath>>, root: &str, index_path: &str) -> (r: Option<String>)
    ensures
        match index_paths {
            None => r is None,
            Some(ps) => r matches Some(text) && text@ == index_text(
                relocated_all(ps@.map_values(|p: VPath| p@), root@, index_dir_of(index_path@)),
            ),
        },
{
    let paths = match index_paths {
        Some(ps) => ps,
        None => {
            return None;
        },
    };
    let dir = match parent_of(index_path) {
        Some(p) => p,
        None => String::from_str(".."),
    };
    let ghost views = paths@.map_values(|p: VPath| p@);
    let mut kept: Vec<VPath> = Vec::new();
    let mut i: usize = 0;
    while i < paths.len()
        invariant
            i <= paths@.len(),
            views == paths@.map_values(|p: VPath| p@),
            dir@ == index_dir_of(index_path@),
            kept@.map_values(|p: VPath| p@) == relocated_all(views.take(i as int), root@, dir@),
        decreases paths@.len() - i,
    {
        proof {
            assert(views.take(i + 1).drop_last() =~= views.take(i as int));
            assert(views.take(i + 1).last() == paths@[i as int]@);
        }
        match paths[i].realize(root) {
            Some(on_disk) => {
                match virtualize(dir.as_str(), on_disk.as_str()) {
                    Some(text) => {
                        match VPath::new(text.as_str()) {
                            Ok(q) => {
                                kept.push(q);
                                proof {
                                    assert(kept@.map_values(|p: VPath| p@) =~= relocated_all(views.take(i + 1), root@, dir@));
                                }
                            },
                            Err(_) => {
                                assert(false);
                            },
                        }
                    },
                    None => {},
                }
            },
            None => {},
        }
        i = i + 1;
    }
    proof {
        assert(views.take(paths@.len() as int) =~= views);
    }
    Some(index_content(&kept))
}

} // verus!
