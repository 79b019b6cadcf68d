//! Paths inside the wiki.
//!
//! A wiki path is what typst calls a virtual path: a normalized, absolute path
//! inside the project root, such as `/notes/intro.typ`. The library holds it
//! as its text with the leading slash; every operation on it is done by
//! typst's `VirtualPath`.
use vstd::prelude::*;
use typst::syntax::{PathError, VirtualPath};

verus! {

/// Why typst refuses a raw path string.
#[derive(Clone, Copy, Debug, PartialEq, Eq)]
pub enum PathFault {
    /// The path would leave the project root (for instance `/..`).
    Escapes,
    /// The path holds a backslash.
    Backslash,
}

/// What `VirtualPath::new` makes of a raw path string: the normalized text
/// with its leading slash, or the reason it is refused.
pub uninterp spec fn parse_virtual_path(raw: Seq<char>) -> Result<Seq<char>, PathFault>;

/// The index of the last slash in `t`, or -1 where it holds none.
pub open spec fn last_slash(t: Seq<char>) -> int
    decreases t.len(),
{
    if t.len() == 0 {
        -1
    } else if t.last() == '/' {
        t.len() - 1
    } else {
        last_slash(t.drop_last())
    }
}

/// The text of `VirtualPath::parent` of the path with the given text: `None`
/// for the root `/`, otherwise the text cut at its last slash, where a cut
/// at the leading slash leaves the root.
pub open spec fn parent_text(path: Seq<char>) -> Option<Seq<char>> {
    if path.len() <= 1 {
        None
    } else if last_slash(path) <= 0 {
        Some(root_text())
    } else {
        Some(path.take(last_slash(path)))
    }
}

/// The last slash lies inside the text.
pub proof fn lemma_last_slash_bound(t: Seq<char>)
    ensures
        -1 <= last_slash(t) < t.len(),
    decreases t.len(),
{
    if t.len() > 0 && t.last() != '/' {
        lemma_last_slash_bound(t.drop_last());
    }
}

/// A parent is never the path itself.
pub proof fn lemma_parent_differs(path: Seq<char>)
    requires
        parent_text(path) is Some,
    ensures
        parent_text(path)->0 != path,
{
    lemma_last_slash_bound(path);
    if last_slash(path) > 0 {
        assert(parent_text(path)->0.len() < path.len());
    } else {
        assert(root_text().len() < path.len());
    }
}

/// The text of `VirtualPath::join(rel)` of the path with the given text.
pub uninterp spec fn joined_text(base: Seq<char>, rel: Seq<char>) -> Result<Seq<char>, PathFault>;

/// The index of the last dot in `t`, or -1 where it holds none.
pub open spec fn last_dot(t: Seq<char>) -> int
    decreases t.len(),
{
    if t.len() == 0 {
        -1
    } else if t.last() == '.' {
        t.len() - 1
    } else {
        last_dot(t.drop_last())
    }
}

/// The stem of a file name, as `VirtualPath::file_stem` takes it: the name up
/// to its last dot, or the whole name where it has no dot or only a leading
/// one.
pub open spec fn file_stem_text(name: Seq<char>) -> Seq<char> {
    if last_dot(name) > 0 {
        name.take(last_dot(name))
    } else {
        name
    }
}

/// The text of `VirtualPath::with_extension(ext)` of the path with the given
/// text: the root stays as it is; otherwise the file name becomes its stem,
/// a dot and `ext`.
pub open spec fn text_with_extension(path: Seq<char>, ext: Seq<char>) -> Seq<char> {
    if path.len() <= 1 {
        path
    } else {
        path.take(last_slash(path) + 1) + file_stem_text(path.skip(last_slash(path) + 1)) + seq!['.'] + ext
    }
}

/// What `VirtualPath::relative_from(base)` gives for the paths with the given texts.
pub uninterp spec fn relative_text(path: Seq<char>, base: Seq<char>) -> Seq<char>;

/// A text that typst produces as a virtual path: it starts with a slash and
/// parsing it again gives it back unchanged.
pub open spec fn is_normal_text(t: Seq<char>) -> bool {
    &&& t.len() > 0
    &&& t[0] == '/'
    &&& parse_virtual_path(t) == Ok::<Seq<char>, PathFault>(t)
}

/// The text of the root path.
pub open spec fn root_text() -> Seq<char> {
    seq!['/']
}

/// Calls `VirtualPath::new` and hands back `VirtualPath::get_with_slash` of the
/// result, or the `PathError` variant told apart as a `PathFault`. Claimed:
/// the outcome is `parse_virtual_path` of the input, and an accepted path is a
/// text that starts with a slash and parses to itself (the source keeps its
/// `Segments` normalized and starting with a slash).
#[verifier::external_body]
fn virtual_path_new(raw: &str) -> (r: Result<String, PathFault>)
    ensures
        match r {
            Ok(s) => parse_virtual_path(raw@) == Ok::<Seq<char>, PathFault>(s@) && is_normal_text(s@),
            Err(e) => parse_virtual_path(raw@) == Err::<Seq<char>, PathFault>(e),
        },
{
    match VirtualPath::new(raw) {
        Ok(p) => Ok(p.get_with_slash().to_string()),
        Err(PathError::Escapes) => Err(PathFault::Escapes),
        Err(PathError::Backslash) => Err(PathFault::Backslash),
    }
}

/// Calls `VirtualPath::parent` on the path with the given text (rebuilt with
/// `VirtualPath::new`, which gives a normal text back unchanged). Claimed: the
/// result is `parent_text` (the source's `Segments::pop` fails on `/` and
/// otherwise truncates the text at its last slash, keeping at least the
/// leading one), and a parent is a normal text.
#[verifier::external_body]
fn virtual_path_parent(path: &VPath) -> (r: Option<String>)
    ensures
        match r {
            Some(s) => parent_text(path@) == Some(s@) && is_normal_text(s@),
            None => parent_text(path@) is None,
        },
{
    match VirtualPath::new(path.text.as_str()) {
        Ok(p) => match p.parent() {
            Some(q) => Some(q.get_with_slash().to_string()),
            None => None,
        },
        Err(_) => None,
    }
}

/// Calls `VirtualPath::join` on the path with the given text (rebuilt with
/// `VirtualPath::new`). Claimed: the result is `joined_text`, and an accepted
/// result is a normal text (the source normalizes the joined segments).
#[verifier::external_body]
fn virtual_path_join(base: &VPath, rel: &str) -> (r: Result<String, PathFault>)
    ensures
        match r {
            Ok(s) => joined_text(base@, rel@) == Ok::<Seq<char>, PathFault>(s@) && is_normal_text(s@),
            Err(e) => joined_text(base@, rel@) == Err::<Seq<char>, PathFault>(e),
        },
{
    let joined = match VirtualPath::new(base.text.as_str()) {
        Ok(p) => p.join(rel),
        Err(e) => Err(e),
    };
    match joined {
        Ok(p) => Ok(p.get_with_slash().to_string()),
        Err(PathError::Escapes) => Err(PathFault::Escapes),
        Err(PathError::Backslash) => Err(PathFault::Backslash),
    }
}

/// Calls `VirtualPath::with_extension` on the path with the given text
/// (rebuilt with `VirtualPath::new`). The source panics where the new file
/// name is not a valid segment: a slash or backslash in the extension does
/// that, and so does an empty one on a file whose stem is `.` (such as `..x`,
/// which would become `..`), so the extension must be non-empty and free of
/// slashes and backslashes. Claimed: the result is `text_with_extension` (the
/// source keeps the root as it is, and otherwise replaces the last segment by
/// `file_stem`, a dot and the extension, where `file_stem` splits the name at
/// its last dot unless that dot leads the name), and it is a normal text.
#[verifier::external_body]
fn virtual_path_with_extension(path: &VPath, ext: &str) -> (r: String)
    requires
        valid_extension(ext@),
    ensures
        r@ == text_with_extension(path@, ext@),
        is_normal_text(r@),
{
    match VirtualPath::new(path.text.as_str()) {
        Ok(p) => p.with_extension(ext).get_with_slash().to_string(),
        Err(_) => String::new(),
    }
}

/// Calls `VirtualPath::relative_from` on the paths with the given texts
/// (rebuilt with `VirtualPath::new`). Claimed: the result is `relative_text`;
/// it is empty exactly where the two paths are the same (the source emits a
/// segment or `..` at the first difference); and joining it to `base` gives
/// `path` back (the source skips the common segments, climbs with one `..`
/// per remaining segment of `base`, then names the remaining segments of
/// `path`, which `join` undoes step by step). The algorithm itself is not
/// restated.
#[verifier::external_body]
fn virtual_path_relative_from(path: &VPath, base: &VPath) -> (r: String)
    ensures
        r@ == relative_text(path@, base@),
        r@.len() == 0 <==> path@ == base@,
        joined_text(base@, r@) is Ok && joined_text(base@, r@)->Ok_0 == path@,
{
    match (VirtualPath::new(path.text.as_str()), VirtualPath::new(base.text.as_str())) {
        (Ok(p), Ok(b)) => p.relative_from(&b).to_string(),
        _ => String::new(),
    }
}

/// What `VirtualPath::realize(root)` gives for the path with the given text:
/// the file-system path under `root`, or `None` where a segment cannot be
/// realized there.
pub uninterp spec fn realized_text(path: Seq<char>, root: Seq<char>) -> Option<Seq<char>>;

/// Calls `VirtualPath::realize(root)` on the path (rebuilt with
/// `VirtualPath::new`) and hands back the file-system path as text (it is
/// built from the root and the path's segments, all of them text). Claimed:
/// the result is `realized_text`.
#[verifier::external_body]
fn virtual_path_realize(path: &VPath, root: &str) -> (r: Option<String>)
    ensures
        match r {
            Some(t) => realized_text(path@, root@) == Some(t@),
            None => realized_text(path@, root@) is None,
        },
{
    match VirtualPath::new(path.text.as_str()) {
        Ok(p) => match p.realize(std::path::Path::new(root)) {
            Ok(on_disk) => Some(on_disk.to_string_lossy().into_owned()),
            Err(_) => None,
        },
        Err(_) => None,
    }
}

/// An extension that `with_extension` takes without panicking.
pub open spec fn valid_extension(ext: Seq<char>) -> bool {
    &&& ext.len() > 0
    &&& forall|i: int| 0 <= i < ext.len() ==> ext[i] != '/' && ext[i] != '\\'
}

/// A path inside the wiki, held as its normalized text with a leading slash.
#[derive(Debug)]
pub struct VPath {
    text: String,
}

impl View for VPath {
    type V = Seq<char>;

    closed spec fn view(&self) -> Seq<char> {
        self.text@
    }
}

impl VPath {
    #[verifier::type_invariant]
    closed spec fn normal(&self) -> bool {
        is_normal_text(self.text@)
    }

    /// Parses a raw path string, as `VirtualPath::new` does.
    pub fn new(raw: &str) -> (r: Result<VPath, PathFault>)
        ensures
            match r {
                Ok(p) => parse_virtual_path(raw@) == Ok::<Seq<char>, PathFault>(p@),
                Err(e) => parse_virtual_path(raw@) == Err::<Seq<char>, PathFault>(e),
            },
    {
        match virtual_path_new(raw) {
            Ok(text) => Ok(VPath { text }),
            Err(e) => Err(e),
        }
    }

    /// The path with its leading slash, as `VirtualPath::get_with_slash`.
    pub fn as_str(&self) -> (r: &str)
        ensures
            r@ == self@,
    {
        self.text.as_str()
    }

    /// A copy of the path.
    pub fn duplicate(&self) -> (r: VPath)
        ensures
            r@ == self@,
    {
        proof {
            use_type_invariant(self);
        }
        VPath { text: self.text.clone() }
    }

    /// Whether two paths are the same.
    pub fn same_as(&self, other: &VPath) -> (r: bool)
        ensures
            r == (self@ == other@),
    {
        self.text == other.text
    }

    /// The path without its leading slash, as `VirtualPath::get_without_slash`.
    pub fn without_slash(&self) -> (r: String)
        ensures
            r@ == self@.drop_first(),
    {
        proof {
            use_type_invariant(self);
        }
        let n = self.text.as_str().unicode_len();
        let rest = self.text.as_str().substring_char(1, n);
        let r = rest.to_owned();
        assert(r@ =~= self@.drop_first());
        r
    }

    /// Whether this is the root path `/`.
    pub fn is_root(&self) -> (r: bool)
        ensures
            r == (self@ == root_text()),
    {
        let n = self.text.as_str().unicode_len();
        if n == 1 {
            let c = self.text.as_str().get_char(0);
            if c == '/' {
                assert(self@ =~= root_text());
                true
            } else {
                false
            }
        } else {
            false
        }
    }

    /// The path with its final segment removed, or `None` for the root.
    pub fn parent(&self) -> (r: Option<VPath>)
        ensures
            match r {
                Some(p) => parent_text(self@) == Some(p@),
                None => parent_text(self@) is None,
            },
            r is None <==> self@ == root_text(),
    {
        proof {
            use_type_invariant(self);
            if self@.len() <= 1 {
                assert(self@ =~= root_text());
            }
        }
        match virtual_path_parent(self) {
            Some(text) => Some(VPath { text }),
            None => None,
        }
    }

    /// Joins a relative path to this one, as `VirtualPath::join`.
    pub fn join(&self, rel: &str) -> (r: Result<VPath, PathFault>)
        ensures
            match r {
                Ok(p) => joined_text(self@, rel@) == Ok::<Seq<char>, PathFault>(p@),
                Err(e) => joined_text(self@, rel@) == Err::<Seq<char>, PathFault>(e),
            },
    {
        match virtual_path_join(self, rel) {
            Ok(text) => Ok(VPath { text }),
            Err(e) => Err(e),
        }
    }

    /// The path with its extension replaced, as `VirtualPath::with_extension`.
    pub fn with_extension(&self, ext: &str) -> (r: VPath)
        requires
            valid_extension(ext@),
        ensures
            r@ == text_with_extension(self@, ext@),
    {
        VPath { text: virtual_path_with_extension(self, ext) }
    }

    /// Where this path lies on disk under the directory `root`, as
    /// `VirtualPath::realize`.
    pub fn realize(&self, root: &str) -> (r: Option<String>)
        ensures
            match r {
                Some(t) => realized_text(self@, root@) == Some(t@),
                None => realized_text(self@, root@) is None,
            },
    {
        virtual_path_realize(self, root)
    }

    /// This path expressed relative to `base`, as `VirtualPath::relative_from`:
    /// empty only for `base` itself, and joined to `base` it leads back here.
    pub fn relative_from(&self, base: &VPath) -> (r: String)
        ensures
            r@ == relative_text(self@, base@),
            r@.len() == 0 <==> self@ == base@,
            joined_text(base@, r@) == Ok::<Seq<char>, PathFault>(self@),
    {
        virtual_path_relative_from(self, base)
    }
}

/// The link text for a relative path: `.` stands for an empty relative path
/// that leads to another path than the page itself.
pub open spec fn link_text(relative: Seq<char>, same_path: bool) -> Seq<char> {
    if relative.len() == 0 && !same_path {
        seq!['.']
    } else {
        relative
    }
}

/// What `relative_from_parent` gives: the path relative to the directory that
/// holds `base`, or `.` where that is empty and the path is not `base` itself.
pub open spec fn relative_link(path: Seq<char>, base: Seq<char>) -> Seq<char> {
    link_text(relative_text(path, parent_text(base)->0), path == base)
}

/// Turns a relative path into a link: `.` where it is empty and does not lead
/// to the page itself, the relative path otherwise.
pub fn link_or_dot(relative: String, same_path: bool) -> (r: String)
    ensures
        r@ == link_text(relative@, same_path),
{
    if relative.as_str().unicode_len() == 0 && !same_path {
        let dot = ".";
        proof {
            reveal_strlit(".");
        }
        let r = dot.to_owned();
        assert(r@ =~= seq!['.']);
        r
    } else {
        relative
    }
}

/// Expresses `path` relative to the directory of `base`: the link that leads
/// from the page `base` to `path`. The root has no directory, so `base` must
/// not be the root. The link to another path is never empty, and resolving
/// it against the directory of `base` gives `path` back, where `.` stands for
/// that directory itself.
pub fn relative_from_parent(path: &VPath, base: &VPath) -> (r: String)
    requires
        base@ != root_text(),
    ensures
        r@ == relative_link(path@, base@),
        path@ != base@ ==> r@.len() > 0,
        (r@ == seq!['.'] && path@ == parent_text(base@)->0)
            || joined_text(parent_text(base@)->0, r@) == Ok::<Seq<char>, PathFault>(path@),
{
    let parent = match base.parent() {
        Some(p) => p,
        None => {
            assert(false);
            return String::new();
        },
    };
    let relative = path.relative_from(&parent);
    proof {
        lemma_parent_differs(base@);
    }
    link_or_dot(relative, path.same_as(base))
}

} // verus!
