//! The `wiki` object that pages see, and the decisions behind its functions.
use vstd::prelude::*;
use vstd::string::StringExecFns;
use crate::diag::concat3;
use crate::vpath::{parse_virtual_path, relative_from_parent, relative_link, root_text, PathFault, VPath};

verus! {

/// The scope that pages reach as `wiki`.
#[derive(Clone, Copy, Debug, PartialEq, Eq)]
pub struct WikiScope;

/// Marks the elements that a query searches across the whole wiki instead of
/// the current document.
#[derive(Clone, Copy, Debug, PartialEq, Eq)]
pub struct GlobalIndicator;

/// A path that a page registered for the index file.
#[derive(Debug)]
pub struct IndexMarker(pub VPath);

/// The message for a label that no document defines.
pub open spec fn missing_label_message(label: Seq<char>) -> Seq<char> {
    "label `<"@ + label + ">` does not exist in the wiki"@
}

/// The message for a label that several places define.
pub open spec fn repeated_label_message(label: Seq<char>) -> Seq<char> {
    "label `<"@ + label + ">` occurs multiple times in the wiki"@
}

/// The element that a label names: the only element found with it.
pub open spec fn unique_result<T>(found: Seq<T>, label: Seq<char>, r: Result<T, String>) -> bool {
    if found.len() == 0 {
        r matches Err(m) && m@ == missing_label_message(label)
    } else if found.len() > 1 {
        r matches Err(m) && m@ == repeated_label_message(label)
    } else {
        r == Ok::<T, String>(found[0])
    }
}

/// The file a path is resolved against: the file that holds the call, where
/// typst knows it.
pub fn containing_file<F>(file: Option<F>) -> (r: Result<F, String>)
    ensures
        match file {
            Some(f) => r == Ok::<F, String>(f),
            None => r matches Err(m) && m@ == "the containing file is unknown"@,
        },
{
    match file {
        Some(f) => Ok(f),
        None => Err(String::from_str("the containing file is unknown")),
    }
}

/// A page may read assets only from under the root of the main file.
pub fn check_asset_root(same_root: bool) -> (r: Result<(), String>)
    ensures
        same_root ==> r is Ok,
        !same_root ==> (r matches Err(m) && m@ == "including resources from outside the main root is not supported"@),
{
    if same_root {
        Ok(())
    } else {
        Err(String::from_str("including resources from outside the main root is not supported"))
    }
}

impl WikiScope {
    /// How the scope shows itself.
    pub fn repr(&self) -> (r: String)
        ensures
            r@ == "wiki"@,
    {
        String::from_str("wiki")
    }

    /// Picks the element that `label` names from what a query of the whole
    /// wiki found: it must be found exactly once.
    pub fn query_label<T>(&self, found: Vec<T>, label: &str) -> (r: Result<T, String>)
        ensures
            unique_result(found@, label@, r),
    {
        let mut found = found;
        let ghost all = found@;
        match found.pop() {
            None => Err(concat3("label `<", label, ">` does not exist in the wiki")),
            Some(last) => {
                if found.len() > 0 {
                    Err(concat3("label `<", label, ">` occurs multiple times in the wiki"))
                } else {
                    assert(all[0] == last);
                    Ok(last)
                }
            },
        }
    }

    /// The link from the page at `base` to `path`, as `relative_from_parent`
    /// gives it. Both must be valid paths, and `base` must not be the root.
    pub fn make_relative(&self, path: &str, base: &str) -> (r: String)
        requires
            parse_virtual_path(path@) is Ok,
            parse_virtual_path(base@) is Ok,
            parse_virtual_path(base@)->Ok_0 != root_text(),
        ensures
            r@ == relative_link(parse_virtual_path(path@)->Ok_0, parse_virtual_path(base@)->Ok_0),
    {
        let p = VPath::new(path).unwrap();
        let b = VPath::new(base).unwrap();
        relative_from_parent(&p, &b)
    }

    /// `make_relative` where the inputs allow it: `None` when either path is
    /// invalid or `base` is the root.
    pub fn try_make_relative(&self, path: &str, base: &str) -> (r: Option<String>)
        ensures
            match r {
                Some(s) => {
                    &&& parse_virtual_path(path@) is Ok
                    &&& parse_virtual_path(base@) is Ok
                    &&& parse_virtual_path(base@)->Ok_0 != root_text()
                    &&& s@ == relative_link(parse_virtual_path(path@)->Ok_0, parse_virtual_path(base@)->Ok_0)
                },
                None => parse_virtual_path(path@) is Err || parse_virtual_path(base@) is Err
                    || parse_virtual_path(base@) == Ok::<Seq<char>, PathFault>(root_text()),
            },
    {
        if VPath::new(path).is_err() {
            return None;
        }
        let b = match VPath::new(base) {
            Ok(b) => b,
            Err(_) => {
                return None;
            },
        };
        if b.is_root() {
            return None;
        }
        Some(self.make_relative(path, base))
    }

    /// The marker that registers `path` for the index file; `path` must be a
    /// valid path.
    pub fn register_for_index(&self, path: &str) -> (r: IndexMarker)
        requires
            parse_virtual_path(path@) is Ok,
        ensures
            parse_virtual_path(path@) == Ok::<Seq<char>, PathFault>(r.0@),
    {
        IndexMarker(VPath::new(path).unwrap())
    }

    /// `register_for_index` where the path is valid, `None` otherwise.
    pub fn try_register_for_index(&self, path: &str) -> (r: Option<IndexMarker>)
        ensures
            match r {
                Some(m) => parse_virtual_path(path@) == Ok::<Seq<char>, PathFault>(m.0@),
                None => parse_virtual_path(path@) is Err,
            },
    {
        match VPath::new(path) {
            Ok(_) => Some(self.register_for_index(path)),
            Err(_) => None,
        }
    }
}

impl IndexMarker {
    /// How the marker shows itself: `index-marker("<path>")`.
    pub fn repr(&self) -> (r: String)
        ensures
            r@ == "index-marker("@ + crate::sources::repr_text(self.0@) + ")"@,
    {
        concat3("index-marker(", crate::sources::repr_of(self.0.as_str()).as_str(), ")")
    }
}

} // verus!
