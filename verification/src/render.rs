//! The wiki as a list of pages that are rendered one by one, each into its own
//! HTML document.
use vstd::prelude::*;
use vstd::string::StringExecFns;
use crate::diag::concat3;
use crate::scope::{missing_label_message, repeated_label_message};
use crate::vpath::{relative_from_parent, relative_link, root_text, text_with_extension, VPath};

verus! {

/// A rendered page: its source path, the anchor names of its labelled
/// elements (by element location), and the document `D` typst made of it.
#[derive(Debug)]
pub struct Page<D> {
    pub path: VPath,
    pub anchors: Vec<(u128, String)>,
    pub document: D,
}

/// An entry of the wiki: a page still to render, a rendered page, or the
/// errors `G` of a page that failed.
#[derive(Debug)]
pub enum WikiEntry<D, G> {
    Empty(VPath),
    Rendered(Page<D>),
    Error(Vec<G>),
}

/// A value with the warnings that came with it.
#[derive(Debug)]
pub struct Warned<T, G> {
    pub output: T,
    pub warnings: Vec<G>,
}

/// The wiki: one entry per page.
#[derive(Debug)]
pub struct Wiki<D, G>(pub Vec<Warned<WikiEntry<D, G>, G>>);

/// The pages that have been rendered, in order.
pub open spec fn rendered_pages<D, G>(entries: Seq<Warned<WikiEntry<D, G>, G>>) -> Seq<Page<D>>
    decreases entries.len(),
{
    if entries.len() == 0 {
        Seq::empty()
    } else {
        let r = rendered_pages(entries.drop_last());
        match entries.last().output {
            WikiEntry::Rendered(page) => r.push(page),
            _ => r,
        }
    }
}

/// All diagnostics: for each entry its warnings, then its errors.
pub open spec fn all_diagnostics<D, G>(entries: Seq<Warned<WikiEntry<D, G>, G>>) -> Seq<G>
    decreases entries.len(),
{
    if entries.len() == 0 {
        Seq::empty()
    } else {
        let r = all_diagnostics(entries.drop_last()) + entries.last().warnings@;
        match entries.last().output {
            WikiEntry::Error(errors) => r + errors@,
            _ => r,
        }
    }
}

/// The paths to render: those of the entries still to render and of the
/// rendered pages, in order.
pub open spec fn targets<D, G>(entries: Seq<Warned<WikiEntry<D, G>, G>>) -> Seq<Seq<char>>
    decreases entries.len(),
{
    if entries.len() == 0 {
        Seq::empty()
    } else {
        let r = targets(entries.drop_last());
        match entries.last().output {
            WikiEntry::Empty(p) => r.push(p@),
            WikiEntry::Rendered(page) => r.push(page.path@),
            WikiEntry::Error(_) => r,
        }
    }
}

/// The entries of the pages that failed, in order.
pub open spec fn failed_entries<D, G>(entries: Seq<Warned<WikiEntry<D, G>, G>>) -> Seq<Warned<WikiEntry<D, G>, G>>
    decreases entries.len(),
{
    if entries.len() == 0 {
        Seq::empty()
    } else {
        let r = failed_entries(entries.drop_last());
        match entries.last().output {
            WikiEntry::Error(_) => r.push(entries.last()),
            _ => r,
        }
    }
}

/// The entry that a render outcome becomes.
pub open spec fn outcome_entry<D, G>(o: Warned<Result<Page<D>, Vec<G>>, G>) -> Warned<WikiEntry<D, G>, G> {
    Warned {
        output: match o.output {
            Ok(page) => WikiEntry::Rendered(page),
            Err(errors) => WikiEntry::Error(errors),
        },
        warnings: o.warnings,
    }
}

/// The entries of the rebuilt wiki: the failed entries, then one entry per
/// render outcome.
pub open spec fn rebuilt_entries<D, G>(
    failed: Seq<Warned<WikiEntry<D, G>, G>>,
    outcomes: Seq<Warned<Result<Page<D>, Vec<G>>, G>>,
) -> Seq<Warned<WikiEntry<D, G>, G>> {
    failed + outcomes.map_values(|o: Warned<Result<Page<D>, Vec<G>>, G>| outcome_entry(o))
}

/// What a query found on the rendered pages, each element with the index of
/// the page it was found on: `found[j]` holds what was found on page `j`.
pub open spec fn found_on_pages<T>(found: Seq<Vec<T>>) -> Seq<(T, int)>
    decreases found.len(),
{
    if found.len() == 0 {
        Seq::empty()
    } else {
        found_on_pages(found.drop_last()) + found.last()@.map_values(|t: T| (t, found.len() - 1))
    }
}

/// The anchor name stored for an element location, the first one listed.
pub open spec fn anchor_for(anchors: Seq<(u128, String)>, loc: u128) -> Option<Seq<char>>
    decreases anchors.len(),
{
    if anchors.len() == 0 {
        None
    } else if anchors[0].0 == loc {
        Some(anchors[0].1@)
    } else {
        anchor_for(anchors.drop_first(), loc)
    }
}

/// The link from the main file to a page's HTML output.
pub open spec fn page_link_text(page_path: Seq<char>, main: Seq<char>) -> Seq<char> {
    relative_link(text_with_extension(page_path, "html"@), main)
}

impl<D, G> Wiki<D, G> {
    /// A wiki whose pages are all still to render.
    pub fn from_paths(paths: Vec<VPath>) -> (r: Wiki<D, G>)
        ensures
            r.0@.len() == paths@.len(),
            forall|i: int| 0 <= i < paths@.len() ==> {
                &&& (#[trigger] r.0@[i]).output matches WikiEntry::Empty(p) && p@ == paths@[i]@
                &&& r.0@[i].warnings@.len() == 0
            },
    {
        let mut entries: Vec<Warned<WikiEntry<D, G>, G>> = Vec::new();
        let mut rest = paths;
        let ghost all = rest@;
        let n = rest.len();
        let mut i: usize = 0;
        while i < n
            invariant
                n == all.len(),
                i <= n,
                rest@ == all.subrange(i as int, n as int),
                entries@.len() == i,
                forall|j: int| 0 <= j < i ==> {
                    &&& (#[trigger] entries@[j]).output matches WikiEntry::Empty(p) && p@ == all[j]@
                    &&& entries@[j].warnings@.len() == 0
                },
            decreases n - i,
        {
            let p = rest.remove(0);
            proof {
                assert(rest@ =~= all.subrange(i + 1, n as int));
            }
            entries.push(Warned { output: WikiEntry::Empty(p), warnings: Vec::new() });
            i = i + 1;
        }
        Wiki(entries)
    }

    /// The rendered pages, in order.
    pub fn pages(&self) -> (r: Vec<&Page<D>>)
        ensures
            r@.len() == rendered_pages(self.0@).len(),
            forall|i: int| 0 <= i < r@.len() ==> *r@[i] == rendered_pages(self.0@)[i],
    {
        let mut r: Vec<&Page<D>> = Vec::new();
        let mut i: usize = 0;
        while i < self.0.len()
            invariant
                i <= self.0@.len(),
                r@.len() == rendered_pages(self.0@.take(i as int)).len(),
                forall|j: int| 0 <= j < r@.len() ==> *r@[j] == rendered_pages(self.0@.take(i as int))[j],
            decreases self.0@.len() - i,
        {
            proof {
                assert(self.0@.take(i + 1).drop_last() =~= self.0@.take(i as int));
                assert(self.0@.take(i + 1).last() == self.0@[i as int]);
            }
            match &self.0[i].output {
                WikiEntry::Rendered(page) => {
                    r.push(page);
                },
                _ => {},
            }
            i = i + 1;
        }
        proof {
            assert(self.0@.take(self.0@.len() as int) =~= self.0@);
        }
        r
    }

    /// Pairs what a query found on each rendered page with that page:
    /// `found[j]` holds what the query found on the `j`-th rendered page.
    pub fn query<T>(&self, found: Vec<Vec<T>>) -> (r: Vec<(T, &Page<D>)>)
        requires
            found@.len() == rendered_pages(self.0@).len(),
        ensures
            r@.len() == found_on_pages(found@).len(),
            forall|i: int| 0 <= i < r@.len() ==> (#[trigger] r@[i]).0 == found_on_pages(found@)[i].0
                && *r@[i].1 == rendered_pages(self.0@)[found_on_pages(found@)[i].1],
    {
        let pages = self.pages();
        let ghost all = found@;
        let ghost rendered = rendered_pages(self.0@);
        let n = found.len();
        let mut rest = found;
        let mut r: Vec<(T, &Page<D>)> = Vec::new();
        let mut j: usize = 0;
        while j < n
            invariant
                n == all.len(),
                n == pages@.len(),
                n == rendered.len(),
                forall|i: int| 0 <= i < n ==> *pages@[i] == rendered[i],
                j <= n,
                rest@ == all.subrange(j as int, n as int),
                r@.len() == found_on_pages(all.take(j as int)).len(),
                forall|i: int| 0 <= i < r@.len() ==> (#[trigger] r@[i]).0 == found_on_pages(all.take(j as int))[i].0
                    && *r@[i].1 == rendered[found_on_pages(all.take(j as int))[i].1],
            decreases n - j,
        {
            let ghost before = found_on_pages(all.take(j as int));
            let mut items = rest.remove(0);
            proof {
                assert(rest@ =~= all.subrange(j + 1, n as int));
                assert(all.take(j + 1).drop_last() =~= all.take(j as int));
                assert(all.take(j + 1).last() == all[j as int]);
            }
            let ghost these = items@;
            let page = pages[j];
            let m = items.len();
            let mut k: usize = 0;
            while k < m
                invariant
                    m == these.len(),
                    k <= m,
                    items@ == these.subrange(k as int, m as int),
                    *page == rendered[j as int],
                    j < n,
                    r@.len() == before.len() + k,
                    forall|i: int| 0 <= i < before.len() ==> (#[trigger] r@[i]).0 == before[i].0
                        && *r@[i].1 == rendered[before[i].1],
                    forall|i: int| before.len() <= i < r@.len() ==> (#[trigger] r@[i]).0 == these[i - before.len()]
                        && *r@[i].1 == rendered[j as int],
                decreases m - k,
            {
                let t = items.remove(0);
                proof {
                    assert(items@ =~= these.subrange(k + 1, m as int));
                }
                r.push((t, page));
                k = k + 1;
            }
            proof {
                let after = found_on_pages(all.take(j + 1));
                assert(after == before + these.map_values(|t: T| (t, j as int)));
                assert forall|i: int| 0 <= i < r@.len() implies (#[trigger] r@[i]).0 == after[i].0
                    && *r@[i].1 == rendered[after[i].1] by {
                    if i >= before.len() {
                        assert(after[i] == (these[i - before.len()], j as int));
                    } else {
                        assert(after[i] == before[i]);
                    }
                }
            }
            j = j + 1;
        }
        proof {
            assert(all.take(n as int) =~= all);
        }
        r
    }

    /// Every diagnostic of the wiki: for each entry its warnings, then its
    /// errors.
    pub fn diagnostics(&self) -> (r: Vec<&G>)
        ensures
            r@.len() == all_diagnostics(self.0@).len(),
            forall|i: int| 0 <= i < r@.len() ==> *r@[i] == all_diagnostics(self.0@)[i],
    {
        let mut r: Vec<&G> = Vec::new();
        let mut i: usize = 0;
        while i < self.0.len()
            invariant
                i <= self.0@.len(),
                r@.len() == all_diagnostics(self.0@.take(i as int)).len(),
                forall|j: int| 0 <= j < r@.len() ==> *r@[j] == all_diagnostics(self.0@.take(i as int))[j],
            decreases self.0@.len() - i,
        {
            let ghost before = all_diagnostics(self.0@.take(i as int));
            proof {
                assert(self.0@.take(i + 1).drop_last() =~= self.0@.take(i as int));
                assert(self.0@.take(i + 1).last() == self.0@[i as int]);
            }
            let entry = &self.0[i];
            let mut k: usize = 0;
            while k < entry.warnings.len()
                invariant
                    k <= entry.warnings@.len(),
                    r@.len() == before.len() + k,
                    forall|j: int| 0 <= j < r@.len() ==> *r@[j] == (before + entry.warnings@)[j],
                decreases entry.warnings@.len() - k,
            {
                r.push(&entry.warnings[k]);
                k = k + 1;
            }
            let ghost warned = before + entry.warnings@;
            match &entry.output {
                WikiEntry::Error(errors) => {
                    let mut k: usize = 0;
                    while k < errors.len()
                        invariant
                            k <= errors@.len(),
                            r@.len() == warned.len() + k,
                            forall|j: int| 0 <= j < r@.len() ==> *r@[j] == (warned + errors@)[j],
                        decreases errors@.len() - k,
                    {
                        r.push(&errors[k]);
                        k = k + 1;
                    }
                },
                _ => {},
            }
            i = i + 1;
        }
        proof {
            assert(self.0@.take(self.0@.len() as int) =~= self.0@);
        }
        r
    }

    /// Whether some page is still to render.
    pub fn is_incomplete(&self) -> (r: bool)
        ensures
            r == exists|i: int| 0 <= i < self.0@.len() && (#[trigger] self.0@[i]).output is Empty,
    {
        let mut i: usize = 0;
        while i < self.0.len()
            invariant
                i <= self.0@.len(),
                forall|j: int| 0 <= j < i ==> !((#[trigger] self.0@[j]).output is Empty),
            decreases self.0@.len() - i,
        {
            if let WikiEntry::Empty(_) = &self.0[i].output {
                return true;
            }
            i = i + 1;
        }
        false
    }

    /// Picks the element that `label` names from what a query of the rendered
    /// pages found. Where nothing is found but pages are still to render, the
    /// answer is `None` for now; otherwise the label must be found once.
    pub fn query_label<T>(&self, found: Vec<T>, label: &str) -> (r: Result<Option<T>, String>)
        ensures
            found@.len() == 0 && (exists|i: int| 0 <= i < self.0@.len() && (#[trigger] self.0@[i]).output is Empty)
                ==> r == Ok::<Option<T>, String>(None),
            found@.len() == 0 && !(exists|i: int| 0 <= i < self.0@.len() && (#[trigger] self.0@[i]).output is Empty)
                ==> (r matches Err(m) && m@ == missing_label_message(label@)),
            found@.len() > 1 ==> (r matches Err(m) && m@ == repeated_label_message(label@)),
            found@.len() == 1 ==> r == Ok::<Option<T>, String>(Some(found@[0])),
    {
        let mut found = found;
        let ghost all = found@;
        match found.pop() {
            None => {
                if self.is_incomplete() {
                    Ok(None)
                } else {
                    Err(concat3("label `<", label, ">` does not exist in the wiki"))
                }
            },
            Some(last) => {
                if found.len() > 0 {
                    Err(concat3("label `<", label, ">` occurs multiple times in the wiki"))
                } else {
                    assert(all[0] == last);
                    Ok(Some(last))
                }
            },
        }
    }

    /// Splits the wiki for rendering: the entries of pages that failed stay as
    /// they are, and the paths of all other pages are to be rendered again.
    pub fn render_targets(self) -> (r: (Vec<Warned<WikiEntry<D, G>, G>>, Vec<VPath>))
        ensures
            r.0@ == failed_entries(self.0@),
            r.1@.map_values(|p: VPath| p@) == targets(self.0@),
    {
        let Wiki(entries) = self;
        let mut rest = entries;
        let ghost all = rest@;
        let n = rest.len();
        let mut kept: Vec<Warned<WikiEntry<D, G>, G>> = Vec::new();
        let mut paths: Vec<VPath> = Vec::new();
        let mut i: usize = 0;
        while i < n
            invariant
                n == all.len(),
                i <= n,
                rest@ == all.subrange(i as int, n as int),
                kept@ == failed_entries(all.take(i as int)),
                paths@.map_values(|p: VPath| p@) == targets(all.take(i as int)),
            decreases n - i,
        {
            let entry = rest.remove(0);
            proof {
                assert(rest@ =~= all.subrange(i + 1, n as int));
                assert(all.take(i + 1).drop_last() =~= all.take(i as int));
                assert(all.take(i + 1).last() == all[i as int]);
                assert(entry == all[i as int]);
            }
            let ghost e = entry;
            match entry.output {
                WikiEntry::Empty(p) => {
                    paths.push(p);
                    proof {
                        assert(paths@.map_values(|p: VPath| p@) =~= targets(all.take(i + 1)));
                    }
                },
                WikiEntry::Rendered(page) => {
                    paths.push(page.path);
                    proof {
                        assert(paths@.map_values(|p: VPath| p@) =~= targets(all.take(i + 1)));
                    }
                },
                WikiEntry::Error(errors) => {
                    kept.push(Warned { output: WikiEntry::Error(errors), warnings: entry.warnings });
                    proof {
                        assert(kept@ =~= failed_entries(all.take(i + 1)));
                    }
                },
            }
            i = i + 1;
        }
        proof {
            assert(all.take(n as int) =~= all);
        }
        (kept, paths)
    }
}

/// The kind of a node at the root of an HTML document that typst made.
#[derive(Clone, Copy, Debug, PartialEq, Eq, Structural)]
pub enum HtmlNodeKind {
    Tag,
    Text,
    Element,
    Frame,
}

/// What typst made of one page: the anchors of its labelled elements, its
/// document and the kind of the document's second root node (`None` where
/// the root has fewer nodes), or its errors; with the warnings.
pub type Compiled<D, G> = Warned<Result<(Vec<(u128, String)>, D, Option<HtmlNodeKind>), Vec<G>>, G>;

/// Every document that typst made has an element as its second root node,
/// the body that rendering takes the page from; a document of another shape
/// cannot be rendered.
pub open spec fn well_shaped<D, G>(compiled: Seq<Compiled<D, G>>) -> bool {
    forall|i: int| 0 <= i < compiled.len() && (#[trigger] compiled[i]).output is Ok
        ==> compiled[i].output->Ok_0.2 == Some(HtmlNodeKind::Element)
}

/// What rendering one page gave: its anchors and document, or its errors,
/// with the warnings.
pub open spec fn built_outcome<D, G>(
    path: VPath,
    compiled: Compiled<D, G>,
) -> Warned<Result<Page<D>, Vec<G>>, G> {
    Warned {
        output: match compiled.output {
            Ok((anchors, document, _)) => Ok(Page { path, anchors, document }),
            Err(errors) => Err(errors),
        },
        warnings: compiled.warnings,
    }
}

/// The outcomes of rendering the pages: each path paired with what typst made
/// of it.
pub open spec fn built_outcomes<D, G>(
    paths: Seq<VPath>,
    compiled: Seq<Compiled<D, G>>,
) -> Seq<Warned<Result<Page<D>, Vec<G>>, G>> {
    Seq::new(compiled.len(), |i: int| built_outcome(paths[i], compiled[i]))
}

/// Pairs each path to render with what rendering it gave, making a page of
/// the path where it rendered; one result per path, in order. Only documents
/// of the expected shape make pages.
pub fn build_outcomes<D, G>(
    paths: Vec<VPath>,
    compiled: Vec<Compiled<D, G>>,
) -> (r: Vec<Warned<Result<Page<D>, Vec<G>>, G>>)
    requires
        paths.len() == compiled.len(),
        well_shaped(compiled@),
    ensures
        r@ == built_outcomes(paths@, compiled@),
{
    let ghost all_paths = paths@;
    let ghost all = compiled@;
    let n = compiled.len();
    let mut paths = paths;
    let mut rest = compiled;
    let mut r: Vec<Warned<Result<Page<D>, Vec<G>>, G>> = Vec::new();
    let mut i: usize = 0;
    while i < n
        invariant
            n == all.len(),
            n == all_paths.len(),
            i <= n,
            rest@ == all.subrange(i as int, n as int),
            paths@ == all_paths.subrange(i as int, n as int),
            r@ == built_outcomes(all_paths.take(i as int), all.take(i as int)),
        decreases n - i,
    {
        let c = rest.remove(0);
        let path = paths.remove(0);
        proof {
            assert(rest@ =~= all.subrange(i + 1, n as int));
            assert(paths@ =~= all_paths.subrange(i + 1, n as int));
            assert(c == all[i as int]);
            assert(path == all_paths[i as int]);
        }
        let ghost entry = built_outcome(path, c);
        let Warned { output, warnings } = c;
        let output = match output {
            Ok((anchors, document, _)) => Ok(Page { path, anchors, document }),
            Err(errors) => Err(errors),
        };
        let o = Warned { output, warnings };
        proof {
            assert(o == entry);
        }
        r.push(o);
        proof {
            assert(r@ =~= built_outcomes(all_paths.take(i + 1), all.take(i + 1)));
        }
        i = i + 1;
    }
    proof {
        assert(all.take(n as int) =~= all);
        assert(all_paths.take(n as int) =~= all_paths);
    }
    r
}

/// The wiki made of the failed entries, then one entry per outcome, in order.
fn rebuild<D, G>(
    failed: Vec<Warned<WikiEntry<D, G>, G>>,
    outcomes: Vec<Warned<Result<Page<D>, Vec<G>>, G>>,
) -> (r: Wiki<D, G>)
    ensures
        r.0@ == rebuilt_entries(failed@, outcomes@),
{
    let mut entries = failed;
    let ghost start = entries@;
    let mut rest = outcomes;
    let ghost all = rest@;
    let n = rest.len();
    let mut i: usize = 0;
    while i < n
        invariant
            n == all.len(),
            i <= n,
            rest@ == all.subrange(i as int, n as int),
            entries@ == start + all.take(i as int).map_values(|o: Warned<Result<Page<D>, Vec<G>>, G>| outcome_entry(o)),
        decreases n - i,
    {
        let o = rest.remove(0);
        proof {
            assert(rest@ =~= all.subrange(i + 1, n as int));
            assert(o == all[i as int]);
        }
        let Warned { output, warnings } = o;
        let entry = match output {
            Ok(page) => WikiEntry::Rendered(page),
            Err(errors) => WikiEntry::Error(errors),
        };
        entries.push(Warned { output: entry, warnings });
        proof {
            assert(entries@ =~= start + all.take(i + 1).map_values(|o: Warned<Result<Page<D>, Vec<G>>, G>| outcome_entry(o)));
        }
        i = i + 1;
    }
    proof {
        assert(all.take(n as int) =~= all);
    }
    Wiki(entries)
}

/// Rebuilds the wiki after rendering: the failed entries first, then one entry
/// per rendered path, in order — a page of that path where typst rendered it,
/// or the page's errors. Rendering takes each page from the body element that
/// is the second root node of its document; a document of another shape (a
/// tag, text or frame there, or no second node at all) stops rendering, so
/// every document handed in must have that shape.
pub fn render_wiki<D, G>(
    failed: Vec<Warned<WikiEntry<D, G>, G>>,
    paths: Vec<VPath>,
    compiled: Vec<Compiled<D, G>>,
) -> (r: Wiki<D, G>)
    requires
        paths.len() == compiled.len(),
        well_shaped(compiled@),
    ensures
        r.0@ == rebuilt_entries(failed@, built_outcomes(paths@, compiled@)),
{
    let outcomes = build_outcomes(paths, compiled);
    rebuild(failed, outcomes)
}

/// The anchor name stored for `loc`, if any.
fn find_anchor(anchors: &Vec<(u128, String)>, loc: u128) -> (r: Option<&String>)
    ensures
        match r {
            Some(s) => anchor_for(anchors@, loc) == Some(s@),
            None => anchor_for(anchors@, loc) is None,
        },
{
    let mut i: usize = 0;
    assert(anchors@.skip(0) =~= anchors@);
    while i < anchors.len()
        invariant
            i <= anchors@.len(),
            anchor_for(anchors@, loc) == anchor_for(anchors@.skip(i as int), loc),
        decreases anchors@.len() - i,
    {
        proof {
            assert(anchors@.skip(i as int)[0] == anchors@[i as int]);
            assert(anchors@.skip(i as int).drop_first() =~= anchors@.skip(i + 1));
        }
        if anchors[i].0 == loc {
            return Some(&anchors[i].1);
        }
        i = i + 1;
    }
    assert(anchors@.skip(i as int).len() == 0);
    None
}

impl<D> Page<D> {
    /// The link from the main file to this page's HTML output.
    pub fn html_link(&self, main: &VPath) -> (r: String)
        requires
            main@ != root_text(),
        ensures
            r@ == page_link_text(self.path@, main@),
    {
        let html = "html";
        proof {
            reveal_strlit("html");
        }
        let output = self.path.with_extension(html);
        relative_from_parent(&output, main)
    }
}

/// The link from the main file to an element of a page: the page's link,
/// followed by `#` and the element's anchor where the element has one.
pub open spec fn ext_ref_link_text(page_path: Seq<char>, anchors: Seq<(u128, String)>, main: Seq<char>, location: Option<u128>) -> Seq<char> {
    let base = page_link_text(page_path, main);
    match location {
        Some(loc) => match anchor_for(anchors, loc) {
            Some(id) => base + "#"@ + id,
            None => base,
        },
        None => base,
    }
}

/// The link to an element (at `location`, if it has one) of `page`.
pub fn ext_ref_link<D>(page: &Page<D>, main: &VPath, location: Option<u128>) -> (r: String)
    requires
        main@ != root_text(),
    ensures
        r@ == ext_ref_link_text(page.path@, page.anchors@, main@, location),
{
    let base = page.html_link(main);
    match location {
        Some(loc) => match find_anchor(&page.anchors, loc) {
            Some(id) => concat3(base.as_str(), "#", id.as_str()),
            None => base,
        },
        None => base,
    }
}

/// The link from the main file to `resolved`, which a page asked for; the
/// path must lie under the same root as the main file.
pub fn make_relative(resolved: &VPath, same_root: bool, main: &VPath) -> (r: Result<String, String>)
    requires
        main@ != root_text(),
    ensures
        same_root ==> (r matches Ok(s) && s@ == relative_link(resolved@, main@)),
        !same_root ==> (r matches Err(m) && m@ == "relativizing paths from outside the main root is not supported"@),
{
    if !same_root {
        return Err(String::from_str("relativizing paths from outside the main root is not supported"));
    }
    Ok(relative_from_parent(resolved, main))
}

} // verus!
