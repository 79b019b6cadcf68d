//! Assembling the wiki: every document and asset gets an output path, and a
//! path may be claimed only once.
use vstd::prelude::*;
use crate::diag::{concat2, concat3, Diagnostic, DiagnosticView, Hint, Severity, Spanned};
use crate::pathmap::{keys_unique, PathMap};
use crate::vpath::VPath;

verus! {

/// The wiki as it is written out: the contents of each output path.
#[derive(Debug)]
pub struct Wiki<E> {
    pub entries: PathMap<E>,
}

/// The message for a path that is claimed a second time.
pub open spec fn duplicate_message(path: Seq<char>) -> Seq<char> {
    "path `"@ + path.drop_first() + "` occurs multiple times in the bundle"@
}

/// The hint that says which kind of element must have unique paths.
pub open spec fn unique_hint(kind: Seq<char>) -> Seq<char> {
    kind + " paths must be unique in the bundle"@
}

/// The diagnostic for an element of kind `kind` at `span` that claims `path`,
/// which the element at `existing` already holds.
pub open spec fn duplicate_view(path: Seq<char>, kind: Seq<char>, span: u64, existing: u64) -> DiagnosticView {
    DiagnosticView {
        severity: Severity::Error,
        span: span,
        message: duplicate_message(path),
        hints: seq![(unique_hint(kind), None), ("path is already in use here"@, Some(existing))],
    }
}

/// Builds the error for an element of kind `kind` at `span` that claims
/// `path`, already held by the element at `existing`.
pub fn duplicate_path_error(path: &VPath, kind: &str, span: u64, existing: u64) -> (r: Diagnostic)
    ensures
        r@ == duplicate_view(path@, kind@, span, existing),
{
    let rest = path.without_slash();
    let message = concat3("path `", rest.as_str(), "` occurs multiple times in the bundle");
    let first = Hint { message: concat2(kind, " paths must be unique in the bundle"), span: None };
    let second = Hint { message: String::from_str("path is already in use here"), span: Some(existing) };
    let mut hints = Vec::new();
    hints.push(first);
    hints.push(second);
    let r = Diagnostic { severity: Severity::Error, span, message, hints };
    assert(r@.hints =~= duplicate_view(path@, kind@, span, existing).hints);
    r
}

/// Gives `path` to `value` unless the path is already taken; then the map is
/// left as it was and the duplicate-path error is returned.
pub fn place_entry<T>(entries: &mut PathMap<Spanned<T>>, path: VPath, value: T, span: u64, kind: &str) -> (r: Option<Diagnostic>)
    ensures
        old(entries)@.contains_key(path@) ==> {
            &&& r matches Some(d) && d@ == duplicate_view(path@, kind@, span, old(entries)@[path@].span)
            &&& final(entries)@ == old(entries)@
        },
        !old(entries)@.contains_key(path@) ==> {
            &&& r is None
            &&& final(entries)@ == old(entries)@.insert(path@, Spanned { v: value, span: span })
        },
{
    match entries.get(&path) {
        Some(existing) => {
            let existing_span = existing.span;
            Some(duplicate_path_error(&path, kind, span, existing_span))
        },
        None => {
            let placed = entries.insert_new(path, Spanned { v: value, span });
            None
        },
    }
}

/// An asset that a page asks to be written to `path`.
#[derive(Debug)]
pub struct AssetOutput {
    pub path: VPath,
    pub data: Vec<u8>,
    pub span: u64,
}

/// Why the wiki could not be assembled: the errors of documents that did not
/// render (`D` is the renderer's diagnostic), then the paths claimed twice.
#[derive(Debug)]
pub struct BundleErrors<D> {
    pub rendering: Vec<D>,
    pub collisions: Vec<Diagnostic>,
}

/// The entries of the documents that rendered: contents and span by path.
pub open spec fn rendered_entries<D>(docs: Seq<(VPath, Spanned<Result<Vec<u8>, Vec<D>>>)>) -> Map<Seq<char>, (Seq<u8>, u64)>
    decreases docs.len(),
{
    if docs.len() == 0 {
        Map::empty()
    } else {
        let rest = rendered_entries(docs.drop_last());
        match docs.last().1.v {
            Ok(bytes) => rest.insert(docs.last().0@, (bytes@, docs.last().1.span)),
            Err(_) => rest,
        }
    }
}

/// The errors of the documents that did not render, in document order.
pub open spec fn rendering_errors<D>(docs: Seq<(VPath, Spanned<Result<Vec<u8>, Vec<D>>>)>) -> Seq<D>
    decreases docs.len(),
{
    if docs.len() == 0 {
        Seq::empty()
    } else {
        let rest = rendering_errors(docs.drop_last());
        match docs.last().1.v {
            Ok(_) => rest,
            Err(errors) => rest + errors@,
        }
    }
}

/// Places the assets one after the other: a free path is given to the asset,
/// a taken one yields a duplicate-path error.
pub open spec fn place_assets(start: Map<Seq<char>, (Seq<u8>, u64)>, assets: Seq<AssetOutput>) -> (Map<Seq<char>, (Seq<u8>, u64)>, Seq<DiagnosticView>)
    decreases assets.len(),
{
    if assets.len() == 0 {
        (start, Seq::empty())
    } else {
        let (placed, errors) = place_assets(start, assets.drop_last());
        let a = assets.last();
        if placed.contains_key(a.path@) {
            (placed, errors.push(duplicate_view(a.path@, "asset"@, a.span, placed[a.path@].1)))
        } else {
            (placed.insert(a.path@, (a.data@, a.span)), errors)
        }
    }
}

/// The view of a map of spanned contents.
pub open spec fn spanned_bytes(m: Map<Seq<char>, Spanned<Vec<u8>>>) -> Map<Seq<char>, (Seq<u8>, u64)> {
    m.map_values(|s: Spanned<Vec<u8>>| (s.v@, s.span))
}

/// Every path that the rendered documents give is the path of one of them.
proof fn lemma_rendered_paths<D>(docs: Seq<(VPath, Spanned<Result<Vec<u8>, Vec<D>>>)>, k: Seq<char>)
    requires
        rendered_entries(docs).contains_key(k),
    ensures
        exists|j: int| 0 <= j < docs.len() && docs[j].0@ == k,
    decreases docs.len(),
{
    let rest = docs.drop_last();
    if rendered_entries(rest).contains_key(k) {
        lemma_rendered_paths(rest, k);
        let j = choose|j: int| 0 <= j < rest.len() && rest[j].0@ == k;
        assert(docs[j] == rest[j]);
    } else {
        assert(docs[docs.len() - 1] == docs.last());
    }
}

/// Assembles the wiki from the rendered documents and the assets that the
/// pages ask for. Documents that rendered take their paths first; each asset
/// then takes its path unless a document or an earlier asset holds it. The
/// wiki is assembled when no document failed and no path was claimed twice.
pub fn compile<D>(documents: PathMap<Spanned<Result<Vec<u8>, Vec<D>>>>, assets: Vec<AssetOutput>) -> (r: Result<Wiki<Vec<u8>>, BundleErrors<D>>)
    ensures
        ({
            let start = rendered_entries(documents.pairs());
            let placed = place_assets(start, assets@);
            let failures = rendering_errors(documents.pairs());
            match r {
                Ok(w) => {
                    &&& failures.len() == 0
                    &&& placed.1.len() == 0
                    &&& w.entries@.map_values(|v: Vec<u8>| v@) == placed.0.map_values(|p: (Seq<u8>, u64)| p.0)
                },
                Err(e) => {
                    &&& failures.len() > 0 || placed.1.len() > 0
                    &&& e.rendering@ == failures
                    &&& e.collisions@.map_values(|d: Diagnostic| d@) == placed.1
                },
            }
        }),
{
    let ghost docs = documents.pairs();
    let mut pending = documents.into_pairs();
    let mut entries: PathMap<Spanned<Vec<u8>>> = PathMap::new();
    let mut failures: Vec<D> = Vec::new();
    let mut i: usize = 0;
    let n = pending.len();
    while i < n
        invariant
            n == docs.len(),
            i <= n,
            keys_unique(docs),
            pending@ == docs.subrange(i as int, n as int),
            spanned_bytes(entries@) == rendered_entries(docs.subrange(0, i as int)),
            failures@ == rendering_errors(docs.subrange(0, i as int)),
        decreases n - i,
    {
        let (path, rendered) = pending.remove(0);
        let ghost prefix = docs.subrange(0, i as int);
        let ghost next = docs.subrange(0, i + 1);
        proof {
            assert(next.drop_last() =~= prefix);
            assert(next.last() == docs[i as int]);
            assert(pending@ =~= docs.subrange(i + 1, n as int));
        }
        match rendered.v {
            Ok(bytes) => {
                proof {
                    if entries@.contains_key(path@) {
                        assert(rendered_entries(prefix).contains_key(path@));
                        lemma_rendered_paths(prefix, path@);
                        let j = choose|j: int| 0 <= j < prefix.len() && prefix[j].0@ == path@;
                        assert(prefix[j] == docs[j]);
                    }
                }
                let placed = entries.insert_new(path, Spanned { v: bytes, span: rendered.span });
                proof {
                    assert(spanned_bytes(entries@) =~= rendered_entries(next));
                }
            },
            Err(mut errors) => {
                failures.append(&mut errors);
            },
        }
        i = i + 1;
    }
    proof {
        assert(docs.subrange(0, n as int) =~= docs);
    }
    let mut collisions: Vec<Diagnostic> = Vec::new();
    let mut queue = assets;
    let ghost all = queue@;
    let m = queue.len();
    let mut k: usize = 0;
    while k < m
        invariant
            m == all.len(),
            k <= m,
            queue@ == all.subrange(k as int, m as int),
            ({
                let placed = place_assets(rendered_entries(docs), all.subrange(0, k as int));
                &&& spanned_bytes(entries@) == placed.0
                &&& collisions@.map_values(|d: Diagnostic| d@) == placed.1
            }),
        decreases m - k,
    {
        let asset = queue.remove(0);
        let ghost prefix = all.subrange(0, k as int);
        let ghost next = all.subrange(0, k + 1);
        proof {
            assert(next.drop_last() =~= prefix);
            assert(next.last() == all[k as int]);
            assert(queue@ =~= all.subrange(k + 1, m as int));
        }
        let ghost before = entries@;
        let AssetOutput { path, data, span } = asset;
        let found = place_entry(&mut entries, path, data, span, "asset");
        match found {
            Some(d) => {
                collisions.push(d);
                proof {
                    assert(collisions@.map_values(|d: Diagnostic| d@) =~= place_assets(rendered_entries(docs), next).1);
                }
            },
            None => {
                proof {
                    assert(spanned_bytes(entries@) =~= place_assets(rendered_entries(docs), next).0);
                }
            },
        }
        k = k + 1;
    }
    proof {
        assert(all.subrange(0, m as int) =~= all);
    }
    if failures.len() == 0 && collisions.len() == 0 {
        Ok(Wiki { entries: drop_spans(entries) })
    } else {
        Err(BundleErrors { rendering: failures, collisions })
    }
}

/// The same map without the spans.
fn drop_spans(entries: PathMap<Spanned<Vec<u8>>>) -> (r: PathMap<Vec<u8>>)
    ensures
        r@.map_values(|v: Vec<u8>| v@) == spanned_bytes(entries@).map_values(|p: (Seq<u8>, u64)| p.0),
{
    let ghost source = entries@;
    proof {
        entries.lemma_view();
    }
    let mut pairs = entries.into_pairs();
    let ghost all = pairs@;
    let mut out: PathMap<Vec<u8>> = PathMap::new();
    let n = pairs.len();
    let mut i: usize = 0;
    while i < n
        invariant
            n == all.len(),
            i <= n,
            keys_unique(all),
            pairs@ == all.subrange(i as int, n as int),
            crate::pathmap::pairs_map(all) == source,
            forall|k: Seq<char>| #[trigger] out@.contains_key(k) <==> exists|j: int| 0 <= j < i && all[j].0@ == k,
            forall|j: int| 0 <= j < i ==> #[trigger] out@[all[j].0@] == all[j].1.v,
        decreases n - i,
    {
        let (path, spanned) = pairs.remove(0);
        proof {
            assert(all[i as int].0@ == path@);
            assert(pairs@ =~= all.subrange(i + 1, n as int));
            if out@.contains_key(path@) {
                let j = choose|j: int| 0 <= j < i && all[j].0@ == path@;
                assert(false);
            }
        }
        let ghost key = path@;
        let placed = out.insert_new(path, spanned.v);
        proof {
            assert forall|k: Seq<char>| #[trigger] out@.contains_key(k) <==> exists|j: int| 0 <= j < i + 1 && all[j].0@ == k by {
                if k == key {
                    assert(all[i as int].0@ == k);
                }
            }
            assert forall|j: int| 0 <= j < i + 1 implies #[trigger] out@[all[j].0@] == all[j].1.v by {
                if j < i {
                    assert(all[j].0@ != key);
                }
            }
        }
        i = i + 1;
    }
    proof {
        assert forall|k: Seq<char>| #![trigger source.contains_key(k)] out@.contains_key(k) <==> source.contains_key(k) by {
            if source.contains_key(k) {
                crate::pathmap::lemma_lookup_present(all, k);
            }
            if out@.contains_key(k) {
                let j = choose|j: int| 0 <= j < n && all[j].0@ == k;
                crate::pathmap::lemma_lookup_at(all, j);
            }
        }
        assert forall|k: Seq<char>| #![trigger source.contains_key(k)] source.contains_key(k) implies out@[k] == source[k].v by {
            crate::pathmap::lemma_lookup_present(all, k);
            let j = choose|j: int| 0 <= j < all.len() && all[j].0@ == k && crate::pathmap::lookup(all, k) == Some(all[j].1);
            assert(out@[all[j].0@] == all[j].1.v);
        }
        assert(out@.map_values(|v: Vec<u8>| v@) =~= spanned_bytes(source).map_values(|p: (Seq<u8>, u64)| p.0));
    }
    out
}

} // verus!
