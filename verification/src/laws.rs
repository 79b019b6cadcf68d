//! Properties of the library that relate several of its functions.
use vstd::prelude::*;
use crate::assets::{conflicts_of, conflicting, first_paths, last_index, lemma_last_index_bound, lemma_first_paths_distinct, lemma_first_paths_requested, lemma_requested_first_paths, refused, winner, written};
use crate::bundle::{place_assets, rendering_errors, AssetOutput};
use crate::diag::Spanned;
use crate::focus::{belongs, in_document};
use crate::pathmap::{found, inserted_new};
use crate::render::{anchor_for, ext_ref_link_text, page_link_text, built_outcomes, Compiled, failed_entries, outcome_entry, rebuilt_entries, targets, Page, Warned, WikiEntry};
use crate::serve::served_path;
use crate::sources::{is_wiki_source_spec, path_segments, registered_paths, starts_with_dot};
use crate::vpath::VPath;
use crate::vpath::{is_normal_text, joined_text, parse_virtual_path, relative_link, PathFault};

verus! {

/// Placing assets never changes a path that was already taken: every entry
/// present before the assets (in particular every rendered document) keeps
/// its contents and span, and every asset's path is taken afterwards.
pub proof fn law_first_claim_wins(start: Map<Seq<char>, (Seq<u8>, u64)>, assets: Seq<AssetOutput>)
    ensures
        forall|k: Seq<char>| #[trigger] start.contains_key(k) ==> place_assets(start, assets).0.contains_key(k)
            && place_assets(start, assets).0[k] == start[k],
        forall|i: int| 0 <= i < assets.len() ==> place_assets(start, assets).0.contains_key(#[trigger] assets[i].path@),
    decreases assets.len(),
{
    if assets.len() > 0 {
        let rest = assets.drop_last();
        law_first_claim_wins(start, rest);
        assert forall|i: int| 0 <= i < assets.len() implies place_assets(start, assets).0.contains_key(#[trigger] assets[i].path@) by {
            if i < assets.len() - 1 {
                assert(rest[i] == assets[i]);
            }
        }
    }
}

/// An asset whose path is free is written with its own contents, and the
/// number of duplicate-path errors is the number of assets that found their
/// path taken.
pub proof fn law_collisions_count(start: Map<Seq<char>, (Seq<u8>, u64)>, assets: Seq<AssetOutput>)
    ensures
        place_assets(start, assets).1.len() <= assets.len(),
        place_assets(start, assets).1.len() == 0 ==> forall|i: int| 0 <= i < assets.len()
            ==> !start.contains_key(#[trigger] assets[i].path@),
    decreases assets.len(),
{
    if assets.len() > 0 {
        let rest = assets.drop_last();
        law_collisions_count(start, rest);
        law_first_claim_wins(start, rest);
        if place_assets(start, assets).1.len() == 0 {
            assert forall|i: int| 0 <= i < assets.len() implies !start.contains_key(#[trigger] assets[i].path@) by {
                if i < assets.len() - 1 {
                    assert(rest[i] == assets[i]);
                } else {
                    assert(assets[i] == assets.last());
                }
            }
        }
    }
}

/// Each output path is written at most once by the asset collection.
pub proof fn law_written_paths_distinct(s: Seq<AssetOutput>)
    ensures
        written(s, first_paths(s)).map_values(|p: (Seq<char>, Seq<u8>)| p.0).no_duplicates(),
{
    lemma_first_paths_distinct(s);
    lemma_written_sub(s, first_paths(s));
}

/// The paths written for `ks` appear among `ks` in the same order, so they
/// are distinct when `ks` is.
proof fn lemma_written_sub(s: Seq<AssetOutput>, ks: Seq<Seq<char>>)
    requires
        ks.no_duplicates(),
    ensures
        written(s, ks).map_values(|p: (Seq<char>, Seq<u8>)| p.0).no_duplicates(),
        forall|j: int| 0 <= j < written(s, ks).len() ==> ks.contains(#[trigger] written(s, ks)[j].0),
    decreases ks.len(),
{
    if ks.len() > 0 {
        let rest = ks.drop_last();
        assert(rest.no_duplicates());
        lemma_written_sub(s, rest);
        let w = written(s, rest);
        let names = w.map_values(|p: (Seq<char>, Seq<u8>)| p.0);
        assert forall|j: int| 0 <= j < w.len() implies #[trigger] names[j] != ks.last() by {
            assert(rest.contains(w[j].0));
            let t = choose|t: int| 0 <= t < rest.len() && rest[t] == w[j].0;
            assert(ks[t] == rest[t]);
            assert(ks.last() == ks[ks.len() - 1]);
        }
        assert forall|j: int| 0 <= j < written(s, ks).len() implies ks.contains(#[trigger] written(s, ks)[j].0) by {
            if j < w.len() {
                let t = choose|t: int| 0 <= t < rest.len() && rest[t] == w[j].0;
                assert(ks[t] == rest[t]);
            } else {
                assert(ks[ks.len() - 1] == ks.last());
            }
        }
        if conflicts_of(s, ks.last()).len() == 0 {
            let names2 = written(s, ks).map_values(|p: (Seq<char>, Seq<u8>)| p.0);
            assert(names2 =~= names.push(ks.last()));
        }
    }
}

/// The collection succeeds exactly when no path has a request whose
/// contents differ from the winning (last) request for that path.
pub proof fn law_collect_succeeds_without_conflicts(s: Seq<AssetOutput>)
    ensures
        (refused(s, first_paths(s)).len() == 0) <==> (forall|i: int| 0 <= i < s.len()
            ==> #[trigger] conflicts_of(s, s[i].path@).len() == 0),
{
    lemma_refused_empty(s, first_paths(s));
    assert forall|i: int| 0 <= i < s.len() implies first_paths(s).contains(#[trigger] s[i].path@) by {
        lemma_requested_first_paths(s, i);
    }
    if forall|i: int| 0 <= i < s.len() ==> #[trigger] conflicts_of(s, s[i].path@).len() == 0 {
        assert forall|t: int| 0 <= t < first_paths(s).len() implies #[trigger] conflicts_of(s, first_paths(s)[t]).len() == 0 by {
            let k = first_paths(s)[t];
            lemma_first_paths_requested(s, k);
            let i = last_index(s, k);
            assert(s[i].path@ == k);
        }
    }
}

/// No error arises for the paths `ks` exactly when none of them has a conflict.
proof fn lemma_refused_empty(s: Seq<AssetOutput>, ks: Seq<Seq<char>>)
    ensures
        (refused(s, ks).len() == 0) <==> (forall|t: int| 0 <= t < ks.len() ==> #[trigger] conflicts_of(s, ks[t]).len() == 0),
    decreases ks.len(),
{
    if ks.len() > 0 {
        let rest = ks.drop_last();
        lemma_refused_empty(s, rest);
        if refused(s, ks).len() == 0 {
            assert forall|t: int| 0 <= t < ks.len() implies #[trigger] conflicts_of(s, ks[t]).len() == 0 by {
                if t < ks.len() - 1 {
                    assert(rest[t] == ks[t]);
                } else {
                    assert(ks[t] == ks.last());
                }
            }
        } else {
            if refused(s, rest).len() > 0 {
                let t = choose|t: int| 0 <= t < rest.len() && #[trigger] conflicts_of(s, rest[t]).len() != 0;
                assert(rest[t] == ks[t]);
            } else {
                assert(ks[ks.len() - 1] == ks.last());
            }
        }
    }
}

/// Requests that all carry the same contents never conflict: asking for the
/// same asset from several pages is fine.
pub proof fn law_identical_requests_agree(s: Seq<AssetOutput>, k: Seq<char>, data: Seq<u8>)
    requires
        forall|i: int| 0 <= i < s.len() && s[i].path@ == k ==> (#[trigger] s[i]).data@ == data,
        first_paths(s).contains(k),
    ensures
        conflicts_of(s, k).len() == 0,
        winner(s, k).data@ == data,
{
    lemma_first_paths_requested(s, k);
    lemma_no_conflicts(s.take(last_index(s, k)), k, data);
    assert forall|i: int| 0 <= i < s.take(last_index(s, k)).len() && s.take(last_index(s, k))[i].path@ == k
        implies (#[trigger] s.take(last_index(s, k))[i]).data@ == data by {
        assert(s.take(last_index(s, k))[i] == s[i]);
    }
}

/// Requests for `k` that all carry `data` never conflict with `data`.
proof fn lemma_no_conflicts(s: Seq<AssetOutput>, k: Seq<char>, data: Seq<u8>)
    requires
        forall|i: int| 0 <= i < s.len() && s[i].path@ == k ==> (#[trigger] s[i]).data@ == data,
    ensures
        conflicting(s, k, data).len() == 0,
    decreases s.len(),
{
    if s.len() > 0 {
        let rest = s.drop_last();
        assert forall|i: int| 0 <= i < rest.len() && rest[i].path@ == k implies (#[trigger] rest[i]).data@ == data by {
            assert(rest[i] == s[i]);
        }
        lemma_no_conflicts(rest, k, data);
        assert(s[s.len() - 1] == s.last());
    }
}

/// What a read gives back of a write: after `insert_new` gives a path an
/// entry, `get` finds that entry; a refused insert leaves the path's entry as
/// it was; and every other path reads as before.
pub proof fn law_read_after_insert<E>(
    before: Map<Seq<char>, E>,
    after: Map<Seq<char>, E>,
    key: Seq<char>,
    value: E,
    refused: bool,
    other: Seq<char>,
)
    requires
        inserted_new(before, after, key, value, refused),
        other != key,
    ensures
        refused <==> before.contains_key(key),
        !refused ==> found(after, key) == Some(value),
        refused ==> found(after, key) == found(before, key),
        found(after, other) == found(before, other),
{
}

/// A page stored under a path is served to a request for exactly that path.
pub proof fn law_stored_page_is_served(entries: Map<Seq<char>, Vec<u8>>, p: Seq<char>)
    requires
        entries.contains_key(p),
        is_normal_text(p),
    ensures
        parse_virtual_path(p) == Ok::<Seq<char>, PathFault>(p),
        served_path(entries, p) == Some(p),
{
}

/// A request for a directory is answered with the directory's `index.html`
/// when there is no page under the directory's own path.
pub proof fn law_directory_serves_index(entries: Map<Seq<char>, Vec<u8>>, p: Seq<char>, q: Seq<char>)
    requires
        !entries.contains_key(p),
        joined_text(p, "index.html"@) == Ok::<Seq<char>, PathFault>(q),
        entries.contains_key(q),
    ensures
        served_path(entries, p) == Some(q),
{
}

/// The link from a page to any other path is never empty.
pub proof fn law_link_to_other_path_not_empty(path: Seq<char>, base: Seq<char>)
    requires
        path != base,
    ensures
        relative_link(path, base).len() > 0,
{
}

/// Splitting the wiki for rendering loses no page: every entry either stays
/// as a failure or is a path to render.
pub proof fn law_render_keeps_every_page<D, G>(entries: Seq<Warned<WikiEntry<D, G>, G>>)
    ensures
        failed_entries(entries).len() + targets(entries).len() == entries.len(),
    decreases entries.len(),
{
    if entries.len() > 0 {
        law_render_keeps_every_page(entries.drop_last());
    }
}

/// Once the targets are rendered, no page is left to render: the rebuilt wiki
/// has no empty entry.
pub proof fn law_rendered_wiki_complete<D, G>(
    entries: Seq<Warned<WikiEntry<D, G>, G>>,
    outcomes: Seq<Warned<Result<Page<D>, Vec<G>>, G>>,
)
    ensures
        forall|i: int| 0 <= i < rebuilt_entries(failed_entries(entries), outcomes).len()
            ==> !((#[trigger] rebuilt_entries(failed_entries(entries), outcomes)[i]).output is Empty),
{
    lemma_failed_are_errors(entries);
    let all = rebuilt_entries(failed_entries(entries), outcomes);
    assert forall|i: int| 0 <= i < all.len() implies !((#[trigger] all[i]).output is Empty) by {
        if i >= failed_entries(entries).len() {
            let o = outcomes[i - failed_entries(entries).len()];
            assert(all[i] == outcome_entry(o));
        }
    }
}

/// Each page of the rebuilt wiki that typst rendered carries the path it was
/// rendered for, with the anchors and document typst made of it; each path
/// that failed carries its errors.
pub proof fn law_rendered_page_keeps_path<D, G>(
    failed: Seq<Warned<WikiEntry<D, G>, G>>,
    paths: Seq<VPath>,
    compiled: Seq<Compiled<D, G>>,
    i: int,
)
    requires
        paths.len() == compiled.len(),
        0 <= i < compiled.len(),
    ensures
        rebuilt_entries(failed, built_outcomes(paths, compiled)).len() == failed.len() + paths.len(),
        compiled[i].output matches Ok((anchors, document, _)) ==> rebuilt_entries(failed, built_outcomes(paths, compiled))[failed.len() + i].output
            == WikiEntry::<D, G>::Rendered(Page { path: paths[i], anchors, document }),
        compiled[i].output matches Err(errors) ==> rebuilt_entries(failed, built_outcomes(paths, compiled))[failed.len() + i].output
            == WikiEntry::<D, G>::Error(errors),
        rebuilt_entries(failed, built_outcomes(paths, compiled))[failed.len() + i].warnings == compiled[i].warnings,
{
    let outcomes = built_outcomes(paths, compiled);
    assert(rebuilt_entries(failed, outcomes)[failed.len() + i] == outcome_entry(outcomes[i]));
}

/// The failed entries are all errors.
proof fn lemma_failed_are_errors<D, G>(entries: Seq<Warned<WikiEntry<D, G>, G>>)
    ensures
        forall|i: int| 0 <= i < failed_entries(entries).len() ==> (#[trigger] failed_entries(entries)[i]).output is Error,
    decreases entries.len(),
{
    if entries.len() > 0 {
        lemma_failed_are_errors(entries.drop_last());
    }
}

/// Whether `x` is the element of some item of `items` that lies in `ancestor`.
pub open spec fn taken_from<T>(items: Seq<(T, Option<u128>)>, ancestor: u128, x: T) -> bool {
    exists|i: int| 0 <= i < items.len() && items[i].0 == x && belongs(items[i].1, ancestor)
}

/// A document's own view of the labelled elements keeps only elements of that
/// document, each taken from the input.
pub proof fn law_labelled_in_document<T>(items: Seq<(T, Option<u128>)>, ancestor: u128)
    ensures
        in_document(items, ancestor).len() <= items.len(),
        forall|j: int| 0 <= j < in_document(items, ancestor).len()
            ==> taken_from(items, ancestor, #[trigger] in_document(items, ancestor)[j]),
    decreases items.len(),
{
    if items.len() > 0 {
        let rest = items.drop_last();
        law_labelled_in_document(rest, ancestor);
        let r = in_document(items, ancestor);
        let rr = in_document(rest, ancestor);
        let last = items.len() - 1;
        assert(items[last] == items.last());
        assert forall|j: int| 0 <= j < r.len() implies taken_from(items, ancestor, #[trigger] r[j]) by {
            if j < rr.len() {
                assert(r[j] == rr[j]);
                assert(taken_from(rest, ancestor, rr[j]));
                let i = choose|i: int| 0 <= i < rest.len() && rest[i].0 == rr[j] && belongs(rest[i].1, ancestor);
                assert(items[i] == rest[i]);
            } else {
                assert(r[j] == items[last].0);
                assert(belongs(items[last].1, ancestor));
            }
        }
    }
}

/// Registering paths for the index and collecting the index paths gives back
/// exactly the registered paths, each once: a path is collected if and only
/// if some registration parsed to it.
pub proof fn law_registered_paths_collected(raws: Seq<Seq<char>>, markers: Seq<Option<VPath>>)
    requires
        markers.len() == raws.len(),
        forall|i: int| 0 <= i < markers.len() ==> (#[trigger] markers[i]) is Some
            && parse_virtual_path(raws[i]) == Ok::<Seq<char>, PathFault>(markers[i]->0@),
    ensures
        forall|k: Seq<char>| #[trigger] registered_paths(markers).contains(k) <==> exists|i: int|
            0 <= i < raws.len() && #[trigger] parse_virtual_path(raws[i]) == Ok::<Seq<char>, PathFault>(k),
        registered_paths(markers).no_duplicates(),
    decreases markers.len(),
{
    if markers.len() > 0 {
        let n = markers.len() - 1;
        let rest = markers.drop_last();
        let rraws = raws.drop_last();
        assert forall|i: int| 0 <= i < rest.len() implies (#[trigger] rest[i]) is Some
            && parse_virtual_path(rraws[i]) == Ok::<Seq<char>, PathFault>(rest[i]->0@) by {
            assert(rest[i] == markers[i]);
            assert(rraws[i] == raws[i]);
        }
        law_registered_paths_collected(rraws, rest);
        assert(markers[n] is Some);
        let p = markers[n]->0@;
        assert(markers.last() == markers[n]);
        let all = registered_paths(markers);
        assert forall|k: Seq<char>| #[trigger] all.contains(k) <==> exists|i: int|
            0 <= i < raws.len() && #[trigger] parse_virtual_path(raws[i]) == Ok::<Seq<char>, PathFault>(k) by {
            if all.contains(k) {
                if registered_paths(rest).contains(k) {
                    let i = choose|i: int| 0 <= i < rraws.len() && #[trigger] parse_virtual_path(rraws[i])
                        == Ok::<Seq<char>, PathFault>(k);
                    assert(rraws[i] == raws[i]);
                } else {
                    assert(k == p);
                    assert(parse_virtual_path(raws[n]) == Ok::<Seq<char>, PathFault>(k));
                }
            }
            if exists|i: int| 0 <= i < raws.len() && #[trigger] parse_virtual_path(raws[i]) == Ok::<Seq<char>, PathFault>(k) {
                let i = choose|i: int| 0 <= i < raws.len() && #[trigger] parse_virtual_path(raws[i])
                    == Ok::<Seq<char>, PathFault>(k);
                if i < n {
                    assert(rraws[i] == raws[i]);
                    assert(registered_paths(rest).contains(k));
                    if !registered_paths(rest).contains(p) {
                        assert(all == registered_paths(rest).push(p));
                        assert(all[registered_paths(rest).index_of(k)] == k);
                    }
                } else {
                    assert(k == p);
                    if !registered_paths(rest).contains(p) {
                        assert(all == registered_paths(rest).push(p));
                        assert(all[all.len() - 1] == p);
                    }
                }
            }
        }
    }
}

/// Appending segments to a hidden path never makes it visible: a path stays
/// hidden once one of its segments starts with a dot.
pub proof fn law_hidden_stays_hidden(segments: Seq<Seq<char>>, more: Seq<Seq<char>>)
    requires
        exists|i: int| 0 <= i < segments.len() && starts_with_dot(#[trigger] segments[i]),
    ensures
        exists|i: int| 0 <= i < (segments + more).len() && starts_with_dot(#[trigger] (segments + more)[i]),
{
    let i = choose|i: int| 0 <= i < segments.len() && starts_with_dot(#[trigger] segments[i]);
    assert((segments + more)[i] == segments[i]);
}

/// How many errors the documents that did not render carry in all.
pub open spec fn error_count<D>(docs: Seq<(VPath, Spanned<Result<Vec<u8>, Vec<D>>>)>) -> nat
    decreases docs.len(),
{
    if docs.len() == 0 {
        0
    } else {
        error_count(docs.drop_last()) + match docs.last().1.v {
            Ok(_) => 0nat,
            Err(errors) => errors@.len(),
        }
    }
}

/// No rendering error is lost: the reported errors are as many as all failed
/// documents carry together, and the errors of each failed document stand
/// among them whole and in order, after those of the documents before it.
pub proof fn law_every_rendering_error_reported<D>(docs: Seq<(VPath, Spanned<Result<Vec<u8>, Vec<D>>>)>, i: int)
    requires
        0 <= i < docs.len(),
    ensures
        rendering_errors(docs).len() == error_count(docs),
        docs[i].1.v matches Err(errors) ==> {
            let start = error_count(docs.take(i)) as int;
            &&& start + errors@.len() <= rendering_errors(docs).len()
            &&& rendering_errors(docs).subrange(start, start + errors@.len()) == errors@
        },
    decreases docs.len(),
{
    let rest = docs.drop_last();
    lemma_error_count(docs);
    if i < docs.len() - 1 {
        law_every_rendering_error_reported(rest, i);
        assert(rest[i] == docs[i]);
        assert(rest.take(i) =~= docs.take(i));
        if docs[i].1.v is Err {
            let errors = docs[i].1.v->Err_0;
            let start = error_count(docs.take(i)) as int;
            lemma_error_count(rest);
            assert(rendering_errors(docs).subrange(start, start + errors@.len())
                =~= rendering_errors(rest).subrange(start, start + errors@.len()));
        }
    } else {
        assert(docs.take(i) =~= rest);
        lemma_error_count(rest);
        if docs[i].1.v is Err {
            let errors = docs[i].1.v->Err_0;
            assert(docs.last() == docs[i]);
            assert(rendering_errors(docs) == rendering_errors(rest) + errors@);
            assert(rendering_errors(docs).subrange(rendering_errors(rest).len() as int, rendering_errors(docs).len() as int)
                =~= errors@);
        }
    }
}

/// The reported errors are as many as the failed documents carry.
proof fn lemma_error_count<D>(docs: Seq<(VPath, Spanned<Result<Vec<u8>, Vec<D>>>)>)
    ensures
        rendering_errors(docs).len() == error_count(docs),
    decreases docs.len(),
{
    if docs.len() > 0 {
        lemma_error_count(docs.drop_last());
    }
}

/// A request for a path that disagrees with the winning (last) request for
/// that path is a conflict: its span is among the path's conflicts, and the
/// whole collection fails.
pub proof fn law_disagreeing_request_conflicts(s: Seq<AssetOutput>, k: Seq<char>, i: int)
    requires
        0 <= i < last_index(s, k),
        s[i].path@ == k,
        s[i].data@ != s[last_index(s, k)].data@,
    ensures
        conflicts_of(s, k).contains(s[i].span),
        conflicts_of(s, k).len() > 0,
        refused(s, first_paths(s)).len() > 0,
{
    lemma_last_index_bound(s, k);
    let t = s.take(last_index(s, k));
    assert(t[i] == s[i]);
    lemma_conflicting_contains(t, k, winner(s, k).data@, i);
    law_collect_succeeds_without_conflicts(s);
    assert(conflicts_of(s, s[i].path@).len() > 0);
}

/// A request for `k` whose contents differ from `data` is among the conflicts.
proof fn lemma_conflicting_contains(t: Seq<AssetOutput>, k: Seq<char>, data: Seq<u8>, i: int)
    requires
        0 <= i < t.len(),
        t[i].path@ == k,
        t[i].data@ != data,
    ensures
        conflicting(t, k, data).contains(t[i].span),
    decreases t.len(),
{
    let rest = t.drop_last();
    if i == t.len() - 1 {
        assert(t.last() == t[i]);
        let c = conflicting(t, k, data);
        assert(c[c.len() - 1] == t[i].span);
    } else {
        assert(rest[i] == t[i]);
        lemma_conflicting_contains(rest, k, data, i);
        let c0 = conflicting(rest, k, data);
        let j = choose|j: int| 0 <= j < c0.len() && c0[j] == t[i].span;
        let c = conflicting(t, k, data);
        assert(c[j] == c0[j]);
    }
}

/// A request is answered only with the page stored under its own path or
/// under that path's `index.html`; where the wiki holds neither, the request
/// finds nothing (and is answered as not found).
pub proof fn law_served_only_own_or_index(entries: Map<Seq<char>, Vec<u8>>, p: Seq<char>)
    ensures
        served_path(entries, p) matches Some(q) ==> entries.contains_key(q)
            && (q == p || joined_text(p, "index.html"@) == Ok::<Seq<char>, PathFault>(q)),
        !entries.contains_key(p) && !(joined_text(p, "index.html"@) matches Ok(q) && entries.contains_key(q))
            ==> served_path(entries, p) is None,
{
}

/// The anchor of an element is found wherever it stands in the list of
/// anchors (their locations being distinct), so the link to the element ends
/// in `#` and that anchor; a location with no anchor in the list has none.
pub proof fn law_anchor_found_anywhere(anchors: Seq<(u128, String)>, loc: u128, j: int)
    requires
        0 <= j < anchors.len(),
        forall|a: int, b: int| 0 <= a < b < anchors.len() ==> anchors[a].0 != anchors[b].0,
        anchors[j].0 == loc,
    ensures
        anchor_for(anchors, loc) == Some(anchors[j].1@),
        forall|path: Seq<char>, main: Seq<char>| #[trigger] ext_ref_link_text(path, anchors, main, Some(loc))
            == page_link_text(path, main) + "#"@ + anchors[j].1@,
    decreases anchors.len(),
{
    if anchors[0].0 != loc {
        let rest = anchors.drop_first();
        assert(j > 0);
        assert(rest[j - 1] == anchors[j]);
        assert forall|a: int, b: int| 0 <= a < b < rest.len() implies rest[a].0 != rest[b].0 by {
            assert(rest[a] == anchors[a + 1]);
            assert(rest[b] == anchors[b + 1]);
        }
        law_anchor_found_anywhere(rest, loc, j - 1);
    } else {
        assert(j == 0);
    }
}

/// A location that no anchor carries has no anchor.
pub proof fn law_no_anchor_without_entry(anchors: Seq<(u128, String)>, loc: u128)
    requires
        forall|j: int| 0 <= j < anchors.len() ==> anchors[j].0 != loc,
    ensures
        anchor_for(anchors, loc) is None,
    decreases anchors.len(),
{
    if anchors.len() > 0 {
        let rest = anchors.drop_first();
        assert forall|j: int| 0 <= j < rest.len() implies rest[j].0 != loc by {
            assert(rest[j] == anchors[j + 1]);
        }
        law_no_anchor_without_entry(rest, loc);
    }
}

/// A file with any hidden segment, its own name included, is never one of
/// the wiki's sources.
pub proof fn law_hidden_files_are_not_sources(path: Seq<char>, is_file: bool, i: int)
    requires
        0 <= i < path_segments(path).len(),
        starts_with_dot(path_segments(path)[i]),
    ensures
        !is_wiki_source_spec(path, is_file),
{
}

} // verus!
