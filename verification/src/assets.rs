//! Collecting the assets that pages ask to be written.
//!
//! Several pages may ask for the same output path. The last request for a
//! path wins; an earlier request with different contents is a conflict, and a
//! path with conflicts yields an error instead of an output.
use vstd::prelude::*;
use crate::bundle::AssetOutput;
use crate::diag::{concat3, copy_bytes, bytes_equal, Diagnostic, DiagnosticView, Hint, Severity};
use crate::vpath::VPath;

verus! {

/// The distinct output paths, in the order in which they are first asked for.
pub open spec fn first_paths(s: Seq<AssetOutput>) -> Seq<Seq<char>>
    decreases s.len(),
{
    if s.len() == 0 {
        Seq::empty()
    } else {
        let r = first_paths(s.drop_last());
        if r.contains(s.last().path@) {
            r
        } else {
            r.push(s.last().path@)
        }
    }
}

/// The index of the last request for `k`, or -1 if there is none.
pub open spec fn last_index(s: Seq<AssetOutput>, k: Seq<char>) -> int
    decreases s.len(),
{
    if s.len() == 0 {
        -1
    } else if s.last().path@ == k {
        s.len() - 1
    } else {
        last_index(s.drop_last(), k)
    }
}

/// The request that wins the path `k`: the last one.
pub open spec fn winner(s: Seq<AssetOutput>, k: Seq<char>) -> AssetOutput {
    s[last_index(s, k)]
}

/// The spans of the requests in `s` for `k` whose contents differ from `data`.
pub open spec fn conflicting(s: Seq<AssetOutput>, k: Seq<char>, data: Seq<u8>) -> Seq<u64>
    decreases s.len(),
{
    if s.len() == 0 {
        Seq::empty()
    } else {
        let r = conflicting(s.drop_last(), k, data);
        if s.last().path@ == k && s.last().data@ != data {
            r.push(s.last().span)
        } else {
            r
        }
    }
}

/// The spans of the earlier requests for `k` that disagree with the winner.
pub open spec fn conflicts_of(s: Seq<AssetOutput>, k: Seq<char>) -> Seq<u64> {
    conflicting(s.take(last_index(s, k)), k, winner(s, k).data@)
}

/// The message for a path with conflicting requests.
pub open spec fn conflict_message(k: Seq<char>) -> Seq<char> {
    "multiple conflicting assets for output \""@ + k + "\""@
}

/// The error for the path `k`: at the winner, with a hint at each conflict.
pub open spec fn conflict_view(s: Seq<AssetOutput>, k: Seq<char>) -> DiagnosticView {
    DiagnosticView {
        severity: Severity::Error,
        span: winner(s, k).span,
        message: conflict_message(k),
        hints: conflicts_of(s, k).map_values(|sp: u64| ("conflicting asset"@, Some(sp))),
    }
}

/// The outputs for the paths `ks` that have no conflicts.
pub open spec fn written(s: Seq<AssetOutput>, ks: Seq<Seq<char>>) -> Seq<(Seq<char>, Seq<u8>)>
    decreases ks.len(),
{
    if ks.len() == 0 {
        Seq::empty()
    } else {
        let r = written(s, ks.drop_last());
        let k = ks.last();
        if conflicts_of(s, k).len() == 0 {
            r.push((k, winner(s, k).data@))
        } else {
            r
        }
    }
}

/// The errors for the paths `ks` that have conflicts.
pub open spec fn refused(s: Seq<AssetOutput>, ks: Seq<Seq<char>>) -> Seq<DiagnosticView>
    decreases ks.len(),
{
    if ks.len() == 0 {
        Seq::empty()
    } else {
        let r = refused(s, ks.drop_last());
        let k = ks.last();
        if conflicts_of(s, k).len() == 0 {
            r
        } else {
            r.push(conflict_view(s, k))
        }
    }
}

/// A path among the first paths is asked for by some request.
pub proof fn lemma_first_paths_requested(s: Seq<AssetOutput>, k: Seq<char>)
    requires
        first_paths(s).contains(k),
    ensures
        0 <= last_index(s, k) < s.len(),
        winner(s, k).path@ == k,
    decreases s.len(),
{
    if s.last().path@ != k {
        let rest = s.drop_last();
        lemma_first_paths_requested(rest, k);
        assert(s[last_index(rest, k)] == rest[last_index(rest, k)]);
    }
}

/// Every request's path is among the first paths.
pub proof fn lemma_requested_first_paths(s: Seq<AssetOutput>, i: int)
    requires
        0 <= i < s.len(),
    ensures
        first_paths(s).contains(s[i].path@),
    decreases s.len(),
{
    let rest = s.drop_last();
    if i < s.len() - 1 {
        assert(rest[i] == s[i]);
        lemma_requested_first_paths(rest, i);
        if !first_paths(rest).contains(s.last().path@) {
            let j = choose|j: int| 0 <= j < first_paths(rest).len() && first_paths(rest)[j] == s[i].path@;
            assert(first_paths(s)[j] == s[i].path@);
        }
    } else {
        if !first_paths(rest).contains(s.last().path@) {
            assert(first_paths(s)[first_paths(rest).len() as int] == s.last().path@);
        }
    }
}

/// The first paths are distinct.
pub proof fn lemma_first_paths_distinct(s: Seq<AssetOutput>)
    ensures
        first_paths(s).no_duplicates(),
    decreases s.len(),
{
    if s.len() > 0 {
        lemma_first_paths_distinct(s.drop_last());
    }
}

/// The index of the last request for `k` among `s[..i]`.
proof fn lemma_last_index_step(s: Seq<AssetOutput>, i: int, k: Seq<char>)
    requires
        0 <= i < s.len(),
    ensures
        last_index(s.take(i + 1), k) == if s[i].path@ == k { i } else { last_index(s.take(i), k) },
{
    assert(s.take(i + 1).drop_last() =~= s.take(i));
}

/// The spans of conflicting requests among `s[..i + 1]`.
proof fn lemma_conflicting_step(s: Seq<AssetOutput>, i: int, k: Seq<char>, data: Seq<u8>)
    requires
        0 <= i < s.len(),
    ensures
        conflicting(s.take(i + 1), k, data) == if s[i].path@ == k && s[i].data@ != data {
            conflicting(s.take(i), k, data).push(s[i].span)
        } else {
            conflicting(s.take(i), k, data)
        },
{
    assert(s.take(i + 1).drop_last() =~= s.take(i));
}

/// The last index is below the length.
pub proof fn lemma_last_index_bound(s: Seq<AssetOutput>, k: Seq<char>)
    ensures
        -1 <= last_index(s, k) < s.len(),
        last_index(s, k) >= 0 ==> s[last_index(s, k)].path@ == k,
    decreases s.len(),
{
    if s.len() > 0 && s.last().path@ != k {
        let rest = s.drop_last();
        lemma_last_index_bound(rest, k);
        if last_index(rest, k) >= 0 {
            assert(s[last_index(rest, k)] == rest[last_index(rest, k)]);
        }
    }
}

/// Whether `k` occurs among `keys`.
fn find_path(keys: &Vec<VPath>, k: &VPath) -> (r: bool)
    ensures
        r == keys@.map_values(|p: VPath| p@).contains(k@),
{
    let ghost view = keys@.map_values(|p: VPath| p@);
    let mut i: usize = 0;
    while i < keys.len()
        invariant
            i <= keys@.len(),
            view == keys@.map_values(|p: VPath| p@),
            forall|j: int| 0 <= j < i ==> view[j] != k@,
        decreases keys@.len() - i,
    {
        if keys[i].same_as(k) {
            assert(view[i as int] == k@);
            return true;
        }
        i = i + 1;
    }
    false
}

/// The distinct output paths, in the order they are first asked for.
fn distinct_paths(assets: &Vec<AssetOutput>) -> (r: Vec<VPath>)
    ensures
        r@.map_values(|p: VPath| p@) == first_paths(assets@),
{
    let mut keys: Vec<VPath> = Vec::new();
    let mut i: usize = 0;
    while i < assets.len()
        invariant
            i <= assets@.len(),
            keys@.map_values(|p: VPath| p@) == first_paths(assets@.take(i as int)),
        decreases assets@.len() - i,
    {
        proof {
            assert(assets@.take(i + 1).drop_last() =~= assets@.take(i as int));
            assert(assets@.take(i + 1).last() == assets@[i as int]);
        }
        if !find_path(&keys, &assets[i].path) {
            keys.push(assets[i].path.duplicate());
            proof {
                assert(keys@.map_values(|p: VPath| p@) =~= first_paths(assets@.take(i + 1)));
            }
        }
        i = i + 1;
    }
    proof {
        assert(assets@.take(assets@.len() as int) =~= assets@);
    }
    keys
}

/// The index of the winning request for `k`.
fn winner_index(assets: &Vec<AssetOutput>, k: &VPath) -> (r: usize)
    requires
        first_paths(assets@).contains(k@),
    ensures
        r as int == last_index(assets@, k@),
        r < assets@.len(),
{
    proof {
        lemma_first_paths_requested(assets@, k@);
    }
    let mut found: usize = 0;
    let mut seen = false;
    let mut i: usize = 0;
    while i < assets.len()
        invariant
            i <= assets@.len(),
            seen ==> found < i && found as int == last_index(assets@.take(i as int), k@),
            !seen ==> last_index(assets@.take(i as int), k@) == -1,
        decreases assets@.len() - i,
    {
        proof {
            lemma_last_index_step(assets@, i as int, k@);
        }
        if assets[i].path.same_as(k) {
            found = i;
            seen = true;
        }
        i = i + 1;
    }
    proof {
        assert(assets@.take(assets@.len() as int) =~= assets@);
    }
    found
}

/// The hints for the requests before `upto` that ask for `k` with contents
/// other than `data`.
fn conflict_hints(assets: &Vec<AssetOutput>, k: &VPath, upto: usize, data: &Vec<u8>) -> (r: Vec<Hint>)
    requires
        upto <= assets@.len(),
    ensures
        r@.map_values(|h: Hint| h@) == conflicting(assets@.take(upto as int), k@, data@).map_values(
            |sp: u64| ("conflicting asset"@, Some(sp)),
        ),
{
    let mut hints: Vec<Hint> = Vec::new();
    let mut i: usize = 0;
    while i < upto
        invariant
            i <= upto <= assets@.len(),
            hints@.map_values(|h: Hint| h@) == conflicting(assets@.take(i as int), k@, data@).map_values(
                |sp: u64| ("conflicting asset"@, Some(sp)),
            ),
        decreases upto - i,
    {
        proof {
            lemma_conflicting_step(assets@, i as int, k@, data@);
        }
        if assets[i].path.same_as(k) && !bytes_equal(&assets[i].data, data) {
            let ghost prev = hints@;
            let h = Hint { message: String::from_str("conflicting asset"), span: Some(assets[i].span) };
            assert(h@ == ("conflicting asset"@, Some(assets@[i as int].span)));
            hints.push(h);
            proof {
                assert(hints@ == prev.push(h));
                let c0 = conflicting(assets@.take(i as int), k@, data@);
                assert(conflicting(assets@.take(i + 1), k@, data@) == c0.push(assets@[i as int].span));
                assert(prev.push(h).map_values(|h: Hint| h@) =~= prev.map_values(|h: Hint| h@).push(h@));
                assert(c0.push(assets@[i as int].span).map_values(|sp: u64| ("conflicting asset"@, Some(sp)))
                    =~= c0.map_values(|sp: u64| ("conflicting asset"@, Some(sp))).push(("conflicting asset"@, Some(assets@[i as int].span))));
                assert(hints@.map_values(|h: Hint| h@) =~= conflicting(assets@.take(i + 1), k@, data@).map_values(
                    |sp: u64| ("conflicting asset"@, Some(sp)),
                ));
            }
        }
        i = i + 1;
    }
    hints
}

/// Collects the asset outputs. Each path is written with the contents of its
/// last request; where an earlier request for the same path has other
/// contents, the path yields an error that points at the winner and hints at
/// each conflicting request. Any error makes the whole collection fail.
pub fn collect_assets(assets: &Vec<AssetOutput>) -> (r: Result<Vec<(VPath, Vec<u8>)>, Vec<Diagnostic>>)
    ensures
        ({
            let ks = first_paths(assets@);
            match r {
                Ok(out) => {
                    &&& refused(assets@, ks).len() == 0
                    &&& out@.map_values(|p: (VPath, Vec<u8>)| (p.0@, p.1@)) == written(assets@, ks)
                },
                Err(errors) => {
                    &&& refused(assets@, ks).len() > 0
                    &&& errors@.map_values(|d: Diagnostic| d@) == refused(assets@, ks)
                },
            }
        }),
{
    let keys = distinct_paths(assets);
    let ghost ks = first_paths(assets@);
    let mut outputs: Vec<(VPath, Vec<u8>)> = Vec::new();
    let mut errors: Vec<Diagnostic> = Vec::new();
    let mut t: usize = 0;
    while t < keys.len()
        invariant
            t <= keys@.len(),
            keys@.map_values(|p: VPath| p@) == ks,
            ks == first_paths(assets@),
            outputs@.map_values(|p: (VPath, Vec<u8>)| (p.0@, p.1@)) == written(assets@, ks.take(t as int)),
            errors@.map_values(|d: Diagnostic| d@) == refused(assets@, ks.take(t as int)),
        decreases keys@.len() - t,
    {
        let k = &keys[t];
        proof {
            assert(ks[t as int] == k@);
            assert(ks.take(t + 1).drop_last() =~= ks.take(t as int));
            assert(ks.take(t + 1).last() == k@);
            assert(ks.contains(k@));
        }
        let w = winner_index(assets, k);
        let hints = conflict_hints(assets, k, w, &assets[w].data);
        if hints.len() == 0 {
            let ghost prev = outputs@;
            let item = (k.duplicate(), copy_bytes(&assets[w].data));
            outputs.push(item);
            proof {
                assert(hints@.map_values(|h: Hint| h@).len() == hints@.len());
                assert(conflicts_of(assets@, k@).len() == 0);
                assert(winner(assets@, k@) == assets@[w as int]);
                assert(written(assets@, ks.take(t + 1)) == written(assets@, ks.take(t as int)).push((k@, winner(assets@, k@).data@)));
                assert(prev.push(item).map_values(|p: (VPath, Vec<u8>)| (p.0@, p.1@))
                    =~= prev.map_values(|p: (VPath, Vec<u8>)| (p.0@, p.1@)).push((item.0@, item.1@)));
                assert(outputs@.map_values(|p: (VPath, Vec<u8>)| (p.0@, p.1@)) =~= written(assets@, ks.take(t + 1)));
            }
        } else {
            let message = concat3("multiple conflicting assets for output \"", k.as_str(), "\"");
            let ghost hv = hints@.map_values(|h: Hint| h@);
            let ghost prev = errors@;
            let d = Diagnostic { severity: Severity::Error, span: assets[w].span, message, hints };
            errors.push(d);
            proof {
                assert(hv.len() > 0);
                assert(conflicts_of(assets@, k@).len() > 0);
                assert(winner(assets@, k@) == assets@[w as int]);
                assert(d@ == conflict_view(assets@, k@));
                assert(refused(assets@, ks.take(t + 1)) == refused(assets@, ks.take(t as int)).push(conflict_view(assets@, k@)));
                assert(prev.push(d).map_values(|d: Diagnostic| d@) =~= prev.map_values(|d: Diagnostic| d@).push(d@));
                assert(errors@.map_values(|d: Diagnostic| d@) =~= refused(assets@, ks.take(t + 1)));
            }
        }
        t = t + 1;
    }
    proof {
        assert(ks.take(keys@.len() as int) =~= ks);
    }
    if errors.len() == 0 {
        Ok(outputs)
    } else {
        Err(errors)
    }
}

} // verus!
