//! Looking at the wiki from inside one document: what a document's own
//! queries see. Element locations are held as the numbers typst hashes them to.
use vstd::prelude::*;
use crate::diag::concat3;

verus! {

/// Whether an element whose document is `document` belongs to `ancestor`.
pub open spec fn belongs(document: Option<u128>, ancestor: u128) -> bool {
    document == Some(ancestor)
}

/// The message for a label found elsewhere in the wiki.
pub open spec fn foreign_label_message(label_repr: Seq<char>) -> Seq<char> {
    "label `"@ + label_repr + "` exists in the wiki, but not in the document"@
}

/// A label lookup seen from the document `ancestor`: the element found in the
/// whole wiki (in `document`) counts only if it lies in `ancestor`.
pub fn focus_label<T>(found: Result<T, String>, document: Option<u128>, ancestor: u128, label_repr: &str) -> (r: Result<T, String>)
    ensures
        match found {
            Err(m) => r == Err::<T, String>(m),
            Ok(t) => if belongs(document, ancestor) {
                r == Ok::<T, String>(t)
            } else {
                r matches Err(m) && m@ == foreign_label_message(label_repr@)
            },
        },
{
    match found {
        Err(m) => Err(m),
        Ok(t) => {
            let inside = match document {
                Some(d) => d == ancestor,
                None => false,
            };
            if inside {
                Ok(t)
            } else {
                Err(concat3("label `", label_repr, "` exists in the wiki, but not in the document"))
            }
        },
    }
}

/// The labelled elements of `ancestor`, in order.
pub open spec fn in_document<T>(items: Seq<(T, Option<u128>)>, ancestor: u128) -> Seq<T>
    decreases items.len(),
{
    if items.len() == 0 {
        Seq::empty()
    } else {
        let r = in_document(items.drop_last(), ancestor);
        if belongs(items.last().1, ancestor) {
            r.push(items.last().0)
        } else {
            r
        }
    }
}

/// Keeps the labelled elements (each with the document it lies in) that lie
/// in `ancestor`.
pub fn query_labelled<T>(items: Vec<(T, Option<u128>)>, ancestor: u128) -> (r: Vec<T>)
    ensures
        r@ == in_document(items@, ancestor),
{
    let mut rest = items;
    let ghost all = rest@;
    let n = rest.len();
    let mut kept: Vec<T> = Vec::new();
    let mut i: usize = 0;
    while i < n
        invariant
            n == all.len(),
            i <= n,
            rest@ == all.subrange(i as int, n as int),
            kept@ == in_document(all.take(i as int), ancestor),
        decreases n - i,
    {
        let (item, document) = rest.remove(0);
        proof {
            assert(rest@ =~= all.subrange(i + 1, n as int));
            assert(all.take(i + 1).drop_last() =~= all.take(i as int));
            assert(all.take(i + 1).last() == all[i as int]);
        }
        let inside = match document {
            Some(d) => d == ancestor,
            None => false,
        };
        if inside {
            kept.push(item);
        }
        proof {
            assert(kept@ =~= in_document(all.take(i + 1), ancestor));
        }
        i = i + 1;
    }
    proof {
        assert(all.take(n as int) =~= all);
    }
    kept
}

/// The location under which the element at `location` finds its path: that of
/// its document, or its own where it is a document itself.
pub fn path_location(document: Option<u128>, location: u128) -> (r: u128)
    ensures
        r == match document {
            Some(d) => d,
            None => location,
        },
{
    match document {
        Some(d) => d,
        None => location,
    }
}

} // verus!
