//! A map from wiki paths to entries, in which each path occurs at most once.
use vstd::prelude::*;
use crate::vpath::VPath;

verus! {

/// The entry stored for `key`, looking from the most recent pair backwards.
pub open spec fn lookup<E>(pairs: Seq<(VPath, E)>, key: Seq<char>) -> Option<E>
    decreases pairs.len(),
{
    if pairs.len() == 0 {
        None
    } else if pairs.last().0@ == key {
        Some(pairs.last().1)
    } else {
        lookup(pairs.drop_last(), key)
    }
}

/// No path occurs twice.
pub open spec fn keys_unique<E>(pairs: Seq<(VPath, E)>) -> bool {
    forall|i: int, j: int| 0 <= i < j < pairs.len() ==> pairs[i].0@ != pairs[j].0@
}

/// The map that a sequence of pairs describes.
pub open spec fn pairs_map<E>(pairs: Seq<(VPath, E)>) -> Map<Seq<char>, E> {
    Map::new(|k: Seq<char>| lookup(pairs, k) is Some, |k: Seq<char>| lookup(pairs, k)->0)
}

/// A pair that sits at index `i` is what the map holds for its path.
pub proof fn lemma_lookup_at<E>(pairs: Seq<(VPath, E)>, i: int)
    requires
        keys_unique(pairs),
        0 <= i < pairs.len(),
    ensures
        lookup(pairs, pairs[i].0@) == Some(pairs[i].1),
    decreases pairs.len(),
{
    if i < pairs.len() - 1 {
        assert(pairs[i].0@ != pairs.last().0@);
        let rest = pairs.drop_last();
        assert(rest[i] == pairs[i]);
        lemma_lookup_at(rest, i);
    }
}

/// A path that no pair carries has no entry.
pub proof fn lemma_lookup_absent<E>(pairs: Seq<(VPath, E)>, key: Seq<char>)
    requires
        forall|i: int| 0 <= i < pairs.len() ==> pairs[i].0@ != key,
    ensures
        lookup(pairs, key) is None,
    decreases pairs.len(),
{
    if pairs.len() > 0 {
        let rest = pairs.drop_last();
        assert forall|i: int| 0 <= i < rest.len() implies rest[i].0@ != key by {
            assert(rest[i] == pairs[i]);
        }
        lemma_lookup_absent(rest, key);
    }
}

/// A path with an entry is carried by some pair, which holds that entry.
pub proof fn lemma_lookup_present<E>(pairs: Seq<(VPath, E)>, key: Seq<char>)
    requires
        lookup(pairs, key) is Some,
    ensures
        exists|i: int| 0 <= i < pairs.len() && pairs[i].0@ == key && lookup(pairs, key) == Some(pairs[i].1),
    decreases pairs.len(),
{
    if pairs.last().0@ != key {
        let rest = pairs.drop_last();
        lemma_lookup_present(rest, key);
        let i = choose|i: int| 0 <= i < rest.len() && rest[i].0@ == key && lookup(rest, key) == Some(rest[i].1);
        assert(pairs[i] == rest[i]);
    } else {
        assert(pairs[pairs.len() - 1] == pairs.last());
    }
}

/// Appending a pair adds its entry and leaves every other path alone.
pub proof fn lemma_lookup_push<E>(pairs: Seq<(VPath, E)>, pair: (VPath, E), key: Seq<char>)
    ensures
        lookup(pairs.push(pair), key) == if pair.0@ == key { Some(pair.1) } else { lookup(pairs, key) },
{
    assert(pairs.push(pair).drop_last() =~= pairs);
}

/// A map from wiki paths to entries.
#[derive(Debug)]
pub struct PathMap<E> {
    pairs: Vec<(VPath, E)>,
}

/// What a read of `key` gives: its entry, or `None`.
pub open spec fn found<E>(m: Map<Seq<char>, E>, key: Seq<char>) -> Option<E> {
    if m.contains_key(key) {
        Some(m[key])
    } else {
        None
    }
}

/// How `insert_new` changes a map: a path without an entry gets `value`, and
/// a path that has one is refused, leaving the map as it was.
pub open spec fn inserted_new<E>(before: Map<Seq<char>, E>, after: Map<Seq<char>, E>, key: Seq<char>, value: E, refused: bool) -> bool {
    if before.contains_key(key) {
        refused && after == before
    } else {
        !refused && after == before.insert(key, value)
    }
}

impl<E> View for PathMap<E> {
    type V = Map<Seq<char>, E>;

    closed spec fn view(&self) -> Map<Seq<char>, E> {
        pairs_map(self.pairs@)
    }
}

impl<E> PathMap<E> {
    #[verifier::type_invariant]
    closed spec fn unique(&self) -> bool {
        keys_unique(self.pairs@)
    }

    /// The pairs in the order they were inserted.
    pub closed spec fn pairs(&self) -> Seq<(VPath, E)> {
        self.pairs@
    }

    /// The map is what its pairs describe.
    pub proof fn lemma_view(&self)
        ensures
            self@ == pairs_map(self.pairs()),
    {
    }

    /// An empty map.
    pub fn new() -> (r: PathMap<E>)
        ensures
            r@ == Map::<Seq<char>, E>::empty(),
            r.pairs().len() == 0,
    {
        let r = PathMap { pairs: Vec::new() };
        assert(r@ =~= Map::<Seq<char>, E>::empty());
        r
    }

    /// The number of paths in the map.
    pub fn len(&self) -> (r: usize)
        ensures
            r == self.pairs().len(),
    {
        self.pairs.len()
    }

    /// The index of the pair that carries `key`, if any.
    fn position(&self, key: &VPath) -> (r: Option<usize>)
        ensures
            match r {
                Some(i) => i < self.pairs@.len() && self.pairs@[i as int].0@ == key@
                    && self@.contains_key(key@) && self@[key@] == self.pairs@[i as int].1,
                None => !self@.contains_key(key@),
            },
    {
        proof {
            use_type_invariant(self);
        }
        let mut i: usize = 0;
        while i < self.pairs.len()
            invariant
                i <= self.pairs@.len(),
                keys_unique(self.pairs@),
                forall|j: int| 0 <= j < i ==> self.pairs@[j].0@ != key@,
            decreases self.pairs@.len() - i,
        {
            if self.pairs[i].0.same_as(key) {
                proof {
                    lemma_lookup_at(self.pairs@, i as int);
                }
                return Some(i);
            }
            i = i + 1;
        }
        proof {
            lemma_lookup_absent(self.pairs@, key@);
        }
        None
    }

    /// Whether `key` has an entry.
    pub fn contains(&self, key: &VPath) -> (r: bool)
        ensures
            r == self@.contains_key(key@),
    {
        self.position(key).is_some()
    }

    /// The entry for `key`, if any.
    pub fn get(&self, key: &VPath) -> (r: Option<&E>)
        ensures
            match r {
                Some(v) => found(self@, key@) == Some(*v),
                None => found(self@, key@) is None,
            },
    {
        match self.position(key) {
            Some(i) => Some(&self.pairs[i].1),
            None => None,
        }
    }

    /// Inserts `value` for `key` unless `key` already has an entry, in which
    /// case nothing changes and both are handed back.
    pub fn insert_new(&mut self, key: VPath, value: E) -> (r: Result<(), (VPath, E)>)
        ensures
            old(self)@.contains_key(key@) ==> {
                &&& r matches Err((k, v)) && k@ == key@ && v == value
                &&& final(self)@ == old(self)@
                &&& final(self).pairs() == old(self).pairs()
            },
            !old(self)@.contains_key(key@) ==> {
                &&& r is Ok
                &&& final(self)@ == old(self)@.insert(key@, value)
                &&& final(self).pairs() == old(self).pairs().push((key, value))
            },
    {
        proof {
            use_type_invariant(&*self);
        }
        if self.contains(&key) {
            return Err((key, value));
        }
        let ghost before = self.pairs@;
        proof {
            assert forall|i: int| 0 <= i < before.len() implies before[i].0@ != key@ by {
                if before[i].0@ == key@ {
                    lemma_lookup_at(before, i);
                }
            }
        }
        let mut pairs = Vec::new();
        std::mem::swap(&mut pairs, &mut self.pairs);
        pairs.push((key, value));
        self.pairs = pairs;
        proof {
            let after = self.pairs@;
            assert forall|k: Seq<char>| #![trigger lookup(after, k)]
                lookup(after, k) == if after.last().0@ == k { Some(after.last().1) } else { lookup(before, k) } by {
                lemma_lookup_push(before, after.last(), k);
            }
            assert(self@ =~= old(self)@.insert(key@, after.last().1));
        }
        Ok(())
    }

    /// Hands out the pairs, each path once.
    pub fn into_pairs(self) -> (r: Vec<(VPath, E)>)
        ensures
            r@ == self.pairs(),
            keys_unique(r@),
    {
        proof {
            use_type_invariant(&self);
        }
        self.pairs
    }

    /// Borrows the pairs, each path once.
    pub fn as_pairs(&self) -> (r: &Vec<(VPath, E)>)
        ensures
            r@ == self.pairs(),
            keys_unique(r@),
    {
        proof {
            use_type_invariant(self);
        }
        &self.pairs
    }
}

} // verus!
