//! A small association map with byte-string keys and values.
//!
//! Query parameters, headers and scanned tags all live in one of these.
//! Pairs are kept in insertion order; a key inserted twice keeps its latest
//! value, so the view of the whole map is the left-to-right fold of
//! `Map::insert` over the pairs.

use vstd::prelude::*;

verus! {

/// The map described by `pairs`, inserting from left to right so that the
/// last occurrence of a key wins.
pub open spec fn pairs_map(ps: Seq<(Seq<u8>, Seq<u8>)>) -> Map<Seq<u8>, Seq<u8>>
    decreases ps.len(),
{
    if ps.len() == 0 {
        Map::empty()
    } else {
        pairs_map(ps.drop_last()).insert(ps.last().0, ps.last().1)
    }
}

/// A key occurring nowhere in `ps` is not in the map.
pub proof fn lemma_pairs_map_absent(ps: Seq<(Seq<u8>, Seq<u8>)>, k: Seq<u8>)
    requires
        forall|j: int| 0 <= j < ps.len() ==> ps[j].0 != k,
    ensures
        !pairs_map(ps).contains_key(k),
    decreases ps.len(),
{
    if ps.len() > 0 {
        lemma_pairs_map_absent(ps.drop_last(), k);
    }
}

/// The value of a key is the value of its last occurrence in `ps`.
pub proof fn lemma_pairs_map_last(ps: Seq<(Seq<u8>, Seq<u8>)>, k: Seq<u8>, i: int)
    requires
        0 <= i < ps.len(),
        ps[i].0 == k,
        forall|j: int| i < j < ps.len() ==> ps[j].0 != k,
    ensures
        pairs_map(ps).contains_key(k),
        pairs_map(ps)[k] == ps[i].1,
    decreases ps.len(),
{
    if i == ps.len() - 1 {
    } else {
        lemma_pairs_map_last(ps.drop_last(), k, i);
        assert(ps.last().0 != k);
    }
}

/// An insertion-ordered list of key-value pairs of bytes, read through a
/// last-write-wins `Map` view.
#[derive(Debug)]
pub struct KvMap {
    pairs: Vec<(Vec<u8>, Vec<u8>)>,
}

impl View for KvMap {
    type V = Map<Seq<u8>, Seq<u8>>;

    open spec fn view(&self) -> Map<Seq<u8>, Seq<u8>> {
        pairs_map(self.pairs_view())
    }
}

impl KvMap {
    /// The pairs in insertion order.
    pub closed spec fn pairs_view(&self) -> Seq<(Seq<u8>, Seq<u8>)> {
        self.pairs.deep_view()
    }

    /// An empty map.
    pub fn new() -> (r: KvMap)
        ensures
            r@ == Map::<Seq<u8>, Seq<u8>>::empty(),
            r.pairs_view() == Seq::<(Seq<u8>, Seq<u8>)>::empty(),
    {
        let r = KvMap { pairs: Vec::new() };
        proof {
            assert(r.pairs_view() =~~= Seq::<(Seq<u8>, Seq<u8>)>::empty());
        }
        r
    }

    /// How many pairs were inserted.
    pub fn pair_count(&self) -> (r: usize)
        ensures
            r == self.pairs_view().len(),
    {
        self.pairs.len()
    }

    /// Appends a pair; on a repeated key the new value wins in the view.
    pub fn insert(&mut self, k: Vec<u8>, v: Vec<u8>)
        ensures
            final(self).pairs_view() == old(self).pairs_view().push((k@, v@)),
            final(self)@ == old(self)@.insert(k@, v@),
    {
        let ghost oldps = self.pairs_view();
        self.pairs.push((k, v));
        proof {
            assert(self.pairs_view() =~~= oldps.push((k@, v@)));
            assert(self.pairs_view().drop_last() =~~= oldps);
        }
    }

    /// The value of `k`, if the map holds it.
    pub fn get(&self, k: &[u8]) -> (r: Option<Vec<u8>>)
        ensures
            match r {
                Some(v) => self@.contains_key(k@) && v@ == self@[k@],
                None => !self@.contains_key(k@),
            },
    {
        let mut i: usize = self.pairs.len();
        while i > 0
            invariant
                0 <= i <= self.pairs_view().len(),
                forall|j: int| i <= j < self.pairs_view().len() ==> self.pairs_view()[j].0 != k@,
            decreases i,
        {
            i = i - 1;
            let pair = &self.pairs[i];
            proof {
                assert(self.pairs_view()[i as int].0 =~= pair.0@);
                assert(self.pairs_view()[i as int].1 =~= pair.1@);
            }
            if crate::bytes::eq_bytes(pair.0.as_slice(), k) {
                proof {
                    lemma_pairs_map_last(self.pairs_view(), k@, i as int);
                }
                return Some(vstd::slice::slice_to_vec(pair.1.as_slice()));
            }
        }
        proof {
            lemma_pairs_map_absent(self.pairs_view(), k@);
        }
        None
    }

    /// Whether the map holds `k`.
    pub fn contains_key(&self, k: &[u8]) -> (r: bool)
        ensures
            r == self@.contains_key(k@),
    {
        match self.get(k) {
            Some(_) => true,
            None => false,
        }
    }
}

} // verus!
