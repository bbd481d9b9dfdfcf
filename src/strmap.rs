//! A small map from strings to strings that keeps the order in which keys came in.
use vstd::prelude::*;

use crate::text::str_eq;

verus! {

pub type PairsView = Seq<(Seq<char>, Seq<char>)>;

/// Position of the first pair with key `k`, or -1.
pub open spec fn pair_index(s: PairsView, k: Seq<char>) -> int
    decreases s.len(),
{
    if s.len() == 0 {
        -1
    } else {
        let r = pair_index(s.drop_last(), k);
        if r >= 0 {
            r
        } else if s.last().0 == k {
            s.len() - 1
        } else {
            -1
        }
    }
}

pub proof fn lemma_pair_index(s: PairsView, k: Seq<char>)
    ensures
        -1 <= pair_index(s, k) < s.len(),
        pair_index(s, k) >= 0 ==> s[pair_index(s, k)].0 == k,
        pair_index(s, k) == -1 ==> forall|j: int| 0 <= j < s.len() ==> s[j].0 != k,
        forall|j: int| 0 <= j < pair_index(s, k) ==> s[j].0 != k,
    decreases s.len(),
{
    if s.len() > 0 {
        let t = s.drop_last();
        lemma_pair_index(t, k);
        assert forall|j: int| 0 <= j < t.len() implies t[j] == s[j] by {}
        if pair_index(s.drop_last(), k) == -1 && s.last().0 != k {
            assert forall|j: int| 0 <= j < s.len() implies s[j].0 != k by {
                if j < s.len() - 1 {
                    assert(s[j] == s.drop_last()[j]);
                }
            }
        } else if pair_index(s.drop_last(), k) >= 0 {
            assert(s[pair_index(s, k)] == s.drop_last()[pair_index(s, k)]);
        }
    }
}

/// The value under `k`, if any.
pub open spec fn pair_get(s: PairsView, k: Seq<char>) -> Option<Seq<char>> {
    let i = pair_index(s, k);
    if i >= 0 {
        Some(s[i].1)
    } else {
        None
    }
}

/// The pairs with `k` set to `v`: in place where `k` is present, else last.
pub open spec fn pair_set(s: PairsView, k: Seq<char>, v: Seq<char>) -> PairsView {
    let i = pair_index(s, k);
    if i >= 0 {
        s.update(i, (k, v))
    } else {
        s.push((k, v))
    }
}

pub open spec fn keys_unique(s: PairsView) -> bool {
    forall|i: int, j: int| 0 <= i < j < s.len() ==> s[i].0 != s[j].0
}

/// Keys with values, each key once, in the order the keys were first set.
#[derive(Debug)]
pub struct StringMap {
    pairs: Vec<(String, String)>,
}

impl StringMap {
    pub closed spec fn view(&self) -> PairsView {
        self.pairs@.map_values(|p: (String, String)| (p.0@, p.1@))
    }

    pub open spec fn wf(&self) -> bool {
        keys_unique(self.view())
    }

    /// An empty map.
    pub fn new() -> (r: StringMap)
        ensures
            r.wf(),
            r.view() == PairsView::empty(),
    {
        let r = StringMap { pairs: Vec::new() };
        assert(r.view() =~= PairsView::empty());
        r
    }

    fn position(&self, k: &str) -> (r: Option<usize>)
        ensures
            match r {
                Some(i) => pair_index(self.view(), k@) == i && i < self.view().len(),
                None => pair_index(self.view(), k@) == -1,
            },
    {
        let ghost v = self.view();
        let mut i: usize = 0;
        while i < self.pairs.len()
            invariant
                v == self.view(),
                i <= v.len(),
                pair_index(v.subrange(0, i as int), k@) == -1,
            decreases v.len() - i,
        {
            let ghost t = v.subrange(0, i + 1);
            assert(t.drop_last() =~= v.subrange(0, i as int));
            if str_eq(self.pairs[i].0.as_str(), k) {
                proof {
                    lemma_prefix_pair_index(v, k@, i as int);
                }
                return Some(i);
            }
            i = i + 1;
        }
        assert(v.subrange(0, v.len() as int) =~= v);
        None
    }

    /// The value under `k`, if any.
    pub fn get(&self, k: &str) -> (r: Option<&String>)
        ensures
            match r {
                Some(v) => pair_get(self.view(), k@) == Some(v@),
                None => pair_get(self.view(), k@) is None,
            },
    {
        match self.position(k) {
            Some(i) => Some(&self.pairs[i].1),
            None => None,
        }
    }

    /// The value under `k`, or the empty string.
    pub fn get_or_empty(&self, k: &str) -> (r: String)
        ensures
            r@ == match pair_get(self.view(), k@) {
                Some(v) => v,
                None => Seq::empty(),
            },
    {
        match self.get(k) {
            Some(v) => v.clone(),
            None => String::new(),
        }
    }

    /// Sets `k` to `v`.
    pub fn set(&mut self, k: String, v: String)
        requires
            old(self).wf(),
        ensures
            final(self).wf(),
            final(self).view() == pair_set(old(self).view(), k@, v@),
    {
        let ghost s = self.view();
        proof {
            lemma_pair_index(s, k@);
        }
        match self.position(k.as_str()) {
            Some(i) => {
                let ghost kv = (k@, v@);
                self.pairs.set(i, (k, v));
                assert(self.view() =~= s.update(i as int, kv));
            },
            None => {
                let ghost kv = (k@, v@);
                self.pairs.push((k, v));
                assert(self.view() =~= s.push(kv));
            },
        }
    }

    /// The pairs, in order, taken out of the map.
    pub fn into_pairs(self) -> (r: Vec<(String, String)>)
        ensures
            r@.map_values(|p: (String, String)| (p.0@, p.1@)) == self.view(),
    {
        self.pairs
    }

    /// The pairs, in order.
    pub fn pairs(&self) -> (r: &Vec<(String, String)>)
        ensures
            r@.map_values(|p: (String, String)| (p.0@, p.1@)) == self.view(),
    {
        &self.pairs
    }
}

proof fn lemma_prefix_pair_index(s: PairsView, k: Seq<char>, i: int)
    requires
        0 <= i < s.len(),
        s[i].0 == k,
        pair_index(s.subrange(0, i), k) == -1,
    ensures
        pair_index(s, k) == i,
    decreases s.len() - i,
{
    if i == s.len() - 1 {
        assert(s.drop_last() =~= s.subrange(0, i));
    } else {
        let t = s.drop_last();
        assert(t.subrange(0, i) =~= s.subrange(0, i));
        lemma_prefix_pair_index(t, k, i);
    }
}

/// The first pair with key `k` is at `i` where `i` holds `k` and no pair before it does.
pub proof fn lemma_pair_index_at(s: PairsView, k: Seq<char>, i: int)
    requires
        0 <= i < s.len(),
        s[i].0 == k,
        forall|j: int| 0 <= j < i ==> s[j].0 != k,
    ensures
        pair_index(s, k) == i,
{
    let t = s.subrange(0, i);
    lemma_pair_index(t, k);
    if pair_index(t, k) >= 0 {
        assert(t[pair_index(t, k)] == s[pair_index(t, k)]);
    }
    lemma_prefix_pair_index(s, k, i);
}

/// After setting `k` to `v`, `k` has the value `v`, and setting it again changes nothing.
pub proof fn lemma_pair_set(s: PairsView, k: Seq<char>, v: Seq<char>)
    ensures
        pair_get(pair_set(s, k, v), k) == Some(v),
        pair_set(pair_set(s, k, v), k, v) == pair_set(s, k, v),
{
    lemma_pair_index(s, k);
    let t = pair_set(s, k, v);
    let i = pair_index(s, k);
    if i >= 0 {
        assert forall|j: int| 0 <= j < i implies t[j].0 != k by {
            assert(t[j] == s[j]);
        }
        lemma_pair_index_at(t, k, i);
        assert(t.update(i, (k, v)) =~= t);
    } else {
        assert forall|j: int| 0 <= j < s.len() implies t[j].0 != k by {
            assert(t[j] == s[j]);
        }
        lemma_pair_index_at(t, k, s.len() as int);
        assert(t.update(s.len() as int, (k, v)) =~= t);
    }
}

} // verus!
