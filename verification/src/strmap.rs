//! Verified associative containers keyed by strings.
//!
//! The engine keeps three string-keyed tables: the auxiliary tab→site map,
//! the set of created webview records, and the pending-extraction table.
//! Both containers here are plain vectors with a uniqueness invariant, viewed
//! as a mathematical `Map` or `Set` of character sequences.

use vstd::prelude::*;
use crate::strutil::seq_has_str;
use crate::strutil::str_eq;
use crate::strutil::vec_has_str;

verus! {

/// One key/value entry of a [`StrMap`].
pub struct StrPair {
    pub key: String,
    pub value: String,
}

/// Whether some entry of `es` has key `k`.
pub open spec fn has_key(es: Seq<StrPair>, k: Seq<char>) -> bool {
    exists|i: int| 0 <= i < es.len() && es[i].key@ == k
}

/// The value some entry with key `k` carries (unique when keys are unique).
pub open spec fn value_of(es: Seq<StrPair>, k: Seq<char>) -> Seq<char> {
    let i = choose|i: int| 0 <= i < es.len() && es[i].key@ == k;
    es[i].value@
}

/// A string→string map: a vector of entries with pairwise-distinct keys.
pub struct StrMap {
    pub entries: Vec<StrPair>,
}

impl View for StrMap {
    type V = Map<Seq<char>, Seq<char>>;

    open spec fn view(&self) -> Map<Seq<char>, Seq<char>> {
        Map::new(
            |k: Seq<char>| has_key(self.entries@, k),
            |k: Seq<char>| value_of(self.entries@, k),
        )
    }
}

/// Under unique keys, an entry that matches `k` determines `value_of`.
proof fn lemma_value_at(es: Seq<StrPair>, k: Seq<char>, i: int)
    requires
        forall|p: int, q: int|
            #![trigger es[p], es[q]]
            0 <= p < q < es.len() ==> es[p].key@ != es[q].key@,
        0 <= i < es.len(),
        es[i].key@ == k,
    ensures
        value_of(es, k) == es[i].value@,
{
    let j = choose|j: int| 0 <= j < es.len() && es[j].key@ == k;
    if i < j {
        assert(es[i].key@ != es[j].key@);
    } else if j < i {
        assert(es[j].key@ != es[i].key@);
    }
}

impl StrMap {
    /// Keys are pairwise distinct.
    pub open spec fn wf(self) -> bool {
        forall|i: int, j: int|
            #![trigger self.entries@[i], self.entries@[j]]
            0 <= i < j < self.entries@.len() ==> self.entries@[i].key@ != self.entries@[j].key@
    }

    /// The empty map.
    pub fn new() -> (r: StrMap)
        ensures
            r.wf(),
            r@ == Map::<Seq<char>, Seq<char>>::empty(),
            r.entries@.len() == 0,
    {
        let r = StrMap { entries: Vec::new() };
        proof {
            assert(r@ =~= Map::<Seq<char>, Seq<char>>::empty());
        }
        r
    }

    /// The index of the entry with key `k`, if one exists.
    fn position_of(&self, k: &str) -> (r: Option<usize>)
        ensures
            match r {
                Some(i) => i < self.entries@.len() && self.entries@[i as int].key@ == k@,
                None => !has_key(self.entries@, k@),
            },
    {
        let mut i: usize = 0;
        while i < self.entries.len()
            invariant
                i <= self.entries@.len(),
                forall|j: int| 0 <= j < i ==> self.entries@[j].key@ != k@,
            decreases self.entries@.len() - i,
        {
            if str_eq(self.entries[i].key.as_str(), k) {
                return Some(i);
            }
            i += 1;
        }
        None
    }

    /// Whether `k` is a key of the map.
    pub fn contains_key(&self, k: &str) -> (r: bool)
        ensures
            r == self@.dom().contains(k@),
    {
        self.position_of(k).is_some()
    }

    /// The value mapped to `k`, if any.
    pub fn get(&self, k: &str) -> (r: Option<&String>)
        requires
            self.wf(),
        ensures
            match r {
                Some(v) => self@.dom().contains(k@) && v@ == self@[k@],
                None => !self@.dom().contains(k@),
            },
    {
        match self.position_of(k) {
            Some(i) => {
                proof {
                    lemma_value_at(self.entries@, k@, i as int);
                }
                Some(&self.entries[i].value)
            },
            None => None,
        }
    }

    /// Maps `k` to `v`, replacing any previous entry for `k`.
    pub fn insert(&mut self, k: &str, v: &str)
        requires
            old(self).wf(),
        ensures
            final(self).wf(),
            final(self)@ == old(self)@.insert(k@, v@),
            final(self).entries@.len() <= old(self).entries@.len() + 1,
    {
        let ghost es0 = self.entries@;
        match self.position_of(k) {
            Some(i) => {
                self.entries.remove(i);
                proof {
                    let es1 = self.entries@;
                    assert forall|x: Seq<char>| has_key(es1, x) implies has_key(es0, x) by {
                        let j = choose|j: int| 0 <= j < es1.len() && es1[j].key@ == x;
                        if j < i {
                            assert(es0[j].key@ == x);
                        } else {
                            assert(es0[j + 1].key@ == x);
                        }
                    }
                    assert forall|x: Seq<char>| has_key(es0, x) && x != k@ implies has_key(
                        es1,
                        x,
                    ) by {
                        let j = choose|j: int| 0 <= j < es0.len() && es0[j].key@ == x;
                        if j < i {
                            assert(es1[j].key@ == x);
                        } else if j > i {
                            assert(es1[j - 1].key@ == x);
                        }
                    }
                    assert forall|x: Seq<char>| has_key(es1, x) && has_key(es0, x) implies value_of(
                        es1,
                        x,
                    ) == value_of(es0, x) by {
                        let j = choose|j: int| 0 <= j < es1.len() && es1[j].key@ == x;
                        if j < i {
                            lemma_value_at(es0, x, j);
                        } else {
                            lemma_value_at(es0, x, j + 1);
                        }
                        lemma_value_at(es1, x, j);
                    }
                    assert(!has_key(es1, k@)) by {
                        if has_key(es1, k@) {
                            let j = choose|j: int| 0 <= j < es1.len() && es1[j].key@ == k@;
                            if j < i {
                                assert(es0[j].key@ != es0[i as int].key@);
                            } else {
                                assert(es0[i as int].key@ != es0[j + 1].key@);
                            }
                        }
                    }
                }
                self.push_fresh(k, v);
                proof {
                    assert(self@ =~= old(self)@.insert(k@, v@));
                }
            },
            None => {
                self.push_fresh(k, v);
                proof {
                    assert(self@ =~= old(self)@.insert(k@, v@));
                }
            },
        }
    }

    /// Appends an entry whose key is not yet present.
    fn push_fresh(&mut self, k: &str, v: &str)
        requires
            old(self).wf(),
            !has_key(old(self).entries@, k@),
        ensures
            final(self).wf(),
            final(self).entries@.len() == old(self).entries@.len() + 1,
            forall|x: Seq<char>|
                has_key(final(self).entries@, x) <==> (x == k@ || has_key(old(self).entries@, x)),
            forall|x: Seq<char>|
                has_key(old(self).entries@, x) ==> value_of(final(self).entries@, x) == value_of(
                    old(self).entries@,
                    x,
                ),
            value_of(final(self).entries@, k@) == v@,
    {
        let ghost es0 = self.entries@;
        let mut key = String::new();
        key.append(k);
        let mut value = String::new();
        value.append(v);
        self.entries.push(StrPair { key, value });
        proof {
            let es1 = self.entries@;
            assert forall|x: Seq<char>| has_key(es1, x) implies (x == k@ || has_key(es0, x)) by {
                let j = choose|j: int| 0 <= j < es1.len() && es1[j].key@ == x;
                if j < es0.len() {
                    assert(es0[j].key@ == x);
                }
            }
            assert forall|x: Seq<char>| has_key(es0, x) implies has_key(es1, x) by {
                let j = choose|j: int| 0 <= j < es0.len() && es0[j].key@ == x;
                assert(es1[j].key@ == x);
            }
            assert(es1[es0.len() as int].key@ == k@);
            assert forall|x: Seq<char>| has_key(es0, x) implies value_of(es1, x) == value_of(
                es0,
                x,
            ) by {
                let j = choose|j: int| 0 <= j < es0.len() && es0[j].key@ == x;
                lemma_value_at(es0, x, j);
                lemma_value_at(es1, x, j);
            }
            lemma_value_at(es1, k@, es0.len() as int);
        }
    }

    /// Removes the entry for `k`, returning its value if one was present.
    pub fn remove(&mut self, k: &str) -> (r: Option<String>)
        requires
            old(self).wf(),
        ensures
            final(self).wf(),
            final(self)@ == old(self)@.remove(k@),
            final(self).entries@.len() <= old(self).entries@.len(),
            match r {
                Some(v) => old(self)@.dom().contains(k@) && v@ == old(self)@[k@],
                None => !old(self)@.dom().contains(k@),
            },
    {
        let ghost es0 = self.entries@;
        match self.position_of(k) {
            Some(i) => {
                proof {
                    lemma_value_at(es0, k@, i as int);
                }
                let pair = self.entries.remove(i);
                proof {
                    let es1 = self.entries@;
                    assert forall|x: Seq<char>| has_key(es1, x) implies has_key(es0, x) && x
                        != k@ by {
                        let j = choose|j: int| 0 <= j < es1.len() && es1[j].key@ == x;
                        if j < i {
                            assert(es0[j].key@ == x);
                            assert(es0[j].key@ != es0[i as int].key@);
                        } else {
                            assert(es0[j + 1].key@ == x);
                            assert(es0[i as int].key@ != es0[j + 1].key@);
                        }
                    }
                    assert forall|x: Seq<char>| has_key(es0, x) && x != k@ implies has_key(
                        es1,
                        x,
                    ) by {
                        let j = choose|j: int| 0 <= j < es0.len() && es0[j].key@ == x;
                        if j < i {
                            assert(es1[j].key@ == x);
                        } else if j > i {
                            assert(es1[j - 1].key@ == x);
                        } else {
                            assert(es0[i as int].key@ == k@);
                        }
                    }
                    assert forall|x: Seq<char>| has_key(es1, x) implies value_of(es1, x)
                        == value_of(es0, x) by {
                        let j = choose|j: int| 0 <= j < es1.len() && es1[j].key@ == x;
                        if j < i {
                            lemma_value_at(es0, x, j);
                        } else {
                            lemma_value_at(es0, x, j + 1);
                        }
                        lemma_value_at(es1, x, j);
                    }
                    assert(self@ =~= old(self)@.remove(k@));
                }
                Some(pair.value)
            },
            None => {
                proof {
                    assert(self@ =~= old(self)@.remove(k@));
                }
                None
            },
        }
    }

    /// The number of entries.
    pub fn entry_count(&self) -> (r: usize)
        ensures
            r == self.entries@.len(),
    {
        self.entries.len()
    }
}

/// A set of strings: a vector with pairwise-distinct elements.
pub struct StrSet {
    pub items: Vec<String>,
}

impl View for StrSet {
    type V = Set<Seq<char>>;

    open spec fn view(&self) -> Set<Seq<char>> {
        Set::new(|x: Seq<char>| seq_has_str(self.items@, x))
    }
}

impl StrSet {
    /// Elements are pairwise distinct.
    pub open spec fn wf(self) -> bool {
        forall|i: int, j: int|
            #![trigger self.items@[i], self.items@[j]]
            0 <= i < j < self.items@.len() ==> self.items@[i]@ != self.items@[j]@
    }

    /// The empty set.
    pub fn new() -> (r: StrSet)
        ensures
            r.wf(),
            r@ == Set::<Seq<char>>::empty(),
            r.items@.len() == 0,
    {
        let r = StrSet { items: Vec::new() };
        proof {
            assert(r@ =~= Set::<Seq<char>>::empty());
        }
        r
    }

    /// Whether `x` is in the set.
    pub fn contains(&self, x: &str) -> (r: bool)
        ensures
            r == self@.contains(x@),
    {
        vec_has_str(&self.items, x)
    }

    /// The index of `x`, if it is present.
    fn position_of(&self, x: &str) -> (r: Option<usize>)
        ensures
            match r {
                Some(i) => i < self.items@.len() && self.items@[i as int]@ == x@,
                None => !seq_has_str(self.items@, x@),
            },
    {
        let mut i: usize = 0;
        while i < self.items.len()
            invariant
                i <= self.items@.len(),
                forall|j: int| 0 <= j < i ==> self.items@[j]@ != x@,
            decreases self.items@.len() - i,
        {
            if str_eq(self.items[i].as_str(), x) {
                return Some(i);
            }
            i += 1;
        }
        None
    }

    /// Adds `x`; a no-op if it is already present.
    pub fn insert(&mut self, x: &str)
        requires
            old(self).wf(),
        ensures
            final(self).wf(),
            final(self)@ == old(self)@.insert(x@),
            final(self).items@.len() <= old(self).items@.len() + 1,
    {
        let ghost is0 = self.items@;
        if !vec_has_str(&self.items, x) {
            let mut item = String::new();
            item.append(x);
            self.items.push(item);
            proof {
                let is1 = self.items@;
                assert forall|y: Seq<char>| seq_has_str(is1, y) implies (y == x@ || seq_has_str(
                    is0,
                    y,
                )) by {
                    let j = choose|j: int| 0 <= j < is1.len() && is1[j]@ == y;
                    if j < is0.len() {
                        assert(is0[j]@ == y);
                    }
                }
                assert forall|y: Seq<char>| seq_has_str(is0, y) implies seq_has_str(is1, y) by {
                    let j = choose|j: int| 0 <= j < is0.len() && is0[j]@ == y;
                    assert(is1[j]@ == y);
                }
                assert(is1[is0.len() as int]@ == x@);
                assert(self@ =~= old(self)@.insert(x@));
            }
        } else {
            proof {
                assert(self@ =~= old(self)@.insert(x@));
            }
        }
    }

    /// Removes `x`, reporting whether it was present.
    pub fn remove(&mut self, x: &str) -> (r: bool)
        requires
            old(self).wf(),
        ensures
            final(self).wf(),
            final(self)@ == old(self)@.remove(x@),
            r == old(self)@.contains(x@),
            final(self).items@.len() <= old(self).items@.len(),
    {
        let ghost is0 = self.items@;
        match self.position_of(x) {
            Some(i) => {
                self.items.remove(i);
                proof {
                    let is1 = self.items@;
                    assert forall|y: Seq<char>| seq_has_str(is1, y) implies seq_has_str(is0, y) && y
                        != x@ by {
                        let j = choose|j: int| 0 <= j < is1.len() && is1[j]@ == y;
                        if j < i {
                            assert(is0[j]@ == y);
                            assert(is0[j]@ != is0[i as int]@);
                        } else {
                            assert(is0[j + 1]@ == y);
                            assert(is0[i as int]@ != is0[j + 1]@);
                        }
                    }
                    assert forall|y: Seq<char>| seq_has_str(is0, y) && y != x@ implies seq_has_str(
                        is1,
                        y,
                    ) by {
                        let j = choose|j: int| 0 <= j < is0.len() && is0[j]@ == y;
                        if j < i {
                            assert(is1[j]@ == y);
                        } else if j > i {
                            assert(is1[j - 1]@ == y);
                        } else {
                            assert(is0[i as int]@ == x@);
                        }
                    }
                    assert(self@ =~= old(self)@.remove(x@));
                    assert(seq_has_str(is0, x@));
                }
                true
            },
            None => {
                proof {
                    assert(self@ =~= old(self)@.remove(x@));
                }
                false
            },
        }
    }

    /// The number of elements.
    pub fn item_count(&self) -> (r: usize)
        ensures
            r == self.items@.len(),
    {
        self.items.len()
    }
}

} // verus!
