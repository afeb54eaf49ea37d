//! Keyed record trees: records stored under text keys and kept in the
//! order of their keys, as the embedded key-value database holds them.

use vstd::prelude::*;
use crate::text::{
    lemma_text_lt_irreflexive, lemma_text_lt_total, lemma_text_lt_transitive, same_text, text_before,
    text_lt, texts,
};

verus! {

/// A record that a tree can hand out as a copy with the same view.
pub trait Record: View + Sized {
    fn duplicate(&self) -> (r: Self)
        ensures
            r@ == self@,
    ;
}

/// Keys in strictly increasing order, hence without repetition.
pub open spec fn sorted_keys(ks: Seq<Seq<char>>) -> bool {
    forall|i: int, j: int| 0 <= i < j < ks.len() ==> text_lt(#[trigger] ks[i], #[trigger] ks[j])
}

/// The views of a sequence of values.
pub open spec fn views<V: View>(s: Seq<V>) -> Seq<V::V> {
    s.map_values(|v: V| v@)
}

/// Whether `k` is among the keys.
pub open spec fn has_key(ks: Seq<Seq<char>>, k: Seq<char>) -> bool {
    exists|i: int| 0 <= i < ks.len() && #[trigger] ks[i] == k
}

/// A position of `k` among the keys, when it is there.
pub open spec fn key_index(ks: Seq<Seq<char>>, k: Seq<char>) -> int {
    choose|i: int| 0 <= i < ks.len() && #[trigger] ks[i] == k
}

/// The value stored under `k`, when one is.
pub open spec fn find_in<T>(ks: Seq<Seq<char>>, vs: Seq<T>, k: Seq<char>) -> Option<T> {
    if has_key(ks, k) {
        Some(vs[key_index(ks, k)])
    } else {
        None
    }
}

proof fn lemma_find_at<T>(ks: Seq<Seq<char>>, vs: Seq<T>, i: int)
    requires
        sorted_keys(ks),
        ks.len() == vs.len(),
        0 <= i < ks.len(),
    ensures
        find_in(ks, vs, ks[i]) == Some(vs[i]),
{
    let k = ks[i];
    assert(0 <= i < ks.len() && ks[i] == k);
    assert(has_key(ks, k));
    let j = key_index(ks, k);
    if j < i {
        assert(text_lt(ks[j], ks[i]));
        lemma_text_lt_irreflexive(k);
    } else if i < j {
        assert(text_lt(ks[i], ks[j]));
        lemma_text_lt_irreflexive(k);
    }
}

proof fn lemma_find_absent<T>(ks: Seq<Seq<char>>, vs: Seq<T>, k: Seq<char>)
    requires
        forall|i: int| 0 <= i < ks.len() ==> ks[i] != k,
    ensures
        find_in(ks, vs, k) == None::<T>,
{
}

proof fn lemma_insert<T>(ks: Seq<Seq<char>>, vs: Seq<T>, p: int, k: Seq<char>, v: T)
    requires
        sorted_keys(ks),
        ks.len() == vs.len(),
        0 <= p <= ks.len(),
        forall|j: int| 0 <= j < p ==> text_lt(#[trigger] ks[j], k),
        forall|j: int| p <= j < ks.len() ==> text_lt(k, #[trigger] ks[j]),
    ensures
        sorted_keys(ks.insert(p, k)),
        find_in(ks.insert(p, k), vs.insert(p, v), k) == Some(v),
        forall|k2: Seq<char>|
            k2 != k ==> find_in(ks.insert(p, k), vs.insert(p, v), k2) == find_in(ks, vs, k2),
{
    let nks = ks.insert(p, k);
    let nvs = vs.insert(p, v);
    assert forall|i: int, j: int| 0 <= i < j < nks.len() implies text_lt(
        #[trigger] nks[i],
        #[trigger] nks[j],
    ) by {
        if j < p {
            assert(nks[i] == ks[i] && nks[j] == ks[j]);
        } else if j == p {
            assert(nks[i] == ks[i]);
        } else if i < p {
            assert(nks[i] == ks[i] && nks[j] == ks[j - 1]);
            lemma_text_lt_transitive(ks[i], k, ks[j - 1]);
        } else if i == p {
            assert(nks[j] == ks[j - 1]);
        } else {
            assert(nks[i] == ks[i - 1] && nks[j] == ks[j - 1]);
        }
    }
    assert(nks[p] == k);
    lemma_find_at(nks, nvs, p);
    assert forall|k2: Seq<char>| k2 != k implies find_in(nks, nvs, k2) == find_in(ks, vs, k2) by {
        if has_key(ks, k2) {
            let i = key_index(ks, k2);
            lemma_find_at(ks, vs, i);
            if i < p {
                assert(nks[i] == ks[i] && nvs[i] == vs[i]);
                lemma_find_at(nks, nvs, i);
            } else {
                assert(nks[i + 1] == ks[i] && nvs[i + 1] == vs[i]);
                lemma_find_at(nks, nvs, i + 1);
            }
        } else {
            assert forall|i: int| 0 <= i < nks.len() implies nks[i] != k2 by {
                if i < p {
                    assert(nks[i] == ks[i]);
                } else if i > p {
                    assert(nks[i] == ks[i - 1]);
                }
            }
            lemma_find_absent(nks, nvs, k2);
        }
    }
}

proof fn lemma_update<T>(ks: Seq<Seq<char>>, vs: Seq<T>, p: int, v: T)
    requires
        sorted_keys(ks),
        ks.len() == vs.len(),
        0 <= p < ks.len(),
    ensures
        find_in(ks, vs.update(p, v), ks[p]) == Some(v),
        forall|k2: Seq<char>|
            k2 != ks[p] ==> find_in(ks, vs.update(p, v), k2) == find_in(ks, vs, k2),
{
    let nvs = vs.update(p, v);
    lemma_find_at(ks, nvs, p);
    assert forall|k2: Seq<char>| k2 != ks[p] implies find_in(ks, nvs, k2) == find_in(ks, vs, k2) by {
        if has_key(ks, k2) {
            let i = key_index(ks, k2);
            lemma_find_at(ks, vs, i);
            lemma_find_at(ks, nvs, i);
        }
    }
}

proof fn lemma_remove<T>(ks: Seq<Seq<char>>, vs: Seq<T>, p: int)
    requires
        sorted_keys(ks),
        ks.len() == vs.len(),
        0 <= p < ks.len(),
    ensures
        sorted_keys(ks.remove(p)),
        find_in(ks.remove(p), vs.remove(p), ks[p]) == None::<T>,
        forall|k2: Seq<char>|
            k2 != ks[p] ==> find_in(ks.remove(p), vs.remove(p), k2) == find_in(ks, vs, k2),
{
    let k = ks[p];
    let nks = ks.remove(p);
    let nvs = vs.remove(p);
    assert forall|i: int, j: int| 0 <= i < j < nks.len() implies text_lt(
        #[trigger] nks[i],
        #[trigger] nks[j],
    ) by {
        let oi = if i < p {
            i
        } else {
            i + 1
        };
        let oj = if j < p {
            j
        } else {
            j + 1
        };
        assert(nks[i] == ks[oi] && nks[j] == ks[oj]);
    }
    assert forall|i: int| 0 <= i < nks.len() implies nks[i] != k by {
        if i < p {
            assert(nks[i] == ks[i]);
            assert(text_lt(ks[i], ks[p]));
        } else {
            assert(nks[i] == ks[i + 1]);
            assert(text_lt(ks[p], ks[i + 1]));
        }
        lemma_text_lt_irreflexive(k);
    }
    lemma_find_absent(nks, nvs, k);
    assert forall|k2: Seq<char>| k2 != k implies find_in(nks, nvs, k2) == find_in(ks, vs, k2) by {
        if has_key(ks, k2) {
            let i = key_index(ks, k2);
            lemma_find_at(ks, vs, i);
            if i < p {
                assert(nks[i] == ks[i] && nvs[i] == vs[i]);
                lemma_find_at(nks, nvs, i);
            } else {
                assert(i != p);
                assert(nks[i - 1] == ks[i] && nvs[i - 1] == vs[i]);
                lemma_find_at(nks, nvs, i - 1);
            }
        } else {
            assert forall|i: int| 0 <= i < nks.len() implies nks[i] != k2 by {
                if i < p {
                    assert(nks[i] == ks[i]);
                } else {
                    assert(nks[i] == ks[i + 1]);
                }
            }
            lemma_find_absent(nks, nvs, k2);
        }
    }
}

/// Records kept under text keys, in the order of their keys.
pub struct Tree<V> {
    keys: Vec<String>,
    vals: Vec<V>,
}

impl<V: Record> Tree<V> {
    /// The keys, in order.
    pub closed spec fn key_list(&self) -> Seq<Seq<char>> {
        texts(self.keys@)
    }

    /// The views of the records, in the order of their keys.
    pub closed spec fn value_list(&self) -> Seq<V::V> {
        views(self.vals@)
    }

    /// The view of the record under `k`, if one is stored.
    pub closed spec fn lookup(&self, k: Seq<char>) -> Option<V::V> {
        find_in(self.key_list(), self.value_list(), k)
    }

    /// One record per key and keys in increasing order.
    pub closed spec fn wf(&self) -> bool {
        &&& self.keys@.len() == self.vals@.len()
        &&& sorted_keys(self.key_list())
    }

    /// An empty tree.
    pub fn new() -> (t: Self)
        ensures
            t.wf(),
            t.value_list().len() == 0,
            forall|k: Seq<char>| t.lookup(k) == None::<V::V>,
    {
        let t = Tree { keys: Vec::new(), vals: Vec::new() };
        proof {
            assert forall|k: Seq<char>| t.lookup(k) == None::<V::V> by {
                lemma_find_absent(t.key_list(), t.value_list(), k);
            }
        }
        t
    }

    /// The listing of a tree holds exactly its records, one per key, in
    /// strictly increasing order of the keys.
    pub proof fn lemma_listing(self)
        requires
            self.wf(),
        ensures
            self.key_list().len() == self.value_list().len(),
            sorted_keys(self.key_list()),
            forall|i: int|
                0 <= i < self.key_list().len() ==> self.lookup(#[trigger] self.key_list()[i])
                    == Some(self.value_list()[i]),
            forall|k: Seq<char>| #[trigger] self.lookup(k) is Some <==> self.key_list().contains(k),
    {
        assert forall|i: int| 0 <= i < self.key_list().len() implies self.lookup(
            #[trigger] self.key_list()[i],
        ) == Some(self.value_list()[i]) by {
            lemma_find_at(self.key_list(), self.value_list(), i);
        }
        assert forall|k: Seq<char>| #[trigger] self.lookup(k) is Some <==> self.key_list().contains(
            k,
        ) by {
            if self.key_list().contains(k) {
                let i = choose|i: int| 0 <= i < self.key_list().len() && self.key_list()[i] == k;
                lemma_find_at(self.key_list(), self.value_list(), i);
            }
        }
    }

    /// The number of records.
    pub fn len(&self) -> (n: usize)
        requires
            self.wf(),
        ensures
            n == self.value_list().len(),
    {
        self.keys.len()
    }

    /// Where `key` stands or would stand among the keys.
    fn locate(&self, key: &str) -> (r: (bool, usize))
        requires
            self.wf(),
        ensures
            r.1 <= self.key_list().len(),
            forall|j: int| 0 <= j < r.1 ==> text_lt(#[trigger] self.key_list()[j], key@),
            r.0 ==> r.1 < self.key_list().len() && self.key_list()[r.1 as int] == key@,
            !r.0 ==> forall|j: int|
                r.1 <= j < self.key_list().len() ==> text_lt(key@, #[trigger] self.key_list()[j]),
    {
        let n = self.keys.len();
        let mut i: usize = 0;
        while i < n && text_before(self.keys[i].as_str(), key)
            invariant
                self.wf(),
                n == self.key_list().len(),
                i <= n,
                forall|j: int| 0 <= j < i ==> text_lt(#[trigger] self.key_list()[j], key@),
            decreases n - i,
        {
            assert(self.key_list()[i as int] == self.keys@[i as int]@);
            i = i + 1;
        }
        if i < n && same_text(self.keys[i].as_str(), key) {
            assert(self.key_list()[i as int] == self.keys@[i as int]@);
            (true, i)
        } else {
            proof {
                if i < n {
                    let ki = self.key_list()[i as int];
                    assert(ki == self.keys@[i as int]@);
                    lemma_text_lt_total(ki, key@);
                    assert forall|j: int| i <= j < n implies text_lt(
                        key@,
                        #[trigger] self.key_list()[j],
                    ) by {
                        if j > i {
                            lemma_text_lt_transitive(key@, ki, self.key_list()[j]);
                        }
                    }
                }
            }
            (false, i)
        }
    }

    /// Stores `val` under `key`, in place of the record stored there before.
    pub fn save(&mut self, key: &str, val: V)
        requires
            old(self).wf(),
        ensures
            final(self).wf(),
            final(self).lookup(key@) == Some(val@),
            forall|k: Seq<char>| k != key@ ==> final(self).lookup(k) == old(self).lookup(k),
    {
        let ghost ks = self.key_list();
        let ghost vs = self.value_list();
        let (found, i) = self.locate(key);
        if found {
            self.vals.set(i, val);
            proof {
                assert(self.key_list() =~= ks);
                assert(self.value_list() =~= vs.update(i as int, val@));
                lemma_update(ks, vs, i as int, val@);
            }
        } else {
            let ghost vv = val@;
            self.keys.insert(i, key.to_owned());
            self.vals.insert(i, val);
            proof {
                assert(self.key_list() =~= ks.insert(i as int, key@));
                assert(self.value_list() =~= vs.insert(i as int, vv));
                lemma_insert(ks, vs, i as int, key@, vv);
            }
        }
    }

    /// A copy of the record stored under `key`.
    pub fn get(&self, key: &str) -> (r: Option<V>)
        requires
            self.wf(),
        ensures
            r matches Some(v) ==> self.lookup(key@) == Some(v@),
            r is None ==> self.lookup(key@) == None::<V::V>,
    {
        let (found, i) = self.locate(key);
        if found {
            proof {
                lemma_find_at(self.key_list(), self.value_list(), i as int);
            }
            Some(self.vals[i].duplicate())
        } else {
            proof {
                assert forall|j: int| 0 <= j < self.key_list().len() implies self.key_list()[j]
                    != key@ by {
                    if j < i {
                        assert(text_lt(self.key_list()[j], key@));
                    } else {
                        assert(text_lt(key@, self.key_list()[j]));
                    }
                    lemma_text_lt_irreflexive(key@);
                }
                lemma_find_absent(self.key_list(), self.value_list(), key@);
            }
            None
        }
    }

    /// Removes the record stored under `key`, if any.
    pub fn delete(&mut self, key: &str)
        requires
            old(self).wf(),
        ensures
            final(self).wf(),
            final(self).lookup(key@) == None::<V::V>,
            forall|k: Seq<char>| k != key@ ==> final(self).lookup(k) == old(self).lookup(k),
    {
        let ghost ks = self.key_list();
        let ghost vs = self.value_list();
        let (found, i) = self.locate(key);
        if found {
            self.keys.remove(i);
            self.vals.remove(i);
            proof {
                assert(self.key_list() =~= ks.remove(i as int));
                assert(self.value_list() =~= vs.remove(i as int));
                lemma_remove(ks, vs, i as int);
            }
        } else {
            proof {
                assert forall|j: int| 0 <= j < ks.len() implies ks[j] != key@ by {
                    if j < i {
                        assert(text_lt(ks[j], key@));
                    } else {
                        assert(text_lt(key@, ks[j]));
                    }
                    lemma_text_lt_irreflexive(key@);
                }
                lemma_find_absent(ks, vs, key@);
            }
        }
    }

    /// Copies of all records, in the order of their keys.
    pub fn all(&self) -> (r: Vec<V>)
        requires
            self.wf(),
        ensures
            views(r@) == self.value_list(),
    {
        let n = self.vals.len();
        let mut r: Vec<V> = Vec::new();
        let mut i: usize = 0;
        while i < n
            invariant
                self.wf(),
                n == self.vals@.len(),
                i <= n,
                r@.len() == i,
                views(r@) == self.value_list().subrange(0, i as int),
            decreases n - i,
        {
            let d = self.vals[i].duplicate();
            assert(d@ == self.value_list()[i as int]);
            let ghost prev = r@;
            r.push(d);
            proof {
                assert forall|k: int| 0 <= k < i + 1 implies #[trigger] views(r@)[k]
                    == self.value_list()[k] by {
                    if k < i {
                        assert(r@[k] == prev[k]);
                        assert(views(prev)[k] == self.value_list().subrange(0, i as int)[k]);
                    }
                }
                assert(views(r@) =~= self.value_list().subrange(0, i + 1));
            }
            i = i + 1;
        }
        assert(self.value_list().subrange(0, n as int) =~= self.value_list());
        r
    }
}

} // verus!
