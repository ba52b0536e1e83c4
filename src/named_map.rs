//! A map from names to values that keeps the order in which names first
//! arrived; inserting under a name that is already present replaces the value
//! in place.

use vstd::prelude::*;

verus! {

/// The first index at which `k` occurs in `s`, or -1.
pub open spec fn first_index(s: Seq<Seq<char>>, k: Seq<char>) -> int
    decreases s.len(),
{
    if s.len() == 0 {
        -1
    } else if first_index(s.drop_last(), k) >= 0 {
        first_index(s.drop_last(), k)
    } else if s.last() == k {
        s.len() - 1
    } else {
        -1
    }
}

/// The last index at which `k` occurs in `s`, or -1.
pub open spec fn last_index(s: Seq<Seq<char>>, k: Seq<char>) -> int
    decreases s.len(),
{
    if s.len() == 0 {
        -1
    } else if s.last() == k {
        s.len() - 1
    } else {
        last_index(s.drop_last(), k)
    }
}

/// `s` without repeated names, each kept where it first occurs.
pub open spec fn dedup(s: Seq<Seq<char>>) -> Seq<Seq<char>>
    decreases s.len(),
{
    if s.len() == 0 {
        s
    } else if dedup(s.drop_last()).contains(s.last()) {
        dedup(s.drop_last())
    } else {
        dedup(s.drop_last()).push(s.last())
    }
}

pub proof fn lemma_last_index(s: Seq<Seq<char>>, k: Seq<char>)
    ensures
        -1 <= last_index(s, k) < s.len(),
        last_index(s, k) >= 0 ==> s[last_index(s, k)] == k,
        last_index(s, k) >= 0 ==> forall|j: int| last_index(s, k) < j < s.len() ==> s[j] != k,
        last_index(s, k) == -1 <==> !s.contains(k),
    decreases s.len(),
{
    if s.len() > 0 {
        let p = s.drop_last();
        lemma_last_index(p, k);
        assert forall|j: int| 0 <= j < p.len() implies p[j] == s[j] by {}
        if s.last() != k && s.contains(k) {
            let j = choose|j: int| 0 <= j < s.len() && s[j] == k;
            assert(p[j] == k);
        }
    }
}

pub proof fn lemma_last_index_push(s: Seq<Seq<char>>, x: Seq<char>, k: Seq<char>)
    ensures
        last_index(s.push(x), k) == if k == x { s.len() as int } else { last_index(s, k) },
{
    assert(s.push(x).drop_last() =~= s);
}

pub proof fn lemma_dedup(s: Seq<Seq<char>>)
    ensures
        forall|k: Seq<char>| dedup(s).contains(k) <==> s.contains(k),
        forall|i: int, j: int| 0 <= i < j < dedup(s).len() ==> dedup(s)[i] != dedup(s)[j],
    decreases s.len(),
{
    if s.len() > 0 {
        let p = s.drop_last();
        let x = s.last();
        lemma_dedup(p);
        let d = dedup(p);
        assert forall|k: Seq<char>| dedup(s).contains(k) <==> s.contains(k) by {
            if s.contains(k) && k != x {
                let j = choose|j: int| 0 <= j < s.len() && s[j] == k;
                assert(p[j] == k);
            }
            if p.contains(k) {
                let j = choose|j: int| 0 <= j < p.len() && p[j] == k;
                assert(s[j] == k);
            }
            if !d.contains(x) {
                assert(d.push(x)[d.len() as int] == x);
                if d.push(x).contains(k) && k != x {
                    let j = choose|j: int| 0 <= j < d.push(x).len() && d.push(x)[j] == k;
                    assert(d[j] == k);
                }
                if d.contains(k) {
                    let j = choose|j: int| 0 <= j < d.len() && d[j] == k;
                    assert(d.push(x)[j] == k);
                }
            }
        }
    }
}

pub proof fn lemma_dedup_push(s: Seq<Seq<char>>, x: Seq<char>)
    ensures
        dedup(s.push(x)) == if s.contains(x) { dedup(s) } else { dedup(s).push(x) },
{
    assert(s.push(x).drop_last() =~= s);
    lemma_dedup(s);
}

/// What one more name does to the distinct names and to the last index of
/// each name.
pub proof fn lemma_names_step(names: Seq<Seq<char>>, i: int)
    requires
        0 <= i < names.len(),
    ensures
        names.take(i + 1) == names.take(i).push(names[i]),
        dedup(names.take(i + 1)) == if dedup(names.take(i)).contains(names[i]) {
            dedup(names.take(i))
        } else {
            dedup(names.take(i)).push(names[i])
        },
        forall|k: Seq<char>|
            #[trigger] last_index(names.take(i + 1), k) == if k == names[i] {
                i
            } else {
                last_index(names.take(i), k)
            },
        forall|k: Seq<char>| #[trigger] dedup(names.take(i)).contains(k) <==> names.take(i).contains(k),
        forall|k: Seq<char>|
            dedup(names.take(i)).contains(k) ==> 0 <= #[trigger] last_index(names.take(i), k) < i
                && names[last_index(names.take(i), k)] == k,
{
    let p = names.take(i);
    assert(names.take(i + 1) =~= p.push(names[i]));
    lemma_dedup_push(p, names[i]);
    lemma_dedup(p);
    assert forall|k: Seq<char>| #[trigger]
        last_index(names.take(i + 1), k) == if k == names[i] {
            i
        } else {
            last_index(p, k)
        } by {
        lemma_last_index_push(p, names[i], k);
    }
    assert forall|k: Seq<char>| dedup(p).contains(k) implies 0 <= #[trigger] last_index(p, k) < i
        && names[last_index(p, k)] == k by {
        lemma_last_index(p, k);
    }
}

/// What one more name at the end does to the distinct names and to the
/// last index of each name.
pub proof fn lemma_names_push(s: Seq<Seq<char>>, x: Seq<char>)
    ensures
        dedup(s.push(x)) == if dedup(s).contains(x) {
            dedup(s)
        } else {
            dedup(s).push(x)
        },
        forall|k: Seq<char>|
            #[trigger] last_index(s.push(x), k) == if k == x {
                s.len() as int
            } else {
                last_index(s, k)
            },
        forall|k: Seq<char>| #[trigger] dedup(s).contains(k) <==> s.contains(k),
        forall|k: Seq<char>|
            dedup(s).contains(k) ==> 0 <= #[trigger] last_index(s, k) < s.len() && s[last_index(
                s,
                k,
            )] == k,
{
    lemma_names_step(s.push(x), s.len() as int);
    assert(s.push(x).take(s.len() as int) =~= s);
    assert(s.push(x).take(s.len() as int + 1) =~= s.push(x));
}

/// The distinct names of a whole list, from its prefixes.
pub proof fn lemma_names_all(names: Seq<Seq<char>>)
    ensures
        names.take(names.len() as int) == names,
        forall|k: Seq<char>| #[trigger] dedup(names).contains(k) <==> names.contains(k),
        forall|k: Seq<char>|
            names.contains(k) ==> 0 <= #[trigger] last_index(names, k) < names.len()
                && names[last_index(names, k)] == k,
{
    assert(names.take(names.len() as int) =~= names);
    lemma_dedup(names);
    assert forall|k: Seq<char>| names.contains(k) implies 0 <= #[trigger] last_index(names, k)
        < names.len() && names[last_index(names, k)] == k by {
        lemma_last_index(names, k);
    }
}

/// Names mapped to values, in the order in which each name was first
/// inserted, with every name present at most once.
#[derive(Debug)]
pub struct NamedMap<V> {
    pub entries: Vec<(String, V)>,
}

impl<V> NamedMap<V> {
    /// The names, in order.
    pub open spec fn keys(&self) -> Seq<Seq<char>> {
        self.entries@.map_values(|e: (String, V)| e.0@)
    }

    /// No name occurs twice.
    pub open spec fn wf(&self) -> bool {
        forall|i: int, j: int| 0 <= i < j < self.entries@.len() ==> self.keys()[i] != self.keys()[j]
    }

    pub open spec fn contains_key(&self, k: Seq<char>) -> bool {
        self.keys().contains(k)
    }

    /// The value stored under `k`, where `k` is present.
    pub open spec fn value_of(&self, k: Seq<char>) -> V {
        self.entries@[first_index(self.keys(), k)].1
    }

    pub open spec fn spec_len(&self) -> nat {
        self.entries@.len()
    }

    pub proof fn lemma_first_index(&self, k: Seq<char>)
        ensures
            -1 <= first_index(self.keys(), k) < self.keys().len(),
            first_index(self.keys(), k) >= 0 ==> self.keys()[first_index(self.keys(), k)] == k,
            first_index(self.keys(), k) == -1 <==> !self.contains_key(k),
            self.wf() ==> forall|i: int|
                0 <= i < self.keys().len() && #[trigger] self.keys()[i] == k ==> i == first_index(
                    self.keys(),
                    k,
                ),
    {
        lemma_first_index(self.keys(), k);
    }

    pub fn new() -> (r: Self)
        ensures
            r.wf(),
            r.keys() == Seq::<Seq<char>>::empty(),
    {
        let r = NamedMap { entries: Vec::new() };
        assert(r.keys() =~= Seq::<Seq<char>>::empty());
        r
    }

    pub fn len(&self) -> (r: usize)
        ensures
            r == self.spec_len(),
    {
        self.entries.len()
    }

    pub fn is_empty(&self) -> (r: bool)
        ensures
            r == (self.spec_len() == 0),
    {
        self.entries.len() == 0
    }

    fn position(&self, key: &String) -> (r: Option<usize>)
        requires
            self.wf(),
        ensures
            r is None ==> !self.contains_key(key@),
            r matches Some(i) ==> i < self.spec_len() && i == first_index(self.keys(), key@),
    {
        proof {
            self.lemma_first_index(key@);
        }
        let mut i: usize = 0;
        while i < self.entries.len()
            invariant
                i <= self.entries@.len(),
                self.wf(),
                forall|j: int| 0 <= j < i ==> self.keys()[j] != key@,
                -1 <= first_index(self.keys(), key@) < self.keys().len(),
                first_index(self.keys(), key@) >= 0 ==> self.keys()[first_index(self.keys(), key@)]
                    == key@,
                first_index(self.keys(), key@) == -1 <==> !self.contains_key(key@),
                forall|j: int|
                    0 <= j < self.keys().len() && #[trigger] self.keys()[j] == key@ ==> j
                        == first_index(self.keys(), key@),
            decreases self.entries@.len() - i,
        {
            if self.entries[i].0 == *key {
                assert(self.keys()[i as int] == key@);
                return Some(i);
            }
            i = i + 1;
        }
        None
    }

    /// The value stored under `key`.
    pub fn get(&self, key: &str) -> (r: Option<&V>)
        requires
            self.wf(),
        ensures
            r is None <==> !self.contains_key(key@),
            r matches Some(v) ==> *v == self.value_of(key@),
    {
        let k = String::from_str(key);
        proof {
            self.lemma_first_index(key@);
        }
        match self.position(&k) {
            Some(i) => Some(&self.entries[i].1),
            None => None,
        }
    }

    /// Stores `value` under `key`, replacing the value that was there; a new
    /// name goes last.
    pub fn insert(&mut self, key: String, value: V)
        requires
            old(self).wf(),
        ensures
            final(self).wf(),
            final(self).keys() == if old(self).contains_key(key@) {
                old(self).keys()
            } else {
                old(self).keys().push(key@)
            },
            final(self).value_of(key@) == value,
            forall|k: Seq<char>|
                k != key@ && old(self).contains_key(k) ==> #[trigger] final(self).value_of(k)
                    == old(self).value_of(k),
    {
        match self.position(&key) {
            Some(i) => {
                let ghost k = key@;
                proof {
                    self.lemma_first_index(k);
                }
                self.entries.set(i, (key, value));
                assert(self.keys() =~= old(self).keys());
                proof {
                    self.lemma_first_index(k);
                    assert forall|k2: Seq<char>|
                        k2 != k && old(self).contains_key(k2) implies #[trigger] self.value_of(k2)
                        == old(self).value_of(k2) by {
                        self.lemma_first_index(k2);
                        old(self).lemma_first_index(k2);
                    }
                }
            },
            None => {
                let ghost k = key@;
                self.entries.push((key, value));
                assert(self.keys() =~= old(self).keys().push(k));
                proof {
                    lemma_first_index_push(old(self).keys(), k, k);
                    assert forall|k2: Seq<char>|
                        k2 != k && old(self).contains_key(k2) implies #[trigger] self.value_of(k2)
                        == old(self).value_of(k2) by {
                        lemma_first_index_push(old(self).keys(), k, k2);
                        old(self).lemma_first_index(k2);
                    }
                }
            },
        }
    }
}

pub proof fn lemma_first_index(s: Seq<Seq<char>>, k: Seq<char>)
    ensures
        -1 <= first_index(s, k) < s.len(),
        first_index(s, k) >= 0 ==> s[first_index(s, k)] == k,
        first_index(s, k) >= 0 ==> forall|j: int| 0 <= j < first_index(s, k) ==> s[j] != k,
        first_index(s, k) == -1 <==> !s.contains(k),
        (forall|i: int, j: int| 0 <= i < j < s.len() ==> s[i] != s[j]) ==> forall|i: int|
            0 <= i < s.len() && #[trigger] s[i] == k ==> i == first_index(s, k),
    decreases s.len(),
{
    if s.len() > 0 {
        let p = s.drop_last();
        lemma_first_index(p, k);
        assert forall|j: int| 0 <= j < p.len() implies p[j] == s[j] by {}
        if s.contains(k) && first_index(s.drop_last(), k) < 0 {
            let j = choose|j: int| 0 <= j < s.len() && s[j] == k;
            if j < s.len() - 1 {
                assert(s.drop_last()[j] == k);
            }
        }
    }
}

pub proof fn lemma_first_index_push(s: Seq<Seq<char>>, x: Seq<char>, k: Seq<char>)
    ensures
        first_index(s.push(x), k) == if s.contains(k) {
            first_index(s, k)
        } else if k == x {
            s.len() as int
        } else {
            -1
        },
{
    assert(s.push(x).drop_last() =~= s);
    lemma_first_index(s, k);
}

} // verus!
