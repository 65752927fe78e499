//! A map keyed by strings, each key at most once.
use vstd::prelude::*;

verus! {

broadcast use vstd::string::group_string_axioms;

/// A map from strings to values, kept as a list of entries in which no key
/// occurs twice.
pub struct StringMap<V> {
    entries: Vec<(String, V)>,
}

/// No key occurs twice among `s`.
pub open spec fn keys_distinct<V>(s: Seq<(String, V)>) -> bool {
    forall|i: int, j: int|
        0 <= i < s.len() && 0 <= j < s.len() && i != j ==> #[trigger] s[i].0@ != #[trigger] s[j].0@
}

/// `k` is the key of one of `s`.
pub open spec fn has_key<V>(s: Seq<(String, V)>, k: Seq<char>) -> bool {
    exists|i: int| 0 <= i < s.len() && #[trigger] s[i].0@ == k
}

/// The map that a list of entries stands for.
pub open spec fn map_of<V>(s: Seq<(String, V)>) -> Map<Seq<char>, V> {
    Map::new(
        |k: Seq<char>| has_key(s, k),
        |k: Seq<char>| s[choose|i: int| 0 <= i < s.len() && #[trigger] s[i].0@ == k].1,
    )
}

/// In a list without repeated keys, the map holds each entry's value under
/// its key.
pub proof fn lemma_map_of_entry<V>(s: Seq<(String, V)>, i: int)
    requires
        keys_distinct(s),
        0 <= i < s.len(),
    ensures
        map_of(s).dom().contains(s[i].0@),
        map_of(s)[s[i].0@] == s[i].1,
{
    let k = s[i].0@;
    assert(has_key(s, k));
    let j = choose|j: int| 0 <= j < s.len() && #[trigger] s[j].0@ == k;
    assert(j == i);
}

impl<V> View for StringMap<V> {
    type V = Map<Seq<char>, V>;

    closed spec fn view(&self) -> Map<Seq<char>, V> {
        map_of(self.entries@)
    }
}

impl<V> StringMap<V> {
    #[verifier::type_invariant]
    closed spec fn inv(self) -> bool {
        keys_distinct(self.entries@)
    }

    /// The empty map.
    pub fn new() -> (res: Self)
        ensures
            res@ == Map::<Seq<char>, V>::empty(),
    {
        let res = StringMap { entries: Vec::new() };
        assert(res@ =~= Map::<Seq<char>, V>::empty());
        res
    }

    /// The number of keys.
    pub fn len(&self) -> (res: usize)
        ensures
            res == self@.len(),
    {
        proof {
            use_type_invariant(self);
            self.lemma_len();
        }
        self.entries.len()
    }

    proof fn lemma_len(&self)
        requires
            keys_distinct(self.entries@),
        ensures
            self@.dom().finite(),
            self@.len() == self.entries@.len(),
        decreases self.entries@.len(),
    {
        let s = self.entries@;
        let keys = s.map_values(|e: (String, V)| e.0@);
        assert(keys.no_duplicates()) by {
            assert forall|i: int, j: int|
                0 <= i < keys.len() && 0 <= j < keys.len() && i != j implies keys[i] != keys[j] by {
                assert(s[i].0@ != s[j].0@);
            }
        }
        assert(self@.dom() =~= keys.to_set()) by {
            assert forall|k: Seq<char>| self@.dom().contains(k) implies keys.to_set().contains(k) by {
                let i = choose|i: int| 0 <= i < s.len() && #[trigger] s[i].0@ == k;
                assert(keys[i] == k);
            }
            assert forall|k: Seq<char>| keys.to_set().contains(k) implies self@.dom().contains(k) by {
                let i = choose|i: int| 0 <= i < keys.len() && keys[i] == k;
                assert(s[i].0@ == k);
            }
        }
        keys.unique_seq_to_set();
    }

    fn index_of(&self, key: &str) -> (res: Option<usize>)
        ensures
            res matches Some(i) ==> i < self.entries@.len() && self.entries@[i as int].0@ == key@,
            res is None ==> !has_key(self.entries@, key@),
    {
        let k = key.to_string();
        let mut i: usize = 0;
        while i < self.entries.len()
            invariant
                i <= self.entries@.len(),
                k@ == key@,
                forall|j: int| 0 <= j < i ==> #[trigger] self.entries@[j].0@ != key@,
            decreases self.entries@.len() - i,
        {
            if self.entries[i].0 == k {
                return Some(i);
            }
            i = i + 1;
        }
        None
    }

    /// The value under `key`, if any.
    pub fn get(&self, key: &str) -> (res: Option<&V>)
        ensures
            res matches Some(v) ==> self@.dom().contains(key@) && self@[key@] == *v,
            res is None ==> !self@.dom().contains(key@),
    {
        proof {
            use_type_invariant(self);
        }
        match self.index_of(key) {
            Some(i) => {
                proof {
                    lemma_map_of_entry(self.entries@, i as int);
                }
                Some(&self.entries[i].1)
            },
            None => None,
        }
    }

    /// Puts `val` under `key`, in place of any value there was.
    pub fn insert(&mut self, key: String, val: V)
        ensures
            final(self)@ == old(self)@.insert(key@, val),
    {
        proof {
            use_type_invariant(&*self);
        }
        let ghost old_s = self.entries@;
        let found = self.index_of(key.as_str());
        let mut entries: Vec<(String, V)> = Vec::new();
        std::mem::swap(&mut entries, &mut self.entries);
        match found {
            Some(i) => {
                let ghost k = key@;
                entries.set(i, (key, val));
                let ghost s = entries@;
                assert(s == old_s.update(i as int, s[i as int]));
                assert(keys_distinct(s)) by {
                    assert forall|a: int, b: int|
                        0 <= a < s.len() && 0 <= b < s.len() && a != b implies #[trigger] s[a].0@
                        != #[trigger] s[b].0@ by {
                        assert(old_s[a].0@ != old_s[b].0@);
                    }
                }
                proof {
                    lemma_map_of_entry(s, i as int);
                }
                assert(map_of(s) =~= map_of(old_s).insert(k, val)) by {
                    assert forall|x: Seq<char>| #[trigger] map_of(s).dom().contains(x) <==> map_of(
                        old_s,
                    ).insert(k, val).dom().contains(x) by {
                        if has_key(s, x) {
                            let j = choose|j: int| 0 <= j < s.len() && #[trigger] s[j].0@ == x;
                            if j != i {
                                assert(old_s[j].0@ == x);
                            }
                        }
                        if has_key(old_s, x) {
                            let j = choose|j: int| 0 <= j < old_s.len() && #[trigger] old_s[j].0@ == x;
                            assert(s[j].0@ == x);
                        }
                    }
                    assert forall|x: Seq<char>| #[trigger] map_of(s).dom().contains(x) && x != k
                        implies map_of(s)[x] == map_of(old_s)[x] by {
                        let j = choose|j: int| 0 <= j < s.len() && #[trigger] s[j].0@ == x;
                        assert(j != i);
                        lemma_map_of_entry(s, j);
                        lemma_map_of_entry(old_s, j);
                    }
                }
            },
            None => {
                let ghost k = key@;
                entries.push((key, val));
                let ghost s = entries@;
                assert(keys_distinct(s)) by {
                    assert forall|a: int, b: int|
                        0 <= a < s.len() && 0 <= b < s.len() && a != b implies #[trigger] s[a].0@
                        != #[trigger] s[b].0@ by {
                        if a < old_s.len() && b < old_s.len() {
                            assert(old_s[a].0@ != old_s[b].0@);
                        } else if a < old_s.len() {
                            assert(old_s[a].0@ != k);
                        } else {
                            assert(old_s[b].0@ != k);
                        }
                    }
                }
                proof {
                    lemma_map_of_entry(s, old_s.len() as int);
                }
                assert(map_of(s) =~= map_of(old_s).insert(k, val)) by {
                    assert forall|x: Seq<char>| #[trigger] map_of(s).dom().contains(x) <==> map_of(
                        old_s,
                    ).insert(k, val).dom().contains(x) by {
                        if has_key(s, x) {
                            let j = choose|j: int| 0 <= j < s.len() && #[trigger] s[j].0@ == x;
                            if j < old_s.len() {
                                assert(old_s[j].0@ == x);
                            }
                        }
                        if has_key(old_s, x) {
                            let j = choose|j: int| 0 <= j < old_s.len() && #[trigger] old_s[j].0@ == x;
                            assert(s[j].0@ == x);
                        }
                    }
                    assert forall|x: Seq<char>| #[trigger] map_of(s).dom().contains(x) && x != k
                        implies map_of(s)[x] == map_of(old_s)[x] by {
                        let j = choose|j: int| 0 <= j < s.len() && #[trigger] s[j].0@ == x;
                        assert(j < old_s.len());
                        lemma_map_of_entry(s, j);
                        lemma_map_of_entry(old_s, j);
                    }
                }
            },
        }
        self.entries = entries;
    }

    /// Takes `key` and its value out of the map.
    pub fn remove(&mut self, key: &str)
        ensures
            final(self)@ == old(self)@.remove(key@),
    {
        proof {
            use_type_invariant(&*self);
        }
        let ghost old_s = self.entries@;
        let found = self.index_of(key);
        let mut entries: Vec<(String, V)> = Vec::new();
        std::mem::swap(&mut entries, &mut self.entries);
        match found {
            Some(i) => {
                let _ = entries.remove(i);
                let ghost s = entries@;
                assert(s =~= old_s.remove(i as int));
                assert(keys_distinct(s)) by {
                    assert forall|a: int, b: int|
                        0 <= a < s.len() && 0 <= b < s.len() && a != b implies #[trigger] s[a].0@
                        != #[trigger] s[b].0@ by {
                        let oa = if a < i { a } else { a + 1 };
                        let ob = if b < i { b } else { b + 1 };
                        assert(old_s[oa].0@ != old_s[ob].0@);
                    }
                }
                assert(map_of(s) =~= map_of(old_s).remove(key@)) by {
                    assert forall|x: Seq<char>| #[trigger] map_of(s).dom().contains(x) <==> map_of(
                        old_s,
                    ).remove(key@).dom().contains(x) by {
                        if has_key(s, x) {
                            let j = choose|j: int| 0 <= j < s.len() && #[trigger] s[j].0@ == x;
                            let oj = if j < i { j } else { j + 1 };
                            assert(old_s[oj].0@ == x);
                            assert(old_s[i as int].0@ != old_s[oj].0@);
                        }
                        if has_key(old_s, x) && x != key@ {
                            let j = choose|j: int| 0 <= j < old_s.len() && #[trigger] old_s[j].0@ == x;
                            assert(j != i);
                            let sj = if j < i { j } else { j - 1 };
                            assert(s[sj].0@ == x);
                        }
                    }
                    assert forall|x: Seq<char>| #[trigger] map_of(s).dom().contains(x) implies map_of(
                        s,
                    )[x] == map_of(old_s)[x] by {
                        let j = choose|j: int| 0 <= j < s.len() && #[trigger] s[j].0@ == x;
                        let oj = if j < i { j } else { j + 1 };
                        lemma_map_of_entry(s, j);
                        lemma_map_of_entry(old_s, oj);
                    }
                }
            },
            None => {
                assert(map_of(old_s) =~= map_of(old_s).remove(key@));
            },
        }
        self.entries = entries;
    }

    /// The keys and values, in no particular order.
    pub fn entries(&self) -> (res: &Vec<(String, V)>)
        ensures
            map_of(res@) == self@,
            keys_distinct(res@),
    {
        proof {
            use_type_invariant(self);
        }
        &self.entries
    }
}

} // verus!
