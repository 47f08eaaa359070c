//! A map from strings to strings that keeps its keys in the order they were
//! first inserted; a later insert of a key replaces its value.
use vstd::prelude::*;
use crate::text::{chars_of, owned};

verus! {

#[derive(Debug)]
pub struct StrMap {
    entries: Vec<(String, String)>,
}

impl View for StrMap {
    type V = Map<Seq<char>, Seq<char>>;

    closed spec fn view(&self) -> Map<Seq<char>, Seq<char>> {
        Map::new(
            |k: Seq<char>| exists|i: int| 0 <= i < self.entries@.len() && #[trigger] self.entries@[i].0@ == k,
            |k: Seq<char>| self.entries@[self.index_of(k)].1@,
        )
    }
}

impl StrMap {
    /// The position of key `k` among the entries (meaningful when `k` is present).
    pub closed spec fn index_of(&self, k: Seq<char>) -> int {
        choose|i: int| 0 <= i < self.entries@.len() && #[trigger] self.entries@[i].0@ == k
    }

    /// The keys in the order they were first inserted.
    pub closed spec fn key_seq(&self) -> Seq<Seq<char>> {
        self.entries@.map_values(|e: (String, String)| e.0@)
    }

    #[verifier::type_invariant]
    closed spec fn keys_distinct(&self) -> bool {
        forall|i: int, j: int|
            0 <= i < j < self.entries@.len() ==> #[trigger] self.entries@[i].0@
                != #[trigger] self.entries@[j].0@
    }

    proof fn lemma_index(&self, i: int)
        requires
            self.keys_distinct(),
            0 <= i < self.entries@.len(),
        ensures
            self.index_of(self.entries@[i].0@) == i,
            self@.contains_key(self.entries@[i].0@),
            self@[self.entries@[i].0@] == self.entries@[i].1@,
    {
        let k = self.entries@[i].0@;
        assert(self@.dom().contains(k));
        let j = self.index_of(k);
        if j != i {
            if j < i {
                assert(self.entries@[j].0@ != self.entries@[i].0@);
            } else {
                assert(self.entries@[i].0@ != self.entries@[j].0@);
            }
        }
    }

    /// An empty map.
    pub fn new() -> (m: Self)
        ensures
            m@ == Map::<Seq<char>, Seq<char>>::empty(),
            m.key_seq() == Seq::<Seq<char>>::empty(),
    {
        let m = StrMap { entries: Vec::new() };
        assert(m@ =~= Map::<Seq<char>, Seq<char>>::empty());
        assert(m.key_seq() =~= Seq::<Seq<char>>::empty());
        m
    }

    /// The number of keys.
    pub fn len(&self) -> (n: usize)
        ensures
            n == self.key_seq().len(),
            n == self@.dom().len(),
    {
        proof {
            use_type_invariant(self);
            self.lemma_dom_len();
        }
        self.entries.len()
    }

    proof fn lemma_dom_len(&self)
        requires
            self.keys_distinct(),
        ensures
            self@.dom().finite(),
            self@.dom().len() == self.entries@.len(),
            self@.dom() == self.key_seq().to_set(),
            self.key_seq().no_duplicates(),
    {
        let ks = self.key_seq();
        assert(ks.no_duplicates()) by {
            assert forall|i: int, j: int| 0 <= i < ks.len() && 0 <= j < ks.len() && i != j implies ks[i]
                != ks[j] by {
                if i < j {
                    assert(self.entries@[i].0@ != self.entries@[j].0@);
                } else {
                    assert(self.entries@[j].0@ != self.entries@[i].0@);
                }
            }
        }
        assert(self@.dom() =~= ks.to_set()) by {
            assert forall|k: Seq<char>| self@.dom().contains(k) implies ks.to_set().contains(k) by {
                let i = choose|i: int| 0 <= i < self.entries@.len() && #[trigger] self.entries@[i].0@ == k;
                assert(ks[i] == k);
            }
            assert forall|k: Seq<char>| ks.to_set().contains(k) implies self@.dom().contains(k) by {
                let i = choose|i: int| 0 <= i < ks.len() && ks[i] == k;
                assert(self.entries@[i].0@ == k);
            }
        }
        ks.unique_seq_to_set();
    }

    /// The position of `key` among the entries, if present.
    fn position(&self, key: &str) -> (r: Option<usize>)
        ensures
            match r {
                Some(i) => i < self.entries@.len() && self.entries@[i as int].0@ == key@,
                None => !self@.contains_key(key@),
            },
    {
        let mut i: usize = 0;
        while i < self.entries.len()
            invariant
                i <= self.entries@.len(),
                forall|j: int| 0 <= j < i ==> self.entries@[j].0@ != key@,
            decreases self.entries@.len() - i,
        {
            if self.entries[i].0 == key.to_owned() {
                return Some(i);
            }
            i = i + 1;
        }
        proof {
            if self@.contains_key(key@) {
                let j = choose|j: int| 0 <= j < self.entries@.len() && #[trigger] self.entries@[j].0@ == key@;
                assert(self.entries@[j].0@ == key@);
            }
        }
        None
    }

    /// Whether `key` is present.
    pub fn contains_key(&self, key: &str) -> (b: bool)
        ensures
            b == self@.contains_key(key@),
    {
        let r = self.position(key);
        proof {
            use_type_invariant(self);
            if let Some(i) = r {
                self.lemma_index(i as int);
            }
        }
        r.is_some()
    }

    /// The value stored under `key`.
    pub fn get(&self, key: &str) -> (r: Option<&String>)
        ensures
            match r {
                Some(v) => self@.contains_key(key@) && v@ == self@[key@],
                None => !self@.contains_key(key@),
            },
    {
        match self.position(key) {
            Some(i) => {
                proof {
                    use_type_invariant(self);
                    self.lemma_index(i as int);
                }
                Some(&self.entries[i].1)
            },
            None => None,
        }
    }

    /// Stores `value` under `key`, replacing the value a present key had; a new key
    /// goes after all others.
    pub fn insert(&mut self, key: String, value: String)
        ensures
            final(self)@ == old(self)@.insert(key@, value@),
            old(self)@.contains_key(key@) ==> final(self).key_seq() == old(self).key_seq(),
            !old(self)@.contains_key(key@) ==> final(self).key_seq() == old(self).key_seq().push(
                key@,
            ),
    {
        proof {
            use_type_invariant(&*self);
        }
        let ghost old_entries = self.entries@;
        let ghost old_view = self@;
        match self.position(key.as_str()) {
            Some(i) => {
                let ghost k = key@;
                let ghost v = value@;
                let mut entries: Vec<(String, String)> = Vec::new();
                std::mem::swap(&mut entries, &mut self.entries);
                entries.set(i, (key, value));
                assert forall|a: int, b: int| 0 <= a < b < entries@.len() implies #[trigger] entries@[a].0@
                    != #[trigger] entries@[b].0@ by {
                    assert(old_entries[a].0@ != old_entries[b].0@);
                }
                self.entries = entries;
                proof {
                    use_type_invariant(&*self);
                    assert(self.key_seq() =~= old_entries.map_values(|e: (String, String)| e.0@));
                    assert forall|kk: Seq<char>| #![auto] self@.dom().contains(kk) == old_view.insert(
                        k,
                        v,
                    ).dom().contains(kk) by {
                        if old_view.dom().contains(kk) {
                            let j = choose|j: int| 0 <= j < old_entries.len() && #[trigger] old_entries[j].0@ == kk;
                            assert(self.entries@[j].0@ == kk);
                        }
                        if self@.dom().contains(kk) {
                            let j = choose|j: int| 0 <= j < self.entries@.len() && #[trigger] self.entries@[j].0@ == kk;
                            if j != i {
                                assert(old_entries[j].0@ == kk);
                            }
                        }
                    }
                    assert forall|kk: Seq<char>| #[trigger] self@.dom().contains(kk) implies self@[kk]
                        == old_view.insert(k, v)[kk] by {
                        let j = self.index_of(kk);
                        self.lemma_index(j);
                        if j != i {
                            assert(old_entries[j].0@ == kk);
                            assert(old_view[kk] == old_entries[j].1@) by {
                                let jj = choose|jj: int| 0 <= jj < old_entries.len() && #[trigger] old_entries[jj].0@ == kk;
                                if jj != j {
                                    if jj < j {
                                        assert(old_entries[jj].0@ != old_entries[j].0@);
                                    } else {
                                        assert(old_entries[j].0@ != old_entries[jj].0@);
                                    }
                                }
                            }
                        }
                    }
                    assert(self@ =~= old_view.insert(k, v));
                }
            },
            None => {
                let ghost k = key@;
                let ghost v = value@;
                let mut entries: Vec<(String, String)> = Vec::new();
                std::mem::swap(&mut entries, &mut self.entries);
                entries.push((key, value));
                assert forall|a: int, b: int| 0 <= a < b < entries@.len() implies #[trigger] entries@[a].0@
                    != #[trigger] entries@[b].0@ by {
                    if b < old_entries.len() {
                        assert(old_entries[a].0@ != old_entries[b].0@);
                    } else {
                        assert(entries@[b].0@ == k);
                        assert(old_entries[a].0@ != k);
                    }
                }
                self.entries = entries;
                proof {
                    use_type_invariant(&*self);
                    assert(self.key_seq() =~= old_entries.map_values(|e: (String, String)| e.0@).push(
                        k,
                    ));
                    let n = old_entries.len() as int;
                    assert(self.entries@[n].0@ == k);
                    assert forall|kk: Seq<char>| #![auto] self@.dom().contains(kk) == old_view.insert(
                        k,
                        v,
                    ).dom().contains(kk) by {
                        if old_view.dom().contains(kk) {
                            let j = choose|j: int| 0 <= j < old_entries.len() && #[trigger] old_entries[j].0@ == kk;
                            assert(self.entries@[j].0@ == kk);
                        }
                        if self@.dom().contains(kk) && kk != k {
                            let j = choose|j: int| 0 <= j < self.entries@.len() && #[trigger] self.entries@[j].0@ == kk;
                            assert(old_entries[j].0@ == kk);
                        }
                    }
                    assert forall|kk: Seq<char>| #[trigger] self@.dom().contains(kk) implies self@[kk]
                        == old_view.insert(k, v)[kk] by {
                        let j = self.index_of(kk);
                        self.lemma_index(j);
                        if kk != k {
                            assert(j < n);
                            assert(old_entries[j].0@ == kk);
                            assert(old_view[kk] == old_entries[j].1@) by {
                                let jj = choose|jj: int| 0 <= jj < old_entries.len() && #[trigger] old_entries[jj].0@ == kk;
                                if jj != j {
                                    if jj < j {
                                        assert(old_entries[jj].0@ != old_entries[j].0@);
                                    } else {
                                        assert(old_entries[j].0@ != old_entries[jj].0@);
                                    }
                                }
                            }
                        } else {
                            self.lemma_index(n);
                        }
                    }
                    assert(self@ =~= old_view.insert(k, v));
                }
            },
        }
    }

    /// The keys, in the order they were first inserted.
    pub fn keys(&self) -> (r: Vec<String>)
        ensures
            r@.map_values(|s: String| s@) == self.key_seq(),
    {
        let mut r: Vec<String> = Vec::new();
        let mut i: usize = 0;
        while i < self.entries.len()
            invariant
                i <= self.entries@.len(),
                r@.map_values(|s: String| s@) == self.key_seq().take(i as int),
            decreases self.entries@.len() - i,
        {
            let k = self.entries[i].0.clone();
            let ghost before = r@;
            r.push(k);
            proof {
                assert(r@ == before.push(k));
                assert(self.key_seq()[i as int] == k@);
                assert(r@.map_values(|s: String| s@) =~= before.map_values(|s: String| s@).push(k@));
                assert(self.key_seq().take(i + 1) =~= self.key_seq().take(i as int).push(k@));
            }
            i = i + 1;
        }
        assert(self.key_seq().take(i as int) =~= self.key_seq());
        r
    }
}


impl StrMap {
    /// Every key of the sequence of keys is present in the map, once.
    pub proof fn lemma_key_seq(&self)
        ensures
            forall|i: int| 0 <= i < self.key_seq().len() ==> self@.contains_key(#[trigger] self.key_seq()[i]),
            forall|k: Seq<char>| self@.contains_key(k) ==> self.key_seq().contains(k),
    {
        assert forall|i: int| 0 <= i < self.key_seq().len() implies self@.contains_key(#[trigger] self.key_seq()[i]) by {
            assert(self.entries@[i].0@ == self.key_seq()[i]);
        }
        assert forall|k: Seq<char>| self@.contains_key(k) implies self.key_seq().contains(k) by {
            let i = choose|i: int| 0 <= i < self.entries@.len() && #[trigger] self.entries@[i].0@ == k;
            assert(self.key_seq()[i] == k);
        }
    }

    /// The key and value pairs, keys in the order they were first inserted.
    pub fn pairs(&self) -> (r: Vec<(String, String)>)
        ensures
            r@.len() == self.key_seq().len(),
            forall|i: int| 0 <= i < r@.len() ==> (#[trigger] r@[i]).0@ == self.key_seq()[i]
                && r@[i].1@ == self@[self.key_seq()[i]],
    {
        proof {
            use_type_invariant(self);
        }
        let mut r: Vec<(String, String)> = Vec::new();
        let mut i: usize = 0;
        let n = self.entries.len();
        while i < n
            invariant
                i <= n == self.entries@.len(),
                self.keys_distinct(),
                r@.len() == i,
                forall|j: int| 0 <= j < i ==> (#[trigger] r@[j]).0@ == self.key_seq()[j]
                    && r@[j].1@ == self@[self.key_seq()[j]],
            decreases n - i,
        {
            let k = self.entries[i].0.clone();
            let v = self.entries[i].1.clone();
            proof {
                self.lemma_index(i as int);
            }
            r.push((k, v));
            i = i + 1;
        }
        r
    }
}

impl StrMap {
    /// A copy of the map, with its keys in the same order.
    pub fn copy(&self) -> (r: StrMap)
        ensures
            r@ == self@,
            r.key_seq() == self.key_seq(),
    {
        proof {
            use_type_invariant(self);
        }
        let mut entries: Vec<(String, String)> = Vec::new();
        let mut i: usize = 0;
        while i < self.entries.len()
            invariant
                i <= self.entries@.len(),
                entries@.len() == i,
                forall|j: int| 0 <= j < i ==> (#[trigger] entries@[j]).0@ == self.entries@[j].0@
                    && entries@[j].1@ == self.entries@[j].1@,
            decreases self.entries@.len() - i,
        {
            entries.push((self.entries[i].0.clone(), self.entries[i].1.clone()));
            i = i + 1;
        }
        let r = StrMap { entries };
        assert(r.key_seq() =~= self.key_seq());
        assert forall|k: Seq<char>| #[trigger] r@.contains_key(k) == self@.contains_key(k) by {
            if r@.contains_key(k) {
                let j = choose|j: int| 0 <= j < r.entries@.len() && #[trigger] r.entries@[j].0@ == k;
                assert(self.entries@[j].0@ == k);
            }
            if self@.contains_key(k) {
                let j = choose|j: int| 0 <= j < self.entries@.len() && #[trigger] self.entries@[j].0@ == k;
                assert(r.entries@[j].0@ == k);
            }
        }
        assert forall|k: Seq<char>| r@.contains_key(k) implies #[trigger] r@[k] == self@[k] by {
            let j = choose|j: int| 0 <= j < r.entries@.len() && #[trigger] r.entries@[j].0@ == k;
            r.lemma_index(j);
            self.lemma_index(j);
        }
        assert(r@ =~= self@);
        r
    }
}


impl StrMap {
    /// Stores every pair of `other`, in its key order: its values replace those of keys
    /// this map already has.
    pub fn extend(&mut self, other: &StrMap)
        ensures
            final(self)@ == old(self)@.union_prefer_right(other@),
    {
        let pairs = other.pairs();
        let ghost keys = other.key_seq();
        let ghost start = self@;
        proof {
            other.lemma_key_seq();
        }
        let n = pairs.len();
        let mut i: usize = 0;
        assert(start.union_prefer_right(other@.restrict(keys.take(0).to_set())) =~= start);
        while i < n
            invariant
                i <= n == pairs@.len() == keys.len(),
                keys == other.key_seq(),
                forall|j: int| 0 <= j < pairs@.len() ==> (#[trigger] pairs@[j]).0@ == keys[j]
                    && pairs@[j].1@ == other@[keys[j]],
                forall|j: int| 0 <= j < keys.len() ==> other@.contains_key(#[trigger] keys[j]),
                self@ == start.union_prefer_right(other@.restrict(keys.take(i as int).to_set())),
            decreases n - i,
        {
            let k = pairs[i].0.clone();
            let v = pairs[i].1.clone();
            let ghost before = self@;
            self.insert(k, v);
            proof {
                let ki = keys[i as int];
                assert(other@.contains_key(ki));
                assert(keys.take(i + 1).to_set() =~= keys.take(i as int).to_set().insert(ki)) by {
                    assert forall|x: Seq<char>| keys.take(i + 1).to_set().contains(x) <==> keys.take(
                        i as int,
                    ).to_set().insert(ki).contains(x) by {
                        if keys.take(i + 1).to_set().contains(x) {
                            let j = choose|j: int| 0 <= j < keys.take(i + 1).len() && #[trigger] keys.take(i + 1)[j] == x;
                            if j < i {
                                assert(keys.take(i as int)[j] == x);
                            }
                        }
                        if keys.take(i as int).to_set().contains(x) {
                            let j = choose|j: int| 0 <= j < keys.take(i as int).len() && #[trigger] keys.take(i as int)[j] == x;
                            assert(keys.take(i + 1)[j] == x);
                        }
                        if x == ki {
                            assert(keys.take(i + 1)[i as int] == x);
                        }
                    }
                }
                assert(self@ =~= start.union_prefer_right(other@.restrict(keys.take(i + 1).to_set())));
            }
            i = i + 1;
        }
        proof {
            assert(keys.take(n as int) =~= keys);
            assert(other@.restrict(keys.to_set()) =~= other@) by {
                assert forall|x: Seq<char>| other@.contains_key(x) implies keys.to_set().contains(x) by {
                    assert(keys.contains(x));
                }
            }
        }
    }
}

} // verus!
