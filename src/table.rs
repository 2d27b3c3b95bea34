use vstd::prelude::*;

verus! {

/// A table keyed by text that keeps its entries in insertion order and holds
/// each key at most once.
#[derive(Debug, Clone)]
pub struct Table<V> {
    entries: Vec<(String, V)>,
}

impl<V> View for Table<V> {
    type V = Seq<(Seq<char>, V)>;

    closed spec fn view(&self) -> Seq<(Seq<char>, V)> {
        self.entries@.map_values(|e: (String, V)| (e.0@, e.1))
    }
}

/// The keys of a sequence of entries, in order.
pub open spec fn keys_of<V>(s: Seq<(Seq<char>, V)>) -> Seq<Seq<char>> {
    s.map_values(|e: (Seq<char>, V)| e.0)
}

impl<V> Table<V> {
    pub open spec fn keys(&self) -> Seq<Seq<char>> {
        keys_of(self@)
    }

    /// No key occurs twice.
    pub open spec fn wf(&self) -> bool {
        self.keys().no_duplicates()
    }

    pub open spec fn contains(&self, k: Seq<char>) -> bool {
        self.keys().contains(k)
    }

    /// The value stored under a key that the table contains.
    pub open spec fn value_of(&self, k: Seq<char>) -> V {
        self@[self.keys().index_of(k)].1
    }

    /// In a well-formed table the entry at `i` is the one its key finds.
    pub proof fn lemma_entry(&self, i: int)
        requires
            self.wf(),
            0 <= i < self@.len(),
        ensures
            self.keys().index_of(self@[i].0) == i,
            self.value_of(self@[i].0) == self@[i].1,
            self.contains(self@[i].0),
    {
        let ks = self.keys();
        assert(ks[i] == self@[i].0);
        assert(ks.contains(ks[i]));
        let j = ks.index_of(ks[i]);
        assert(0 <= j < ks.len() && ks[j] == ks[i]);
    }

    pub fn new() -> (r: Self)
        ensures
            r@ == Seq::<(Seq<char>, V)>::empty(),
            r.wf(),
    {
        let r = Table { entries: Vec::new() };
        assert(r@ =~= Seq::<(Seq<char>, V)>::empty());
        r
    }

    pub fn len(&self) -> (r: usize)
        ensures
            r == self@.len(),
    {
        self.entries.len()
    }

    pub fn key_at(&self, i: usize) -> (r: &String)
        requires
            i < self@.len(),
        ensures
            r@ == self@[i as int].0,
    {
        &self.entries[i].0
    }

    pub fn value_at(&self, i: usize) -> (r: &V)
        requires
            i < self@.len(),
        ensures
            *r == self@[i as int].1,
    {
        &self.entries[i].1
    }

    /// The position of a key, if the table holds it.
    pub fn find(&self, k: &str) -> (r: Option<usize>)
        ensures
            match r {
                Some(i) => i < self@.len() && self@[i as int].0 == k@,
                None => !self.contains(k@),
            },
    {
        let key = String::from_str(k);
        let mut i: usize = 0;
        while i < self.entries.len()
            invariant
                i <= self@.len(),
                key@ == k@,
                forall|j: int| 0 <= j < i ==> self@[j].0 != k@,
            decreases self@.len() - i,
        {
            if self.entries[i].0 == key {
                return Some(i);
            }
            i = i + 1;
        }
        proof {
            if self.contains(k@) {
                let j = choose|j: int| 0 <= j < self.keys().len() && self.keys()[j] == k@;
                assert(self@[j].0 == k@);
            }
        }
        None
    }

    pub fn contains_key(&self, k: &str) -> (r: bool)
        ensures
            r == self.contains(k@),
    {
        match self.find(k) {
            Some(i) => {
                assert(self.keys()[i as int] == k@);
                true
            },
            None => false,
        }
    }

    pub fn get(&self, k: &str) -> (r: Option<&V>)
        requires
            self.wf(),
        ensures
            match r {
                Some(v) => self.contains(k@) && *v == self.value_of(k@),
                None => !self.contains(k@),
            },
    {
        match self.find(k) {
            Some(i) => {
                proof { self.lemma_entry(i as int); }
                Some(&self.entries[i].1)
            },
            None => None,
        }
    }

    /// Stores `v` under `k`: an existing entry keeps its place and takes the
    /// new value, a new key goes at the end.
    pub fn insert(&mut self, k: String, v: V)
        requires
            old(self).wf(),
        ensures
            final(self).wf(),
            old(self).contains(k@) ==> final(self)@ == old(self)@.update(
                old(self).keys().index_of(k@),
                (k@, v),
            ),
            !old(self).contains(k@) ==> final(self)@ == old(self)@.push((k@, v)),
            final(self).contains(k@),
            final(self).value_of(k@) == v,
            forall|q: Seq<char>| q != k@ ==> (final(self).contains(q) <==> old(self).contains(q)),
            forall|q: Seq<char>|
                q != k@ && old(self).contains(q) ==> final(self).value_of(q) == old(self).value_of(
                    q,
                ),
    {
        let ghost before = *self;
        match self.find(k.as_str()) {
            Some(i) => {
                proof { before.lemma_entry(i as int); }
                let ghost kv = k@;
                self.entries.set(i, (k, v));
                assert(self@ =~= before@.update(i as int, (kv, v)));
                assert(self.keys() =~= before.keys());
                proof { self.lemma_entry(i as int); }
                assert forall|q: Seq<char>| q != kv && before.contains(q) implies self.value_of(q)
                    == before.value_of(q) by {
                    let j = before.keys().index_of(q);
                    before.lemma_entry(j);
                    self.lemma_entry(j);
                }
            },
            None => {
                let ghost kv = k@;
                self.entries.push((k, v));
                assert(self@ =~= before@.push((kv, v)));
                assert(self.keys() =~= before.keys().push(kv));
                let ghost n = before@.len() as int;
                assert(self.keys()[n] == kv);
                proof { self.lemma_entry(n); }
                assert forall|q: Seq<char>| q != kv implies (self.contains(q) <==> before.contains(q)) by {
                    if self.contains(q) {
                        let j = self.keys().index_of(q);
                        assert(self.keys()[j] == q);
                        assert(j != n);
                        assert(before.keys()[j] == q);
                    }
                    if before.contains(q) {
                        let j = before.keys().index_of(q);
                        assert(self.keys()[j] == q);
                    }
                }
                assert forall|q: Seq<char>| q != kv && before.contains(q) implies self.value_of(q)
                    == before.value_of(q) by {
                    let j = before.keys().index_of(q);
                    before.lemma_entry(j);
                    assert(self@[j] == before@[j]);
                    self.lemma_entry(j);
                }
            },
        }
    }
}

} // verus!
