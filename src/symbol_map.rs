//! A map keyed by instrument symbol.
use vstd::prelude::*;

verus! {

/// A map from symbol to value; each symbol appears at most once.
///
/// Its model is a `Map` from the symbol's characters to the value.
#[derive(Clone, Debug)]
pub struct SymbolMap<V> {
    keys: Vec<String>,
    values: Vec<V>,
}

impl<V> SymbolMap<V> {
    /// The symbols in storage order, as character sequences.
    pub closed spec fn key_seq(&self) -> Seq<Seq<char>> {
        self.keys@.map_values(|k: String| k@)
    }

    /// Keys and values pair up and no symbol is stored twice.
    pub closed spec fn wf(&self) -> bool {
        &&& self.keys@.len() == self.values@.len()
        &&& self.key_seq().no_duplicates()
    }

    /// The value stored for `k`, the first stored when the map is not well formed.
    closed spec fn value_for(&self, k: Seq<char>) -> V {
        self.values@[self.index_for(k)]
    }

    /// A position at which `k` is stored.
    closed spec fn index_for(&self, k: Seq<char>) -> int {
        choose|i: int| 0 <= i < self.keys@.len() && self.keys@[i]@ == k
    }

    /// The map that the stored pairs describe.
    pub closed spec fn view(&self) -> Map<Seq<char>, V> {
        Map::new(|k: Seq<char>| self.key_seq().contains(k), |k: Seq<char>| self.value_for(k))
    }

    proof fn lemma_index(&self, i: int)
        requires
            self.wf(),
            0 <= i < self.keys@.len(),
        ensures
            self.view().contains_key(self.keys@[i]@),
            self.view()[self.keys@[i]@] == self.values@[i],
    {
        let k = self.keys@[i]@;
        assert(self.key_seq()[i] == k);
        assert(self.key_seq().contains(k));
        assert(exists|j: int| 0 <= j < self.keys@.len() && self.keys@[j]@ == k);
        let j = self.index_for(k);
        assert(self.key_seq()[j] == k);
        if j != i {
            assert(self.key_seq()[i] != self.key_seq()[j]);
        }
        assert(self.value_for(k) == self.values@[i]);
    }

    /// An empty map.
    pub fn new() -> (r: Self)
        ensures
            r.wf(),
            r.view() == Map::<Seq<char>, V>::empty(),
    {
        let r = SymbolMap { keys: Vec::new(), values: Vec::new() };
        assert(r.view() =~= Map::<Seq<char>, V>::empty());
        r
    }

    /// Position of `key` among the stored symbols.
    fn find(&self, key: &str) -> (r: Option<usize>)
        requires
            self.wf(),
        ensures
            match r {
                Some(i) => i < self.keys@.len() && self.keys@[i as int]@ == key@,
                None => !self.view().contains_key(key@),
            },
    {
        let mut i: usize = 0;
        while i < self.keys.len()
            invariant
                self.wf(),
                i <= self.keys@.len(),
                forall|j: int| 0 <= j < i ==> self.keys@[j]@ != key@,
            decreases self.keys@.len() - i,
        {
            if str_eq(self.keys[i].as_str(), key) {
                return Some(i);
            }
            i = i + 1;
        }
        proof {
            if self.key_seq().contains(key@) {
                let j = choose|j: int| 0 <= j < self.key_seq().len() && self.key_seq()[j] == key@;
                assert(self.keys@[j]@ == key@);
            }
        }
        None
    }

    /// The value stored for `key`, if any.
    pub fn get(&self, key: &str) -> (r: Option<&V>)
        requires
            self.wf(),
        ensures
            match r {
                Some(v) => self.view().contains_key(key@) && self.view()[key@] == *v,
                None => !self.view().contains_key(key@),
            },
    {
        match self.find(key) {
            Some(i) => {
                proof {
                    self.lemma_index(i as int);
                }
                Some(&self.values[i])
            },
            None => None,
        }
    }

    /// Whether a value is stored for `key`.
    pub fn contains_key(&self, key: &str) -> (r: bool)
        requires
            self.wf(),
        ensures
            r == self.view().contains_key(key@),
    {
        match self.find(key) {
            Some(i) => {
                proof {
                    self.lemma_index(i as int);
                }
                true
            },
            None => false,
        }
    }

    /// A well-formed map holds finitely many symbols.
    pub proof fn lemma_finite(&self)
        requires
            self.wf(),
        ensures
            self.view().dom().finite(),
    {
        assert(self.view().dom() =~= self.key_seq().to_set());
        self.key_seq().unique_seq_to_set();
    }

    /// Number of stored symbols.
    pub fn len(&self) -> (r: usize)
        requires
            self.wf(),
        ensures
            r == self.view().dom().len(),
    {
        proof {
            assert(self.view().dom() =~= self.key_seq().to_set());
            self.key_seq().unique_seq_to_set();
        }
        self.keys.len()
    }

    /// Stores `value` for `key`, replacing any earlier value for the same symbol.
    pub fn insert(&mut self, key: String, value: V)
        requires
            old(self).wf(),
        ensures
            final(self).wf(),
            final(self).view() == old(self).view().insert(key@, value),
    {
        let ghost k = key@;
        match self.find(key.as_str()) {
            Some(i) => {
                let ghost before = *self;
                self.values.set(i, value);
                proof {
                    assert(self.key_seq() =~= before.key_seq());
                    assert(self.wf());
                    before.lemma_index(i as int);
                    assert(self.view().dom() =~= before.view().dom());
                    assert forall|q: Seq<char>| #[trigger] self.view().contains_key(q) implies self.view()[q]
                        == before.view().insert(k, value)[q] by {
                        let j = choose|j: int| 0 <= j < self.key_seq().len() && self.key_seq()[j] == q;
                        assert(self.keys@[j]@ == q);
                        self.lemma_index(j);
                        if j != i {
                            assert(self.key_seq()[j] != self.key_seq()[i as int]);
                            before.lemma_index(j);
                        } else {
                            assert(q == k);
                        }
                    }
                    assert(self.view() =~= before.view().insert(k, value));
                }
            },
            None => {
                let ghost before = *self;
                self.keys.push(key);
                self.values.push(value);
                proof {
                    assert(self.key_seq() =~= before.key_seq().push(k));
                    assert(!before.key_seq().contains(k));
                    assert forall|q: Seq<char>| #[trigger] self.view().contains_key(q) implies self.view()[q]
                        == before.view().insert(k, value)[q] by {
                        let j = choose|j: int| 0 <= j < self.key_seq().len() && self.key_seq()[j] == q;
                        assert(self.keys@[j]@ == q);
                        self.lemma_index(j);
                        if j < before.keys@.len() {
                            before.lemma_index(j);
                        } else {
                            assert(q == k);
                        }
                    }
                    assert forall|q: Seq<char>| #[trigger] before.view().insert(k, value).contains_key(q)
                        implies self.view().contains_key(q) by {
                        if q != k {
                            let j = choose|j: int| 0 <= j < before.key_seq().len() && before.key_seq()[j] == q;
                            assert(self.key_seq()[j] == q);
                        } else {
                            assert(self.key_seq()[before.keys@.len() as int] == k);
                        }
                    }
                    assert(self.view() =~= before.view().insert(k, value));
                }
            },
        }
    }
}

/// Whether two strings hold the same characters.
pub fn str_eq(a: &str, b: &str) -> (r: bool)
    ensures
        r == (a@ == b@),
{
    let n = a.unicode_len();
    if n != b.unicode_len() {
        return false;
    }
    let mut i: usize = 0;
    while i < n
        invariant
            n == a@.len(),
            n == b@.len(),
            i <= n,
            forall|j: int| 0 <= j < i ==> a@[j] == b@[j],
        decreases n - i,
    {
        if a.get_char(i) != b.get_char(i) {
            return false;
        }
        i = i + 1;
    }
    assert(a@ =~= b@);
    true
}

} // verus!
