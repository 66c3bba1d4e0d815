//! A small map from text identifiers to values that remembers the order in
//! which the identifiers were first inserted.

use vstd::prelude::*;

use crate::data::tasks_parser::strings_view;

verus! {

/// A map keyed by identifier. Entry `i` is made of `keys[i]` and `values[i]`;
/// no identifier occurs twice, and a new identifier goes to the end.
#[derive(Debug, Clone)]
pub struct IdMap<V> {
    pub keys: Vec<String>,
    pub values: Vec<V>,
}

impl<V: View> View for IdMap<V> {
    type V = Map<Seq<char>, V::V>;

    open spec fn view(&self) -> Map<Seq<char>, V::V> {
        Map::new(
            |k: Seq<char>| self.ids().contains(k),
            |k: Seq<char>| self.values@[self.ids().index_of(k)]@,
        )
    }
}

/// In a sequence without duplicates an element is found at its own index.
pub proof fn lemma_index_of_distinct(ids: Seq<Seq<char>>, i: int)
    requires
        ids.no_duplicates(),
        0 <= i < ids.len(),
    ensures
        ids.index_of(ids[i]) == i,
        ids.contains(ids[i]),
{
    assert(ids.contains(ids[i]));
}

impl<V: View> IdMap<V> {
    /// The identifiers, in order of first insertion.
    pub open spec fn ids(&self) -> Seq<Seq<char>> {
        strings_view(self.keys@)
    }

    /// Keys and values pair up, and no identifier occurs twice.
    pub open spec fn wf(&self) -> bool {
        &&& self.keys@.len() == self.values@.len()
        &&& self.ids().no_duplicates()
    }

    /// The empty map.
    pub fn new() -> (r: Self)
        ensures
            r.wf(),
            r@ == Map::<Seq<char>, V::V>::empty(),
            r.ids() == Seq::<Seq<char>>::empty(),
    {
        let r = IdMap { keys: Vec::new(), values: Vec::new() };
        r
    }

    /// Whether the map is well formed: keys and values pair up, and no
    /// identifier occurs twice.
    pub fn is_wf(&self) -> (r: bool)
        ensures
            r == self.wf(),
    {
        let n = self.keys.len();
        if n != self.values.len() {
            return false;
        }
        let mut i: usize = 0;
        while i < n
            invariant
                i <= n,
                n == self.keys@.len(),
                n == self.values@.len(),
                forall|a: int, b: int| 0 <= a < b < i ==> self.ids()[a] != self.ids()[b],
            decreases n - i,
        {
            let mut j: usize = 0;
            while j < i
                invariant
                    j <= i < n,
                    n == self.keys@.len(),
                    forall|a: int| 0 <= a < j ==> self.ids()[a] != self.ids()[i as int],
                decreases i - j,
            {
                if self.keys[j] == self.keys[i] {
                    assert(self.ids()[j as int] == self.ids()[i as int]);
                    return false;
                }
                j += 1;
            }
            i += 1;
        }
        proof {
            assert forall|a: int, b: int|
                0 <= a < self.ids().len() && 0 <= b < self.ids().len() && a
                    != b implies self.ids()[a] != self.ids()[b] by {
                if a < b {
                } else {
                    assert(self.ids()[b] != self.ids()[a]);
                }
            }
        }
        true
    }

    /// Number of entries.
    pub fn len(&self) -> (r: usize)
        ensures
            r == self.ids().len(),
    {
        self.keys.len()
    }

    /// Whether the map has no entry.
    pub fn is_empty(&self) -> (r: bool)
        ensures
            r == (self.ids().len() == 0),
    {
        self.keys.len() == 0
    }

    /// Index of the entry for `key`.
    pub fn position(&self, key: &str) -> (r: Option<usize>)
        ensures
            match r {
                Some(i) => i < self.ids().len() && self.ids()[i as int] == key@,
                None => !self.ids().contains(key@),
            },
            r is Some == self@.contains_key(key@),
    {
        let wanted = key.to_owned();
        let mut i: usize = 0;
        while i < self.keys.len()
            invariant
                i <= self.keys.len(),
                wanted@ == key@,
                forall|k: int| 0 <= k < i ==> self.ids()[k] != key@,
            decreases self.keys.len() - i,
        {
            if self.keys[i] == wanted {
                assert(self.ids()[i as int] == key@);
                assert(self.ids().contains(key@));
                return Some(i);
            }
            i += 1;
        }
        None
    }

    /// Whether the map has an entry for `key`.
    pub fn contains_key(&self, key: &str) -> (r: bool)
        ensures
            r == self@.contains_key(key@),
    {
        self.position(key).is_some()
    }

    /// The value stored for `key`.
    pub fn get(&self, key: &str) -> (r: Option<&V>)
        requires
            self.wf(),
        ensures
            match r {
                Some(v) => self@.contains_key(key@) && v@ == self@[key@],
                None => !self@.contains_key(key@),
            },
    {
        match self.position(key) {
            Some(i) => {
                proof {
                    lemma_index_of_distinct(self.ids(), i as int);
                }
                Some(&self.values[i])
            },
            None => None,
        }
    }

    /// The identifier of entry `i`.
    pub fn key_at(&self, i: usize) -> (r: &String)
        requires
            self.wf(),
            i < self.ids().len(),
        ensures
            r@ == self.ids()[i as int],
    {
        &self.keys[i]
    }

    /// The value of entry `i`.
    pub fn value_at(&self, i: usize) -> (r: &V)
        requires
            self.wf(),
            i < self.ids().len(),
        ensures
            r@ == self@[self.ids()[i as int]],
            self@.contains_key(self.ids()[i as int]),
    {
        proof {
            lemma_index_of_distinct(self.ids(), i as int);
        }
        &self.values[i]
    }

    /// Stores `value` for `key`. An identifier that is already present keeps
    /// its place; a new one goes to the end.
    pub fn insert(&mut self, key: String, value: V)
        requires
            old(self).wf(),
        ensures
            final(self).wf(),
            final(self)@ == old(self)@.insert(key@, value@),
            final(self).ids() == (if old(self).ids().contains(key@) {
                old(self).ids()
            } else {
                old(self).ids().push(key@)
            }),
    {
        let ghost before = *self;
        match self.position(key.as_str()) {
            Some(i) => {
                self.values[i] = value;
                proof {
                    assert forall|k: Seq<char>| self.ids().contains(k) implies #[trigger] self@[k]
                        == before@.insert(key@, value@)[k] by {
                        lemma_index_of_distinct(self.ids(), i as int);
                    }
                }
            },
            None => {
                self.keys.push(key);
                self.values.push(value);
                proof {
                    assert(self.ids() =~= before.ids().push(key@));
                    let n = before.ids().len() as int;
                    assert(self.ids().no_duplicates());
                    assert forall|k: Seq<char>| self.ids().contains(k) <==> (before.ids().contains(
                        k,
                    ) || k == key@) by {
                        if before.ids().contains(k) {
                            let j = before.ids().index_of(k);
                            assert(self.ids()[j] == k);
                        }
                        if k == key@ {
                            assert(self.ids()[n] == k);
                        }
                    }
                    assert forall|k: Seq<char>| self.ids().contains(k) implies #[trigger] self@[k]
                        == before@.insert(key@, value@)[k] by {
                        if k == key@ {
                            lemma_index_of_distinct(self.ids(), n);
                        } else {
                            lemma_index_of_distinct(self.ids(), before.ids().index_of(k));
                        }
                    }
                }
            },
        }
    }
}

} // verus!
