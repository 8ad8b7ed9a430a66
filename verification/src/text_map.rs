//! A map keyed by texts, which can be looked up, changed in place and walked.

use vstd::hash_map::StringHashMap;
use vstd::prelude::*;

verus! {

/// A map from texts to values. The entries stand side by side in two vectors;
/// `slots` finds the place of a key.
pub struct TextMap<V> {
    slots: StringHashMap<usize>,
    keys: Vec<String>,
    values: Vec<V>,
}

impl<V> View for TextMap<V> {
    type V = Map<Seq<char>, V>;

    closed spec fn view(&self) -> Map<Seq<char>, V> {
        Map::new(
            |k: Seq<char>| self.slots@.contains_key(k),
            |k: Seq<char>| self.values@[self.slots@[k] as int],
        )
    }
}

impl<V> TextMap<V> {
    pub closed spec fn wf(&self) -> bool {
        &&& self.keys@.len() == self.values@.len()
        &&& forall|i: int|
            0 <= i < self.keys@.len() ==> {
                &&& self.slots@.contains_key(#[trigger] self.keys@[i]@)
                &&& self.slots@[self.keys@[i]@] == i
            }
        &&& forall|k: Seq<char>| #[trigger]
            self.slots@.contains_key(k) ==> {
                &&& self.slots@[k] < self.keys@.len()
                &&& self.keys@[self.slots@[k] as int]@ == k
            }
    }

    /// The keys in the order in which the map is walked.
    pub closed spec fn order(&self) -> Seq<Seq<char>> {
        self.keys@.map_values(|k: String| k@)
    }

    pub fn new() -> (r: TextMap<V>)
        ensures
            r.wf(),
            r@ == Map::<Seq<char>, V>::empty(),
    {
        let r = TextMap { slots: StringHashMap::new(), keys: Vec::new(), values: Vec::new() };
        assert(r@ =~= Map::<Seq<char>, V>::empty());
        r
    }

    /// How many entries there are.
    pub fn len(&self) -> (r: usize)
        requires
            self.wf(),
        ensures
            r == self.order().len(),
    {
        self.keys.len()
    }

    /// The order of the keys names each key once.
    pub proof fn order_is_complete(&self)
        requires
            self.wf(),
        ensures
            self.order().no_duplicates(),
            forall|k: Seq<char>| self@.contains_key(k) <==> #[trigger] self.order().contains(k),
    {
        let order = self.order();
        assert forall|i: int, j: int| 0 <= i < order.len() && 0 <= j < order.len() && i != j implies
            order[i] != order[j] by {
            assert(order[i] == self.keys@[i]@);
            assert(order[j] == self.keys@[j]@);
        }
        assert forall|k: Seq<char>| self@.contains_key(k) <==> #[trigger] order.contains(k) by {
            if self@.contains_key(k) {
                assert(self.slots@.contains_key(k));
                assert(order[self.slots@[k] as int] == k);
            }
            if order.contains(k) {
                let i = choose|i: int| 0 <= i < order.len() && order[i] == k;
                assert(self.keys@[i]@ == k);
                assert(self.slots@.contains_key(k));
            }
        }
    }

    /// The key at position `i` of the order.
    pub fn key_at(&self, i: usize) -> (r: &String)
        requires
            self.wf(),
            i < self.order().len(),
        ensures
            r@ == self.order()[i as int],
    {
        &self.keys[i]
    }

    /// The value of the key at position `i` of the order.
    pub fn value_at(&self, i: usize) -> (r: &V)
        requires
            self.wf(),
            i < self.order().len(),
        ensures
            self@.contains_key(self.order()[i as int]),
            *r == self@[self.order()[i as int]],
    {
        proof {
            assert(self.order()[i as int] == self.keys@[i as int]@);
        }
        &self.values[i]
    }

    pub fn contains_key(&self, key: &str) -> (r: bool)
        ensures
            r == self@.contains_key(key@),
    {
        self.slots.contains_key(key)
    }

    /// The value of `key`.
    pub fn get(&self, key: &str) -> (r: Option<&V>)
        requires
            self.wf(),
        ensures
            match r {
                Some(v) => self@.contains_key(key@) && *v == self@[key@],
                None => !self@.contains_key(key@),
            },
    {
        match self.slots.get(key) {
            Some(i) => Some(&self.values[*i]),
            None => None,
        }
    }

    /// The value of `key`, to be changed in place.
    pub fn get_mut(&mut self, key: &str) -> (r: Option<&mut V>)
        requires
            old(self).wf(),
        ensures
            final(self).wf(),
            match r {
                Some(v) => {
                    &&& old(self)@.contains_key(key@)
                    &&& *v == old(self)@[key@]
                    &&& final(self)@ == old(self)@.insert(key@, *final(v))
                },
                None => !old(self)@.contains_key(key@) && final(self)@ == old(self)@,
            },
    {
        match self.slots.get(key) {
            Some(i) => {
                let at: usize = *i;
                Some(&mut self.values[at])
            },
            None => None,
        }
    }

    /// Maps `key` to `value`.
    pub fn insert(&mut self, key: &str, value: V)
        requires
            old(self).wf(),
        ensures
            final(self).wf(),
            final(self)@ == old(self)@.insert(key@, value),
    {
        let ghost before = *self;
        match self.slots.get(key) {
            Some(i) => {
                let at: usize = *i;
                self.values.set(at, value);
            },
            None => {
                let at: usize = self.keys.len();
                self.slots.insert(key.to_owned(), at);
                self.keys.push(key.to_owned());
                self.values.push(value);
            },
        }
        assert(self@ =~= before@.insert(key@, value));
    }

    /// Removes `key`, and gives the value that it had.
    pub fn remove(&mut self, key: &str) -> (r: Option<V>)
        requires
            old(self).wf(),
        ensures
            final(self).wf(),
            final(self)@ == old(self)@.remove(key@),
            match r {
                Some(v) => old(self)@.contains_key(key@) && v == old(self)@[key@],
                None => !old(self)@.contains_key(key@),
            },
    {
        let ghost before = *self;
        let at: usize = match self.slots.get(key) {
            Some(i) => *i,
            None => {
                assert(before@.remove(key@) =~= before@);
                return None;
            },
        };
        let last: usize = self.keys.len() - 1;
        self.slots.remove(key);
        if at != last {
            let moved = self.keys[last].clone();
            self.slots.insert(moved, at);
        }
        let _ = self.keys.swap_remove(at);
        let value = self.values.swap_remove(at);
        assert(self@ =~= before@.remove(key@));
        Some(value)
    }
}

} // verus!
