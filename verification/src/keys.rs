//! Sets of names.

use vstd::prelude::*;

verus! {

/// A set of names, each held once.
pub struct KeySet {
    keys: Vec<String>,
}

impl View for KeySet {
    type V = Set<Seq<char>>;

    closed spec fn view(&self) -> Set<Seq<char>> {
        Set::new(|key: Seq<char>| exists|i: int| 0 <= i < self.keys@.len() && #[trigger] self.keys@[i]@ == key)
    }
}

impl KeySet {
    /// No name is held twice.
    #[verifier::type_invariant]
    spec fn is_distinct(&self) -> bool {
        forall|i: int, j: int|
            0 <= i < j < self.keys@.len() ==> #[trigger] self.keys@[i]@ != #[trigger] self.keys@[j]@
    }

    /// The set without names.
    pub fn new() -> (set: KeySet)
        ensures
            set@ == Set::<Seq<char>>::empty(),
    {
        let set = KeySet { keys: Vec::new() };
        proof {
            assert(set@ == Set::<Seq<char>>::empty());
        }
        set
    }

    /// Whether the set holds the name.
    pub fn contains(&self, key: &str) -> (found: bool)
        ensures
            found == self@.contains(key@),
    {
        let wanted = key.to_owned();
        let mut i: usize = 0;
        while i < self.keys.len()
            invariant
                wanted@ == key@,
                i <= self.keys@.len(),
                forall|k: int| 0 <= k < i ==> #[trigger] self.keys@[k]@ != key@,
            decreases self.keys@.len() - i,
        {
            if self.keys[i] == wanted {
                return true;
            }
            i += 1;
        }
        false
    }

    /// Adds a name, and tells whether it was missing.
    pub fn insert(&mut self, key: &str) -> (added: bool)
        ensures
            final(self)@ == old(self)@.insert(key@),
            added == !old(self)@.contains(key@),
    {
        if self.contains(key) {
            proof {
                assert(self@ == self@.insert(key@));
            }
            return false;
        }
        proof {
            use_type_invariant(&*self);
        }
        let mut keys: Vec<String> = Vec::new();
        std::mem::swap(&mut keys, &mut self.keys);
        let ghost before = keys@;
        keys.push(key.to_owned());
        proof {
            assert forall|i: int, j: int|
                0 <= i < j < keys@.len() implies #[trigger] keys@[i]@ != #[trigger] keys@[j]@ by {
                if j == before.len() {
                    assert(before[i]@ != key@);
                }
            }
        }
        self.keys = keys;
        proof {
            let ghost grown = old(self)@.insert(key@);
            assert forall|k: Seq<char>| self@.contains(k) == grown.contains(k) by {
                if old(self)@.contains(k) {
                    let i = choose|i: int| 0 <= i < before.len() && #[trigger] before[i]@ == k;
                    assert(self.keys@[i]@ == k);
                }
                if k == key@ {
                    assert(self.keys@[before.len() as int]@ == k);
                }
                if self@.contains(k) && k != key@ {
                    let i = choose|i: int| 0 <= i < self.keys@.len() && #[trigger] self.keys@[i]@ == k;
                    assert(before[i]@ == k);
                }
            }
            assert(self@ == grown);
        }
        true
    }
}

} // verus!
