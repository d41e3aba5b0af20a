use crate::keys::Key;
use vstd::prelude::*;

verus! {

/// A finite set of keys, kept as a duplicate-free vector.
pub struct KeySet {
    keys: Vec<Key>,
}

impl View for KeySet {
    type V = Set<Key>;

    closed spec fn view(&self) -> Set<Key> {
        self.keys@.to_set()
    }
}

impl KeySet {
    /// The members in storage order.
    pub closed spec fn members(self) -> Seq<Key> {
        self.keys@
    }

    pub fn new() -> (s: Self)
        ensures
            s@ == Set::<Key>::empty(),
    {
        let s = KeySet { keys: Vec::new() };
        assert(s@ =~= Set::<Key>::empty());
        s
    }

    pub fn contains(&self, key: Key) -> (r: bool)
        ensures
            r == self@.contains(key),
    {
        let mut i: usize = 0;
        while i < self.keys.len()
            invariant
                i <= self.keys@.len(),
                forall|j: int| 0 <= j < i ==> self.keys@[j] != key,
            decreases self.keys@.len() - i,
        {
            if self.keys[i] == key {
                return true;
            }
            i = i + 1;
        }
        false
    }

    /// Adds `key`; returns whether it was absent.
    pub fn insert(&mut self, key: Key) -> (r: bool)
        ensures
            final(self)@ == old(self)@.insert(key),
            r == !old(self)@.contains(key),
    {
        if self.contains(key) {
            assert(self@.insert(key) =~= self@);
            false
        } else {
            let ghost before = self.keys@;
            self.keys.push(key);
            proof {
                assert(self.keys@.to_set() =~= before.to_set().insert(key)) by {
                    assert forall|k: Key| #[trigger] self.keys@.contains(k) <==> (
                    before.contains(k) || k == key) by {
                        if before.contains(k) {
                            let i = choose|i: int| 0 <= i < before.len() && before[i] == k;
                            assert(self.keys@[i] == k);
                        }
                        if k == key {
                            assert(self.keys@[before.len() as int] == key);
                        }
                        if self.keys@.contains(k) && k != key {
                            let i = choose|i: int| 0 <= i < self.keys@.len() && self.keys@[i] == k;
                            assert(before[i] == k);
                        }
                    }
                }
            }
            true
        }
    }

    /// Removes `key`; returns whether it was present.
    pub fn remove(&mut self, key: Key) -> (r: bool)
        ensures
            final(self)@ == old(self)@.remove(key),
            r == old(self)@.contains(key),
    {
        let mut kept: Vec<Key> = Vec::new();
        let mut found = false;
        let mut i: usize = 0;
        while i < self.keys.len()
            invariant
                i <= self.keys@.len(),
                found == self.keys@.subrange(0, i as int).contains(key),
                forall|k: Key| #[trigger] kept@.contains(k) <==> (
                    self.keys@.subrange(0, i as int).contains(k) && k != key),
            decreases self.keys@.len() - i,
        {
            let k = self.keys[i];
            proof {
                assert(self.keys@.subrange(0, i + 1) =~= self.keys@.subrange(0, i as int).push(k));
            }
            let ghost old_kept = kept@;
            if k == key {
                found = true;
            } else {
                kept.push(k);
                proof {
                    assert forall|x: Key| #[trigger] kept@.contains(x) <==> (old_kept.contains(x)
                        || x == k) by {
                        if kept@.contains(x) && x != k {
                            let j = choose|j: int| 0 <= j < kept@.len() && kept@[j] == x;
                            assert(old_kept[j] == x);
                        }
                        if old_kept.contains(x) {
                            let j = choose|j: int| 0 <= j < old_kept.len() && old_kept[j] == x;
                            assert(kept@[j] == x);
                        }
                        if x == k {
                            assert(kept@[old_kept.len() as int] == x);
                        }
                    }
                }
            }
            proof {
                let pre = self.keys@.subrange(0, i as int);
                let post = self.keys@.subrange(0, i + 1);
                assert forall|x: Key| #[trigger] post.contains(x) <==> (pre.contains(x) || x == k) by {
                    if post.contains(x) && x != k {
                        let j = choose|j: int| 0 <= j < post.len() && post[j] == x;
                        assert(pre[j] == x);
                    }
                    if pre.contains(x) {
                        let j = choose|j: int| 0 <= j < pre.len() && pre[j] == x;
                        assert(post[j] == x);
                    }
                    if x == k {
                        assert(post[i as int] == x);
                    }
                }
            }
            i = i + 1;
        }
        proof {
            assert(self.keys@.subrange(0, self.keys@.len() as int) =~= self.keys@);
            assert(kept@.to_set() =~= self.keys@.to_set().remove(key));
        }
        self.keys = kept;
        found
    }

    pub fn clear(&mut self)
        ensures
            final(self)@ == Set::<Key>::empty(),
    {
        self.keys.clear();
        assert(self.keys@.to_set() =~= Set::<Key>::empty());
    }

    pub fn is_empty(&self) -> (r: bool)
        ensures
            r == (self@ == Set::<Key>::empty()),
    {
        let r = self.keys.len() == 0;
        if !r {
            assert(self@.contains(self.keys@[0]));
        } else {
            assert(self@ =~= Set::<Key>::empty());
        }
        r
    }

    /// Number of stored entries; also exposes the storage order used by `get`.
    pub fn len(&self) -> (n: usize)
        ensures
            n == self.members().len(),
            self@ == self.members().to_set(),
    {
        self.keys.len()
    }

    /// The `i`-th member in storage order.
    pub fn get(&self, i: usize) -> (k: Key)
        requires
            i < self.members().len(),
        ensures
            k == self.members()[i as int],
    {
        self.keys[i]
    }
}

} // verus!
