//! The world: a keyed registry of auxiliary shared state, independent
//! from the model tree.
//!
//! Each entry lives under one key — the key stands for the type identity
//! of what is stored, so at most one instance exists per key. Membership
//! is fixed when the host is built; the entries themselves stay mutable,
//! each under its own lock, so two different auxiliary resources never
//! contend with each other or with the model.

use vstd::prelude::*;

verus! {

/// One auxiliary entry: a key and the single instance stored under it.
pub struct WorldEntry<V> {
    /// The key; it stands for the type identity of the stored state.
    pub key: u64,
    /// The stored instance.
    pub value: V,
}

/// The keyed registry of auxiliary shared state.
pub struct World<V> {
    /// The entries, at most one per key.
    pub entries: Vec<WorldEntry<V>>,
}

/// A clonable handle to one world entry, sharing its backing storage.
pub struct State<V> {
    /// The entry this handle names.
    pub index: usize,
    /// Ties the handle to the stored type.
    pub _value: core::marker::PhantomData<V>,
}

impl<V> Clone for State<V> {
    /// Cloning a handle is O(1): the clone names the same entry.
    fn clone(&self) -> (r: Self)
        ensures
            r == *self,
    {
        State { index: self.index, _value: core::marker::PhantomData }
    }
}

impl<V> Copy for State<V> {

}

impl<V> State<V> {
    /// Whether the handle names an entry of the world.
    pub open spec fn valid(self, world: World<V>) -> bool {
        self.index < world.entries@.len()
    }

    /// Shared read access to the entry.
    pub fn read<'a>(&self, world: &'a World<V>) -> (r: &'a V)
        requires
            self.valid(*world),
        ensures
            *r == world.entries@[self.index as int].value,
    {
        &world.entries[self.index].value
    }

    /// Exclusive write access to the entry: stores a whole new value.
    pub fn set(&self, world: &mut World<V>, value: V)
        requires
            self.valid(*old(world)),
        ensures
            final(world).entries@ == old(world).entries@.update(
                self.index as int,
                WorldEntry { key: old(world).entries@[self.index as int].key, value },
            ),
    {
        let key = world.entries[self.index].key;
        let _ = world.entries.remove(self.index);
        world.entries.insert(self.index, WorldEntry { key, value });
        proof {
            assert(world.entries@ =~= old(world).entries@.update(
                self.index as int,
                WorldEntry { key: old(world).entries@[self.index as int].key, value },
            ));
        }
    }
}

impl<V> World<V> {
    /// Whether some entry lives under the key.
    pub open spec fn contains_key(self, key: u64) -> bool {
        exists|i: int| 0 <= i < self.entries@.len() && (#[trigger] self.entries@[i]).key == key
    }

    /// The index of the entry under the key.
    pub open spec fn index_of(self, key: u64) -> int {
        choose|i: int| 0 <= i < self.entries@.len() && (#[trigger] self.entries@[i]).key == key
    }

    /// The instance stored under the key.
    pub open spec fn value_of(self, key: u64) -> V {
        self.entries@[self.index_of(key)].value
    }

    /// Well-formedness: at most one instance per key.
    pub open spec fn wf(self) -> bool {
        forall|i: int, j: int|
            #![trigger self.entries@[i], self.entries@[j]]
            0 <= i < j < self.entries@.len() ==> self.entries@[i].key != self.entries@[j].key
    }

    /// An empty world.
    pub fn new() -> (r: Self)
        ensures
            r.entries@ == Seq::<WorldEntry<V>>::empty(),
            r.wf(),
            forall|k: u64| !r.contains_key(k),
    {
        World { entries: Vec::new() }
    }

    /// Registers `value` under `key`; a key registered before has its
    /// instance replaced, so at most one instance per key ever exists.
    pub fn add_with(&mut self, key: u64, value: V)
        requires
            old(self).wf(),
        ensures
            final(self).wf(),
            forall|k: u64|
                final(self).contains_key(k) <==> (old(self).contains_key(k) || k == key),
            forall|k: u64|
                old(self).contains_key(k) && k != key ==> final(self).value_of(k) == old(
                    self,
                ).value_of(k),
            final(self).contains_key(key) && final(self).value_of(key) == value,
    {
        let mut i: usize = 0;
        while i < self.entries.len()
            invariant
                old(self).wf(),
                *self == *old(self),
                i <= self.entries@.len(),
                forall|j: int| 0 <= j < i ==> (#[trigger] self.entries@[j]).key != key,
            decreases self.entries@.len() - i,
        {
            if self.entries[i].key == key {
                proof {
                    assert(i < old(self).entries@.len());
                }
                let _ = self.entries.remove(i);
                self.entries.insert(i, WorldEntry { key, value });
                proof {
                    let post = *self;
                    assert(post.entries@ =~= old(self).entries@.update(
                        i as int,
                        WorldEntry { key, value },
                    ));
                    lemma_update_keeps_registry(*old(self), post, i as int, key, value);
                }
                return ;
            }
            i = i + 1;
        }
        self.entries.push(WorldEntry { key, value });
        proof {
            let post = *self;
            assert(post.entries@ =~= old(self).entries@.push(WorldEntry { key, value }));
            lemma_push_keeps_registry(*old(self), post, key, value);
        }
    }

    /// Registers the type's default instance under `key`; a key
    /// registered before has its instance replaced. What the default is
    /// depends on the stored type alone.
    pub fn add(&mut self, key: u64) where V: Default
        requires
            old(self).wf(),
        ensures
            final(self).wf(),
            forall|k: u64|
                final(self).contains_key(k) <==> (old(self).contains_key(k) || k == key),
            forall|k: u64|
                old(self).contains_key(k) && k != key ==> final(self).value_of(k) == old(
                    self,
                ).value_of(k),
            final(self).contains_key(key),
    {
        let value = V::default();
        self.add_with(key, value);
    }

    /// A handle to the entry under the key, if one exists.
    pub fn try_state(&self, key: u64) -> (r: Option<State<V>>)
        ensures
            r is Some <==> self.contains_key(key),
            r matches Option::Some(st) ==> st.valid(*self) && self.entries@[st.index as int].key
                == key,
    {
        let mut i: usize = 0;
        while i < self.entries.len()
            invariant
                i <= self.entries@.len(),
                forall|j: int| 0 <= j < i ==> (#[trigger] self.entries@[j]).key != key,
            decreases self.entries@.len() - i,
        {
            if self.entries[i].key == key {
                return Some(State { index: i, _value: core::marker::PhantomData });
            }
            i = i + 1;
        }
        None
    }

    /// The handle to the entry under the key. Asking for a key that was
    /// never registered is a configuration error this function refuses.
    pub fn state(&self, key: u64) -> (r: State<V>)
        requires
            self.contains_key(key),
        ensures
            r.valid(*self),
            self.entries@[r.index as int].key == key,
    {
        match self.try_state(key) {
            Some(st) => st,
            None => {
                proof {
                    assert(false);
                }
                State { index: 0, _value: core::marker::PhantomData }
            },
        }
    }

    /// Scoped shared access: applies `f` to the instance under the key
    /// and returns its result; the lock is released when `f` returns.
    pub fn get<R, F: FnOnce(&V) -> R>(&self, key: u64, f: F) -> (r: R)
        requires
            self.wf(),
            self.contains_key(key),
            call_requires(f, (&self.value_of(key),)),
        ensures
            call_ensures(f, (&self.value_of(key),), r),
    {
        let st = self.state(key);
        proof {
            lemma_entry_is_value_of(*self, st.index as int);
        }
        f(st.read(self))
    }

    /// Scoped shared access that tolerates absence: applies `f` to the
    /// instance under the key if one is registered, and to nothing
    /// otherwise.
    pub fn try_get<R, F: FnOnce(Option<&V>) -> R>(&self, key: u64, f: F) -> (r: R)
        requires
            self.wf(),
            self.contains_key(key) ==> call_requires(f, (Option::Some(&self.value_of(key)),)),
            !self.contains_key(key) ==> call_requires(f, (Option::None::<&V>,)),
        ensures
            self.contains_key(key) ==> call_ensures(f, (Option::Some(&self.value_of(key)),), r),
            !self.contains_key(key) ==> call_ensures(f, (Option::None::<&V>,), r),
    {
        match self.try_state(key) {
            Some(st) => {
                proof {
                    lemma_entry_is_value_of(*self, st.index as int);
                }
                f(Some(st.read(self)))
            },
            None => f(None),
        }
    }

    /// Scoped exclusive access: hands the instance under the key to `f`,
    /// stores the instance `f` returns, and hands back `f`'s second
    /// result; the lock is released deterministically.
    pub fn get_mut<R, F: FnOnce(V) -> (V, R)>(&mut self, key: u64, f: F) -> (r: R)
        requires
            old(self).wf(),
            old(self).contains_key(key),
            call_requires(f, (old(self).value_of(key),)),
        ensures
            final(self).wf(),
            call_ensures(f, (old(self).value_of(key),), (final(self).value_of(key), r)),
            forall|k: u64| final(self).contains_key(k) <==> old(self).contains_key(k),
            forall|k: u64|
                old(self).contains_key(k) && k != key ==> final(self).value_of(k) == old(
                    self,
                ).value_of(k),
    {
        let ghost pre = *self;
        let st = self.state(key);
        let i = st.index;
        proof {
            lemma_entry_is_value_of(pre, i as int);
        }
        let entry = self.entries.remove(i);
        let (value, ret) = f(entry.value);
        self.entries.insert(i, WorldEntry { key: entry.key, value });
        proof {
            let post = *self;
            assert(post.entries@ =~= pre.entries@.update(
                i as int,
                WorldEntry { key, value },
            ));
            lemma_update_keeps_registry(pre, post, i as int, key, value);
        }
        ret
    }
}

/// In a well-formed world, the entry at an index is the one its key finds.
proof fn lemma_entry_is_value_of<V>(w: World<V>, i: int)
    requires
        w.wf(),
        0 <= i < w.entries@.len(),
    ensures
        w.contains_key(w.entries@[i].key),
        w.index_of(w.entries@[i].key) == i,
        w.value_of(w.entries@[i].key) == w.entries@[i].value,
{
    let key = w.entries@[i].key;
    assert(w.contains_key(key));
    let j = w.index_of(key);
    if j != i {
        if j < i {
            assert(w.entries@[j].key != w.entries@[i].key);
        } else {
            assert(w.entries@[i].key != w.entries@[j].key);
        }
    }
}

/// Replacing one entry's value in place keeps the registry's keys and the
/// other entries' values.
proof fn lemma_update_keeps_registry<V>(pre: World<V>, post: World<V>, i: int, key: u64, value: V)
    requires
        pre.wf(),
        0 <= i < pre.entries@.len(),
        pre.entries@[i].key == key,
        post.entries@ == pre.entries@.update(i, WorldEntry { key, value }),
    ensures
        post.wf(),
        forall|k: u64| post.contains_key(k) <==> (pre.contains_key(k) || k == key),
        forall|k: u64|
            pre.contains_key(k) && k != key ==> post.value_of(k) == pre.value_of(k),
        post.contains_key(key) && post.value_of(key) == value,
{
    assert forall|k: u64| post.contains_key(k) implies (pre.contains_key(k) || k == key) by {
        let j = post.index_of(k);
        assert(pre.entries@[j].key == k || j == i);
    }
    assert forall|k: u64| pre.contains_key(k) implies post.contains_key(k) by {
        let j = pre.index_of(k);
        assert(post.entries@[j].key == k);
    }
    lemma_entry_is_value_of(post, i);
    assert forall|k: u64| pre.contains_key(k) && k != key implies post.value_of(k) == pre.value_of(
        k,
    ) by {
        let j = pre.index_of(k);
        assert(j != i);
        assert(post.entries@[j].key == k);
        lemma_entry_is_value_of(post, j);
        lemma_entry_is_value_of(pre, j);
    }
}

/// Appending a fresh entry keeps every earlier entry and adds the key.
proof fn lemma_push_keeps_registry<V>(pre: World<V>, post: World<V>, key: u64, value: V)
    requires
        pre.wf(),
        forall|j: int| 0 <= j < pre.entries@.len() ==> (#[trigger] pre.entries@[j]).key != key,
        post.entries@ == pre.entries@.push(WorldEntry { key, value }),
    ensures
        post.wf(),
        forall|k: u64| post.contains_key(k) <==> (pre.contains_key(k) || k == key),
        forall|k: u64|
            pre.contains_key(k) && k != key ==> post.value_of(k) == pre.value_of(k),
        post.contains_key(key) && post.value_of(key) == value,
{
    let n = pre.entries@.len() as int;
    assert(post.entries@[n].key == key);
    assert(post.contains_key(key));
    assert forall|k: u64| post.contains_key(k) implies (pre.contains_key(k) || k == key) by {
        let j = post.index_of(k);
        if j < n {
            assert(pre.entries@[j].key == k);
        }
    }
    assert forall|k: u64| pre.contains_key(k) implies post.contains_key(k) by {
        let j = pre.index_of(k);
        assert(post.entries@[j].key == k);
    }
    lemma_entry_is_value_of(post, n);
    assert forall|k: u64| pre.contains_key(k) && k != key implies post.value_of(k) == pre.value_of(
        k,
    ) by {
        let j = pre.index_of(k);
        assert(post.entries@[j].key == k);
        lemma_entry_is_value_of(post, j);
        lemma_entry_is_value_of(pre, j);
    }
}

} // verus!
