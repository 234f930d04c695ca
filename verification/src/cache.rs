//! A store of shared module instances, keyed by the part of a configuration
//! that the module depends on.

use crate::config::{ConfigEntries, EntriesModel, ServerConfiguration};
use std::sync::Arc;
use vstd::prelude::*;

verus! {

/// What a cache key stands for: for each property that the module depends on,
/// in the order in which the cache names them, what the configuration holds.
pub type KeyModel = Seq<Option<EntriesModel>>;

/// The key that a configuration projects to, for a module that depends on the
/// properties `names`.
pub open spec fn projection(names: Seq<String>, config: ServerConfiguration) -> KeyModel {
    Seq::new(names.len(), |i: int| config.entries_of(names[i]@))
}

/// The stored form of a key.
pub struct CacheKey {
    pub slots: Vec<Option<ConfigEntries>>,
}

impl View for CacheKey {
    type V = KeyModel;

    open spec fn view(&self) -> KeyModel {
        Seq::new(
            self.slots@.len(),
            |i: int|
                match self.slots@[i] {
                    Some(entries) => Some(entries@),
                    None => None,
                },
        )
    }
}

/// One stored module with the key under which it was built.
pub struct CacheEntry<T> {
    pub key: CacheKey,
    pub module: Arc<T>,
}

/// A cache of shared module instances: at most one per distinct key.
pub struct ModuleCache<T> {
    pub properties: Vec<String>,
    pub entries: Vec<CacheEntry<T>>,
}

/// The state of a cache and the result of a lookup in it, given what the
/// factory returned, or would have returned, for the configuration.
pub open spec fn lookup_or_build<T, E>(
    stored: Map<KeyModel, Arc<T>>,
    key: KeyModel,
    built: Result<Arc<T>, E>,
) -> (Map<KeyModel, Arc<T>>, Result<Arc<T>, E>) {
    if stored.contains_key(key) {
        (stored, Ok(stored[key]))
    } else {
        match built {
            Ok(module) => (stored.insert(key, module), Ok(module)),
            Err(e) => (stored, Err(e)),
        }
    }
}

/// Another handle to a shared module.
/// Calls `Arc::clone`: the new handle points to the same allocation, so it
/// stands for the same value.
#[verifier::external_body]
fn share<T>(module: &Arc<T>) -> (r: Arc<T>)
    ensures
        r == *module,
{
    Arc::clone(module)
}

impl<T> ModuleCache<T> {
    /// The position of the entry stored under `key`, if there is one.
    pub open spec fn position(&self, key: KeyModel) -> Option<int> {
        if exists|i: int| 0 <= i < self.entries@.len() && self.entries@[i].key@ == key {
            Some(choose|i: int| 0 <= i < self.entries@.len() && self.entries@[i].key@ == key)
        } else {
            None
        }
    }

    /// No two entries have the same key, and every key has one slot for each
    /// property that the module depends on.
    pub open spec fn wf(&self) -> bool {
        &&& forall|i: int, j: int|
            0 <= i < j < self.entries@.len() ==> self.entries@[i].key@ != self.entries@[j].key@
        &&& forall|i: int|
            0 <= i < self.entries@.len() ==> (#[trigger] self.entries@[i]).key@.len()
                == self.properties@.len()
    }

    /// The stored modules by key.
    pub open spec fn view(&self) -> Map<KeyModel, Arc<T>> {
        Map::new(
            |key: KeyModel| self.position(key) is Some,
            |key: KeyModel| self.entries@[self.position(key).unwrap()].module,
        )
    }

    /// The key that `config` projects to in this cache.
    pub open spec fn key_of(&self, config: ServerConfiguration) -> KeyModel {
        projection(self.properties@, config)
    }

    /// An empty cache for a module that depends on the given properties.
    pub fn new(properties: Vec<String>) -> (r: ModuleCache<T>)
        ensures
            r.wf(),
            r.properties == properties,
            r@ == Map::<KeyModel, Arc<T>>::empty(),
    {
        let r = ModuleCache { properties, entries: Vec::new() };
        assert(r@ =~= Map::<KeyModel, Arc<T>>::empty());
        r
    }

    /// The number of modules stored.
    pub fn len(&self) -> (r: usize)
        ensures
            r == self.entries@.len(),
    {
        self.entries.len()
    }

    /// Projects a configuration onto the properties that the module depends on.
    pub fn key_for(&self, config: &ServerConfiguration) -> (r: CacheKey)
        ensures
            r@ == self.key_of(*config),
    {
        let mut slots: Vec<Option<ConfigEntries>> = Vec::new();
        let mut i: usize = 0;
        while i < self.properties.len()
            invariant
                i <= self.properties.len(),
                slots@.len() == i,
                forall|j: int|
                    0 <= j < i ==> (match #[trigger] slots@[j] {
                        Some(entries) => Some(entries@),
                        None => None,
                    }) == config.entries_of(self.properties@[j]@),
            decreases self.properties.len() - i,
        {
            let slot = match config.get_entries(self.properties[i].as_str()) {
                Some(entries) => Some(entries.duplicate()),
                None => None,
            };
            slots.push(slot);
            i = i + 1;
        }
        let r = CacheKey { slots };
        assert(r@ =~= self.key_of(*config));
        r
    }

    /// Whether `key` stands for what the stored key at `index` stands for.
    fn key_matches(&self, index: usize, key: &CacheKey) -> (r: bool)
        requires
            index < self.entries@.len(),
        ensures
            r == (self.entries@[index as int].key@ == key@),
    {
        let stored = &self.entries[index].key;
        if stored.slots.len() != key.slots.len() {
            assert(stored@.len() != key@.len());
            return false;
        }
        let mut i: usize = 0;
        while i < key.slots.len()
            invariant
                i <= key.slots.len(),
                index < self.entries@.len(),
                *stored == self.entries@[index as int].key,
                stored.slots.len() == key.slots.len(),
                forall|j: int| 0 <= j < i ==> stored@[j] == key@[j],
            decreases key.slots.len() - i,
        {
            let same = match (&stored.slots[i], &key.slots[i]) {
                (Some(a), Some(b)) => a.same(b),
                (None, None) => true,
                _ => false,
            };
            if !same {
                assert(stored@[i as int] != key@[i as int]);
                return false;
            }
            i = i + 1;
        }
        assert(stored@ =~= key@);
        true
    }

    /// The position of the entry stored under `key`, if there is one.
    fn find(&self, key: &CacheKey) -> (r: Option<usize>)
        ensures
            match r {
                Some(i) => i < self.entries@.len() && self.entries@[i as int].key@ == key@,
                None => forall|j: int| 0 <= j < self.entries@.len() ==> self.entries@[j].key@ != key@,
            },
    {
        let mut i: usize = 0;
        while i < self.entries.len()
            invariant
                i <= self.entries.len(),
                forall|j: int| 0 <= j < i ==> self.entries@[j].key@ != key@,
            decreases self.entries.len() - i,
        {
            if self.key_matches(i, key) {
                return Some(i);
            }
            i = i + 1;
        }
        None
    }

    /// Returns the module stored for the key that `config` projects to. Where
    /// none is stored, builds one with `factory` and stores it; where `factory`
    /// fails, the error is returned and nothing is stored. `factory` is called
    /// only where nothing is stored for the key, so it need not be callable
    /// otherwise.
    pub fn get_or_init<F, E>(&mut self, config: &ServerConfiguration, factory: F) -> (r: Result<
        Arc<T>,
        E,
    >) where F: FnOnce(&ServerConfiguration) -> Result<Arc<T>, E>
        requires
            old(self).wf(),
            !old(self)@.contains_key(old(self).key_of(*config)) ==> call_requires(
                factory,
                (config,),
            ),
        ensures
            final(self).wf(),
            final(self).properties == old(self).properties,
            (final(self)@, r) == lookup_or_build(old(self)@, old(self).key_of(*config), r),
            !old(self)@.contains_key(old(self).key_of(*config)) ==> call_ensures(
                factory,
                (config,),
                r,
            ),
    {
        let key = self.key_for(config);
        match self.find(&key) {
            Some(i) => {
                proof {
                    self.lemma_position(i as int);
                }
                Ok(share(&self.entries[i].module))
            },
            None => {
                assert(self.position(key@) is None);
                match factory(config) {
                    Ok(module) => {
                        let shared = share(&module);
                        let ghost before = *self;
                        self.entries.push(CacheEntry { key, module });
                        proof {
                            assert forall|k: KeyModel| #[trigger]
                                self@.contains_key(k) <==> before@.insert(
                                    key@,
                                    shared,
                                ).contains_key(k) by {
                                if before.position(k) is Some {
                                    let p = before.position(k).unwrap();
                                    assert(self.entries@[p].key@ == k);
                                }
                                if k == key@ {
                                    assert(self.entries@[before.entries@.len() as int].key@ == k);
                                }
                            }
                            assert forall|k: KeyModel| #[trigger]
                                self@.contains_key(k) implies self@[k] == before@.insert(
                                key@,
                                shared,
                            )[k] by {
                                let p = self.position(k).unwrap();
                                if k == key@ {
                                    assert(p == before.entries@.len());
                                } else {
                                    assert(before.entries@[p].key@ == k);
                                    before.lemma_position(p);
                                }
                            }
                            assert(self@ =~= before@.insert(key@, shared));
                        }
                        Ok(shared)
                    },
                    Err(e) => Err(e),
                }
            },
        }
    }

    /// Drops the module stored for the key that `config` projects to, as
    /// after a reload that changed it; every other entry stays. Returns whether
    /// there was such a module.
    pub fn invalidate(&mut self, config: &ServerConfiguration) -> (r: bool)
        requires
            old(self).wf(),
        ensures
            final(self).wf(),
            final(self).properties == old(self).properties,
            final(self)@ == old(self)@.remove(old(self).key_of(*config)),
            r == old(self)@.contains_key(old(self).key_of(*config)),
    {
        let key = self.key_for(config);
        match self.find(&key) {
            Some(i) => {
                let ghost before = *self;
                self.entries.remove(i);
                proof {
                    before.lemma_position(i as int);
                    assert forall|k: KeyModel| #[trigger]
                        self@.contains_key(k) <==> before@.remove(key@).contains_key(k) by {
                        if self.position(k) is Some {
                            let p = self.position(k).unwrap();
                            let q = if p < i {
                                p
                            } else {
                                p + 1
                            };
                            assert(before.entries@[q].key@ == k);
                        }
                        if before.position(k) is Some && k != key@ {
                            let q = before.position(k).unwrap();
                            let p = if q < i {
                                q
                            } else {
                                q - 1
                            };
                            assert(self.entries@[p].key@ == k);
                        }
                    }
                    assert forall|k: KeyModel| #[trigger]
                        self@.contains_key(k) implies self@[k] == before@.remove(key@)[k] by {
                        let p = self.position(k).unwrap();
                        let q = if p < i {
                            p
                        } else {
                            p + 1
                        };
                        assert(before.entries@[q].key@ == k);
                        before.lemma_position(q);
                    }
                    assert(self@ =~= before@.remove(key@));
                }
                true
            },
            None => {
                assert(self.position(key@) is None);
                assert(self@ =~= old(self)@.remove(key@));
                false
            },
        }
    }

    /// In a well-formed cache the entry at `index` is the one found under its key.
    pub proof fn lemma_position(&self, index: int)
        requires
            self.wf(),
            0 <= index < self.entries@.len(),
        ensures
            self.position(self.entries@[index].key@) == Some(index),
            self@.contains_key(self.entries@[index].key@),
            self@[self.entries@[index].key@] == self.entries@[index].module,
    {
        let key = self.entries@[index].key@;
        let p = choose|i: int| 0 <= i < self.entries@.len() && self.entries@[i].key@ == key;
        if p < index {
            assert(self.entries@[p].key@ != self.entries@[index].key@);
        } else if index < p {
            assert(self.entries@[index].key@ != self.entries@[p].key@);
        }
    }
}

/// Configurations that agree on every property that a module depends on
/// project to the same key, whatever else they hold and in whatever order.
pub proof fn lemma_equal_projection(
    names: Seq<String>,
    first: ServerConfiguration,
    second: ServerConfiguration,
)
    requires
        forall|i: int|
            0 <= i < names.len() ==> first.entries_of(names[i]@) == second.entries_of(names[i]@),
    ensures
        projection(names, first) == projection(names, second),
{
    assert(projection(names, first) =~= projection(names, second));
}

/// Two lookups under equal keys, the first of which succeeds, return the same
/// instance: the second leaves the cache as it is and does not depend on what
/// its factory would have built.
pub proof fn lemma_equal_keys_share_instance<T, E>(
    stored: Map<KeyModel, Arc<T>>,
    first_key: KeyModel,
    second_key: KeyModel,
    first_built: Result<Arc<T>, E>,
    second_built: Result<Arc<T>, E>,
)
    requires
        first_key == second_key,
        lookup_or_build(stored, first_key, first_built).1 is Ok,
    ensures
        ({
            let (after, first) = lookup_or_build(stored, first_key, first_built);
            lookup_or_build(after, second_key, second_built) == (after, first)
        }),
{
    let (after, first) = lookup_or_build(stored, first_key, first_built);
    assert(after.contains_key(second_key));
}

/// A failed construction stores nothing: the next lookup under the same key
/// builds again.
pub proof fn lemma_failure_is_retried<T, E>(
    stored: Map<KeyModel, Arc<T>>,
    key: KeyModel,
    first_built: Result<Arc<T>, E>,
    second_built: Result<Arc<T>, E>,
)
    requires
        !stored.contains_key(key),
        first_built is Err,
    ensures
        lookup_or_build(stored, key, first_built) == (stored, first_built),
        lookup_or_build(lookup_or_build(stored, key, first_built).0, key, second_built).1
            == second_built,
{
}

/// Lookups under different keys, neither of them stored before, each return
/// what was built for their own key, and both instances stay stored, each
/// under its key.
pub proof fn lemma_distinct_keys_are_isolated<T, E>(
    stored: Map<KeyModel, Arc<T>>,
    first_key: KeyModel,
    second_key: KeyModel,
    first_module: Arc<T>,
    second_module: Arc<T>,
)
    requires
        first_key != second_key,
        !stored.contains_key(first_key),
        !stored.contains_key(second_key),
    ensures
        ({
            let (middle, first) = lookup_or_build::<T, E>(stored, first_key, Ok(first_module));
            let (after, second) = lookup_or_build::<T, E>(middle, second_key, Ok(second_module));
            &&& first == Ok::<Arc<T>, E>(first_module)
            &&& second == Ok::<Arc<T>, E>(second_module)
            &&& after[first_key] == first_module
            &&& after[second_key] == second_module
            &&& after.dom() == stored.dom().insert(first_key).insert(second_key)
        }),
{
    let (middle, first) = lookup_or_build::<T, E>(stored, first_key, Ok(first_module));
    let (after, second) = lookup_or_build::<T, E>(middle, second_key, Ok(second_module));
    assert(!middle.contains_key(second_key));
    assert(after.dom() =~= stored.dom().insert(first_key).insert(second_key));
}

} // verus!
