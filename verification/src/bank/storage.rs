//! Storage that the banks fill once, at start, and read from then on.

use std::collections::hash_map::{Iter, Keys, Values};
use std::collections::HashMap;
use std::hash::Hash;

use vstd::prelude::*;
use vstd::std_specs::iter::IteratorSpec;
use vstd::std_specs::hash::{obeys_key_model, spec_hash_map_iter, spec_keys_iter, spec_values_iter};

verus! {

broadcast use vstd::std_specs::hash::group_hash_axioms;

/// Audio data stored under a key.
pub trait BankData {
    type Key;
    type Data;

    /// Data is stored under `key`.
    spec fn holds(&self, key: &Self::Key) -> bool;

    fn data(&self, key: &Self::Key) -> Self::Data
        requires
            self.holds(key),
    ;
}

/// Audio settings stored under a key, if any.
pub trait BankSettings {
    type Key;
    type Settings;

    fn settings(&self, key: &Self::Key) -> Option<Self::Settings>;
}

/// A map that is set once and read from then on.
pub struct OnceStorage<K, V> {
    map: Option<HashMap<K, V>>,
}

impl<K, V> View for OnceStorage<K, V> {
    type V = Option<Map<K, V>>;

    closed spec fn view(&self) -> Option<Map<K, V>> {
        match self.map {
            Some(m) => Some(m@),
            None => None,
        }
    }
}

impl<K, V> OnceStorage<K, V> {
    /// A storage not set yet.
    pub fn new() -> (r: OnceStorage<K, V>)
        ensures
            r@ is None,
    {
        OnceStorage { map: None }
    }

    /// Sets the map, unless it is set already: then `value` is handed back
    /// and nothing changes.
    pub fn set(&mut self, value: HashMap<K, V>) -> (r: Result<(), HashMap<K, V>>)
        ensures
            old(self)@ is None ==> r is Ok && final(self)@ == Some(value@),
            old(self)@ is Some ==> r == Err::<(), HashMap<K, V>>(value) && final(self)@ == old(self)@,
    {
        if self.map.is_some() {
            return Err(value);
        }
        self.map = Some(value);
        Ok(())
    }

    /// The keys of the map, each once.
    pub fn keys(&self) -> (r: Keys<'_, K, V>)
        requires
            self@ is Some,
        ensures
            obeys_key_model::<K>() ==> r.remaining().unref().to_set() == self@.unwrap().dom()
                && r.remaining().no_duplicates()
                && r.remaining().len() == self@.unwrap().dom().len(),
    {
        match &self.map {
            Some(m) => {
                let r = m.keys();
                proof {
                    if obeys_key_model::<K>() {
                        assert(r == spec_keys_iter(m));
                    }
                }
                r
            },
            None => {
                vstd::pervasive::unreached()
            },
        }
    }

    /// The values of the map.
    pub fn values(&self) -> (r: Values<'_, K, V>)
        requires
            self@ is Some,
        ensures
            obeys_key_model::<K>() ==> r.remaining().unref().to_set() == self@.unwrap().values()
                && r.remaining().len() == self@.unwrap().dom().len(),
    {
        match &self.map {
            Some(m) => {
                let r = m.values();
                proof {
                    if obeys_key_model::<K>() {
                        assert(r == spec_values_iter(m));
                    }
                }
                r
            },
            None => {
                vstd::pervasive::unreached()
            },
        }
    }

    /// The entries of the map, each once.
    pub fn iter(&self) -> (r: Iter<'_, K, V>)
        requires
            self@ is Some,
        ensures
            obeys_key_model::<K>() ==> r.remaining().unref().to_set() == self@.unwrap().kv_pairs()
                && r.remaining().no_duplicates()
                && r.remaining().len() == self@.unwrap().dom().len(),
    {
        match &self.map {
            Some(m) => {
                let r = m.iter();
                proof {
                    if obeys_key_model::<K>() {
                        assert(r == spec_hash_map_iter(m));
                    }
                }
                r
            },
            None => {
                vstd::pervasive::unreached()
            },
        }
    }
}

impl<K: Eq + Hash, V: Clone> BankData for OnceStorage<K, V> {
    type Key = K;
    type Data = V;

    open spec fn holds(&self, key: &K) -> bool {
        &&& obeys_key_model::<K>()
        &&& self@ is Some
        &&& self@.unwrap().contains_key(*key)
    }

    /// A copy of the data stored under `key`.
    fn data(&self, key: &K) -> (r: V)
        ensures
            cloned::<V>(self@.unwrap()[*key], r),
    {
        match &self.map {
            Some(m) => match m.get(key) {
                Some(v) => v.clone(),
                None => {
                    vstd::pervasive::unreached()
                },
            },
            None => {
                vstd::pervasive::unreached()
            },
        }
    }
}

impl<K: Eq + Hash, V: Clone> BankSettings for OnceStorage<K, V> {
    type Key = K;
    type Settings = V;

    /// A copy of the settings stored under `key`, if the storage is set
    /// and holds some.
    fn settings(&self, key: &K) -> (r: Option<V>)
        ensures
            obeys_key_model::<K>() ==> (r is Some <==> self@ is Some && self@.unwrap().contains_key(*key)),
            obeys_key_model::<K>() ==> (r matches Some(v) ==> cloned::<V>(self@.unwrap()[*key], v)),
    {
        match &self.map {
            Some(m) => match m.get(key) {
                Some(v) => Some(v.clone()),
                None => None,
            },
            None => None,
        }
    }
}

} // verus!
