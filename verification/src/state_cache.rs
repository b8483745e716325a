//! The layered cache: for each cell family, the values first observed and the
//! values written during one execution.

use crate::cell_map::{CellKey, CellMap};
use crate::error::StateError;
use crate::felt::{ClassHash, ContractAddress, ContractStorageKey, Nonce, StarkFelt, StorageKey};
use crate::layers::{CellDiff, Layers};
use vstd::prelude::*;

verus! {

/// The two-layer cache of one cell family. Nothing is ever removed from
/// either layer.
pub struct LayeredCache<K: CellKey + Copy, V: Copy> {
    initial_values: CellMap<K, V>,
    writes: CellMap<K, V>,
}

impl<K: CellKey + Copy, V: Copy> View for LayeredCache<K, V> {
    type V = Layers<K, V>;

    closed spec fn view(&self) -> Layers<K, V> {
        Layers {
            initial_values: self.initial_values@,
            writes: self.writes@,
            write_order: self.writes.keys(),
        }
    }
}

impl<K: CellKey + Copy, V: Copy> LayeredCache<K, V> {
    /// A cache that holds nothing.
    pub fn new() -> (cache: Self)
        ensures
            cache@ == Layers::<K, V>::empty(),
    {
        LayeredCache { initial_values: CellMap::new(), writes: CellMap::new() }
    }

    /// The cached value of `key`: the written one if there is one, else the
    /// first-observed one, else nothing.
    pub fn read(&self, key: &K) -> (value: Option<&V>)
        ensures
            match value {
                Some(cached) => self@.read(*key) == Some(*cached),
                None => self@.read(*key) is None,
            },
    {
        match self.writes.get(key) {
            Some(written) => Some(written),
            None => self.initial_values.get(key),
        }
    }

    /// The cached value of a cell that an earlier read or write resolved.
    /// A cell that the cache does not hold is an integrity violation.
    pub fn read_resolved(&self, key: &K) -> (value: Result<&V, StateError>)
        ensures
            match value {
                Ok(cached) => self@.read(*key) == Some(*cached),
                Err(error) => self@.read(*key) is None
                    && error == StateError::CacheIntegrityViolation,
            },
    {
        match self.read(key) {
            Some(cached) => Ok(cached),
            None => Err(StateError::CacheIntegrityViolation),
        }
    }

    /// Records `value` as first observed for `key`. The first such record
    /// for a key wins: later ones change nothing.
    pub fn record_initial(&mut self, key: K, value: V)
        ensures
            final(self)@ == old(self)@.record_initial(key, value),
    {
        if !self.initial_values.contains_key(&key) {
            self.initial_values.insert(key, value);
        }
    }

    /// Records `value` as written to `key`. The last write to a key wins.
    pub fn record_write(&mut self, key: K, value: V)
        ensures
            final(self)@ == old(self)@.record_write(key, value),
    {
        self.writes.insert(key, value);
    }

    /// The diff of the family: for each written cell, in the order of first
    /// writes, its value before the execution and its written value. A cell
    /// without a first-observed value was `uninitialized` before.
    pub fn diff(&self, uninitialized: V) -> (diff: Vec<CellDiff<K, V>>)
        ensures
            diff@ == self@.diff(uninitialized),
            self@.consistent(),
    {
        let written = self.writes.len();
        let mut diff: Vec<CellDiff<K, V>> = Vec::new();
        let mut i: usize = 0;
        while i < written
            invariant
                i <= written,
                written == self.writes.keys().len(),
                diff@.len() == i,
                forall|j: int| 0 <= j < i ==> diff@[j] == self@.diff(uninitialized)[j],
            decreases written - i,
        {
            if let Some((key, after)) = self.writes.entry_at(i) {
                let before = match self.initial_values.get(&key) {
                    Some(first_observed) => *first_observed,
                    None => uninitialized,
                };
                diff.push(CellDiff { key, before, after });
            }
            i = i + 1;
        }
        assert(diff@ =~= self@.diff(uninitialized));
        diff
    }
}

/// The three cell families of contract state, as mappings.
pub struct StateLayers {
    pub storage: Layers<ContractStorageKey, StarkFelt>,
    pub nonces: Layers<ContractAddress, Nonce>,
    pub class_hashes: Layers<ContractAddress, ClassHash>,
}

impl StateLayers {
    /// The state in which no cell was read or written.
    pub open spec fn empty() -> Self {
        StateLayers {
            storage: Layers::empty(),
            nonces: Layers::empty(),
            class_hashes: Layers::empty(),
        }
    }
}

/// The difference between the state before an execution and after it: for
/// each family, one entry for each cell that the execution wrote.
pub struct StateDiff {
    pub storage: Vec<CellDiff<ContractStorageKey, StarkFelt>>,
    pub nonces: Vec<CellDiff<ContractAddress, Nonce>>,
    pub class_hashes: Vec<CellDiff<ContractAddress, ClassHash>>,
}

/// Caches read and write requests for the three cell families.
pub struct StateCache {
    nonces: LayeredCache<ContractAddress, Nonce>,
    class_hashes: LayeredCache<ContractAddress, ClassHash>,
    storage: LayeredCache<ContractStorageKey, StarkFelt>,
}

impl View for StateCache {
    type V = StateLayers;

    closed spec fn view(&self) -> StateLayers {
        StateLayers {
            storage: self.storage@,
            nonces: self.nonces@,
            class_hashes: self.class_hashes@,
        }
    }
}

impl StateCache {
    /// A cache that holds nothing.
    pub fn new() -> (cache: Self)
        ensures
            cache@ == StateLayers::empty(),
    {
        StateCache {
            nonces: LayeredCache::new(),
            class_hashes: LayeredCache::new(),
            storage: LayeredCache::new(),
        }
    }

    /// The cached value of a storage cell, if the cache holds one.
    pub fn get_storage_at(&self, contract_address: ContractAddress, key: StorageKey) -> (value:
        Option<&StarkFelt>)
        ensures
            match value {
                Some(cached) => self@.storage.read(ContractStorageKey(contract_address, key))
                    == Some(*cached),
                None => self@.storage.read(ContractStorageKey(contract_address, key)) is None,
            },
    {
        let contract_storage_key = ContractStorageKey(contract_address, key);
        self.storage.read(&contract_storage_key)
    }

    /// Records the value first observed for a storage cell, unless one is
    /// recorded already.
    pub fn set_storage_initial_values(
        &mut self,
        contract_address: ContractAddress,
        key: StorageKey,
        value: StarkFelt,
    )
        ensures
            final(self)@ == (StateLayers {
                storage: old(self)@.storage.record_initial(
                    ContractStorageKey(contract_address, key),
                    value,
                ),
                ..old(self)@
            }),
    {
        let contract_storage_key = ContractStorageKey(contract_address, key);
        self.storage.record_initial(contract_storage_key, value);
    }

    /// Records a write to a storage cell.
    pub fn set_storage_writes(
        &mut self,
        contract_address: ContractAddress,
        key: StorageKey,
        value: StarkFelt,
    )
        ensures
            final(self)@ == (StateLayers {
                storage: old(self)@.storage.record_write(
                    ContractStorageKey(contract_address, key),
                    value,
                ),
                ..old(self)@
            }),
    {
        let contract_storage_key = ContractStorageKey(contract_address, key);
        self.storage.record_write(contract_storage_key, value);
    }

    /// The cached nonce of a contract, if the cache holds one.
    pub fn get_nonce_at(&self, contract_address: ContractAddress) -> (nonce: Option<&Nonce>)
        ensures
            match nonce {
                Some(cached) => self@.nonces.read(contract_address) == Some(*cached),
                None => self@.nonces.read(contract_address) is None,
            },
    {
        self.nonces.read(&contract_address)
    }

    /// Records the nonce first observed for a contract, unless one is
    /// recorded already.
    pub fn set_nonce_initial_values(&mut self, contract_address: ContractAddress, nonce: Nonce)
        ensures
            final(self)@ == (StateLayers {
                nonces: old(self)@.nonces.record_initial(contract_address, nonce),
                ..old(self)@
            }),
    {
        self.nonces.record_initial(contract_address, nonce);
    }

    /// Records a write of a contract's nonce.
    pub fn set_nonce_writes(&mut self, contract_address: ContractAddress, nonce: Nonce)
        ensures
            final(self)@ == (StateLayers {
                nonces: old(self)@.nonces.record_write(contract_address, nonce),
                ..old(self)@
            }),
    {
        self.nonces.record_write(contract_address, nonce);
    }

    /// The cached class hash of a contract, if the cache holds one.
    pub fn get_class_hash_at(&self, contract_address: ContractAddress) -> (class_hash: Option<
        &ClassHash,
    >)
        ensures
            match class_hash {
                Some(cached) => self@.class_hashes.read(contract_address) == Some(*cached),
                None => self@.class_hashes.read(contract_address) is None,
            },
    {
        self.class_hashes.read(&contract_address)
    }

    /// Records the class hash first observed for a contract, unless one is
    /// recorded already.
    pub fn set_class_hash_initial_values(
        &mut self,
        contract_address: ContractAddress,
        class_hash: ClassHash,
    )
        ensures
            final(self)@ == (StateLayers {
                class_hashes: old(self)@.class_hashes.record_initial(contract_address, class_hash),
                ..old(self)@
            }),
    {
        self.class_hashes.record_initial(contract_address, class_hash);
    }

    /// Records a write of a contract's class hash.
    pub fn set_class_hash_writes(&mut self, contract_address: ContractAddress, class_hash: ClassHash)
        ensures
            final(self)@ == (StateLayers {
                class_hashes: old(self)@.class_hashes.record_write(contract_address, class_hash),
                ..old(self)@
            }),
    {
        self.class_hashes.record_write(contract_address, class_hash);
    }

    /// The diff of all three families. A cell without a first-observed value
    /// is reported as zero before the execution.
    pub fn diff(&self) -> (diff: StateDiff)
        ensures
            diff.storage@ == self@.storage.diff(StarkFelt::zero()),
            diff.nonces@ == self@.nonces.diff(Nonce(StarkFelt::zero())),
            diff.class_hashes@ == self@.class_hashes.diff(ClassHash(StarkFelt::zero())),
            self@.storage.consistent(),
            self@.nonces.consistent(),
            self@.class_hashes.consistent(),
    {
        StateDiff {
            storage: self.storage.diff(StarkFelt::default()),
            nonces: self.nonces.diff(Nonce::default()),
            class_hashes: self.class_hashes.diff(ClassHash::default()),
        }
    }
}

impl Default for StateCache {
    fn default() -> (cache: Self)
        ensures
            cache@ == StateLayers::empty(),
    {
        StateCache::new()
    }
}

} // verus!
