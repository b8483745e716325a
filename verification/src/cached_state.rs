//! The cached state: reads go through the cache to a state source, writes
//! stay in the cache, and the diff of an execution leaves through `finalize`.
//!
//! One cached state serves one execution scope under one thread of control.
//! Calls nested in that scope read and write through the same cached state,
//! one after the other; nothing is merged and nothing is locked. An
//! execution that is cancelled drops its cached state without finalizing it.

use crate::cell_map::CellMap;
use crate::error::StateError;
use crate::felt::{ClassHash, ContractAddress, ContractStorageKey, Nonce, StarkFelt, StorageKey};
use crate::state_cache::{StateCache, StateDiff, StateLayers};
use vstd::prelude::*;

verus! {

/// One cell of contract state.
pub enum StateCell {
    Storage(ContractAddress, StorageKey),
    Nonce(ContractAddress),
    ClassHash(ContractAddress),
}

/// The result of a read, with the value itself in place of the reference to
/// where the cache holds it.
pub open spec fn owned<V>(read: Result<&V, StateError>) -> Result<V, StateError> {
    match read {
        Ok(value) => Ok(*value),
        Err(error) => Err(error),
    }
}

/// A read-only source of contract state.
///
/// A source says with its `may_answer_*` predicates which answers it can
/// give to a read. Unless a source says otherwise they hold of every answer,
/// as befits a source whose answers cannot be foreseen, such as one that asks
/// a remote service.
pub trait StateReader {
    /// Whether `answer` is one that the source can give for the storage cell.
    open spec fn may_answer_storage(
        &self,
        contract_address: ContractAddress,
        key: StorageKey,
        answer: Result<StarkFelt, StateError>,
    ) -> bool {
        true
    }

    /// Whether `answer` is one that the source can give for the nonce.
    open spec fn may_answer_nonce(
        &self,
        contract_address: ContractAddress,
        answer: Result<Nonce, StateError>,
    ) -> bool {
        true
    }

    /// Whether `answer` is one that the source can give for the class hash.
    open spec fn may_answer_class_hash(
        &self,
        contract_address: ContractAddress,
        answer: Result<ClassHash, StateError>,
    ) -> bool {
        true
    }

    /// The storage value under the given key in the given contract instance.
    fn get_storage_at(&self, contract_address: ContractAddress, key: StorageKey) -> (answer: Result<
        StarkFelt,
        StateError,
    >)
        ensures
            self.may_answer_storage(contract_address, key, answer),
    ;

    /// The nonce of the given contract instance.
    fn get_nonce_at(&self, contract_address: ContractAddress) -> (answer: Result<Nonce, StateError>)
        ensures
            self.may_answer_nonce(contract_address, answer),
    ;

    /// The class hash of the contract class at the given contract instance.
    fn get_class_hash_at(&self, contract_address: ContractAddress) -> (answer: Result<
        ClassHash,
        StateError,
    >)
        ensures
            self.may_answer_class_hash(contract_address, answer),
    ;
}

/// The value of a cell that was never assigned.
fn uninitialized_felt() -> (felt: StarkFelt)
    ensures
        felt == StarkFelt::zero(),
{
    StarkFelt::default()
}

/// The value of a storage cell that the source does not hold.
fn default_storage_value() -> (felt: StarkFelt)
    ensures
        felt == StarkFelt::zero(),
{
    uninitialized_felt()
}

/// A state source that answers from dictionaries held in memory. A cell
/// that a dictionary does not hold is answered with zero, not with an error.
pub struct DictStateReader {
    pub contract_storage_key_to_value: CellMap<ContractStorageKey, StarkFelt>,
    pub contract_address_to_nonce: CellMap<ContractAddress, Nonce>,
    pub contract_address_to_class_hash: CellMap<ContractAddress, ClassHash>,
}

impl DictStateReader {
    /// The value that the source answers for a storage cell.
    pub open spec fn storage_value(self, contract_address: ContractAddress, key: StorageKey)
        -> StarkFelt {
        let cell = ContractStorageKey(contract_address, key);
        if self.contract_storage_key_to_value@.contains_key(cell) {
            self.contract_storage_key_to_value@[cell]
        } else {
            StarkFelt::zero()
        }
    }

    /// The nonce that the source answers for a contract.
    pub open spec fn nonce_value(self, contract_address: ContractAddress) -> Nonce {
        if self.contract_address_to_nonce@.contains_key(contract_address) {
            self.contract_address_to_nonce@[contract_address]
        } else {
            Nonce(StarkFelt::zero())
        }
    }

    /// The class hash that the source answers for a contract.
    pub open spec fn class_hash_value(self, contract_address: ContractAddress) -> ClassHash {
        if self.contract_address_to_class_hash@.contains_key(contract_address) {
            self.contract_address_to_class_hash@[contract_address]
        } else {
            ClassHash(StarkFelt::zero())
        }
    }
}

impl Default for DictStateReader {
    /// A source that holds nothing.
    fn default() -> (reader: Self)
        ensures
            reader.contract_storage_key_to_value@ == Map::<ContractStorageKey, StarkFelt>::empty(),
            reader.contract_address_to_nonce@ == Map::<ContractAddress, Nonce>::empty(),
            reader.contract_address_to_class_hash@ == Map::<ContractAddress, ClassHash>::empty(),
    {
        DictStateReader {
            contract_storage_key_to_value: CellMap::new(),
            contract_address_to_nonce: CellMap::new(),
            contract_address_to_class_hash: CellMap::new(),
        }
    }
}

impl StateReader for DictStateReader {
    open spec fn may_answer_storage(
        &self,
        contract_address: ContractAddress,
        key: StorageKey,
        answer: Result<StarkFelt, StateError>,
    ) -> bool {
        answer == Ok::<StarkFelt, StateError>(self.storage_value(contract_address, key))
    }

    open spec fn may_answer_nonce(
        &self,
        contract_address: ContractAddress,
        answer: Result<Nonce, StateError>,
    ) -> bool {
        answer == Ok::<Nonce, StateError>(self.nonce_value(contract_address))
    }

    open spec fn may_answer_class_hash(
        &self,
        contract_address: ContractAddress,
        answer: Result<ClassHash, StateError>,
    ) -> bool {
        answer == Ok::<ClassHash, StateError>(self.class_hash_value(contract_address))
    }

    fn get_storage_at(&self, contract_address: ContractAddress, key: StorageKey) -> (answer: Result<
        StarkFelt,
        StateError,
    >) {
        let contract_storage_key = ContractStorageKey(contract_address, key);
        let value = match self.contract_storage_key_to_value.get(&contract_storage_key) {
            Some(held) => *held,
            None => default_storage_value(),
        };
        Ok(value)
    }

    fn get_nonce_at(&self, contract_address: ContractAddress) -> (answer: Result<Nonce, StateError>) {
        let nonce = match self.contract_address_to_nonce.get(&contract_address) {
            Some(held) => *held,
            None => Nonce::default(),
        };
        Ok(nonce)
    }

    fn get_class_hash_at(&self, contract_address: ContractAddress) -> (answer: Result<
        ClassHash,
        StateError,
    >) {
        let class_hash = match self.contract_address_to_class_hash.get(&contract_address) {
            Some(held) => *held,
            None => ClassHash::default(),
        };
        Ok(class_hash)
    }
}

/// Caches read and write requests.
///
/// Writes are recorded in the cache and never reach the state source. Reads
/// are answered from the cache; a cell that the cache does not hold yet is
/// read from the source once and kept as the cell's first-observed value.
pub struct CachedState<SR: StateReader> {
    pub state_reader: SR,
    cache: StateCache,
    source_reads: Ghost<Seq<StateCell>>,
}

impl<SR: StateReader + Default> Default for CachedState<SR> {
    /// A cached state over the default source, holding nothing yet.
    fn default() -> (state: Self)
        ensures
            state@ == StateLayers::empty(),
            state.source_reads() == Seq::<StateCell>::empty(),
    {
        CachedState::new(SR::default())
    }
}

impl<SR: StateReader> View for CachedState<SR> {
    type V = StateLayers;

    closed spec fn view(&self) -> StateLayers {
        self.cache@
    }
}

impl<SR: StateReader> CachedState<SR> {
    /// The state source that reads go through to.
    pub closed spec fn reader(self) -> SR {
        self.state_reader
    }

    /// The cells for which this cached state asked its source, in order.
    pub closed spec fn source_reads(self) -> Seq<StateCell> {
        self.source_reads@
    }

    /// A cached state over `state_reader` that holds nothing yet.
    pub fn new(state_reader: SR) -> (state: Self)
        ensures
            state.reader() == state_reader,
            state@ == StateLayers::empty(),
            state.source_reads() == Seq::<StateCell>::empty(),
    {
        CachedState { state_reader, cache: StateCache::new(), source_reads: Ghost(Seq::empty()) }
    }

    /// Answers a read of a storage cell for which the source, if it is
    /// asked, gives `answer`: a cached cell is returned from the cache, an
    /// answered one is kept as first observed, a failure is handed on.
    pub fn resolve_storage_at(
        &mut self,
        contract_address: ContractAddress,
        key: StorageKey,
        answer: Result<StarkFelt, StateError>,
    ) -> (value: Result<&StarkFelt, StateError>)
        ensures
            owned(value) == old(self)@.storage.read_through_result(
                ContractStorageKey(contract_address, key),
                answer,
            ),
            final(self)@ == (StateLayers {
                storage: old(self)@.storage.read_through(
                    ContractStorageKey(contract_address, key),
                    answer,
                ),
                ..old(self)@
            }),
            final(self).reader() == old(self).reader(),
            final(self).source_reads() == old(self).source_reads(),
    {
        if self.cache.get_storage_at(contract_address, key).is_none() {
            match answer {
                Ok(storage_value) => {
                    self.cache.set_storage_initial_values(contract_address, key, storage_value);
                },
                Err(error) => {
                    return Err(error);
                },
            }
        }
        self.cache.get_storage_at(contract_address, key).ok_or(StateError::CacheIntegrityViolation)
    }

    /// The value of a storage cell. A cell that the cache does not hold is
    /// read from the source, once; a failure of the source is handed on and
    /// leaves the cache as it was.
    pub fn get_storage_at(&mut self, contract_address: ContractAddress, key: StorageKey) -> (value:
        Result<&StarkFelt, StateError>)
        ensures
            final(self).reader() == old(self).reader(),
            owned(value) == old(self)@.storage.read_through_result(
                ContractStorageKey(contract_address, key),
                owned(value),
            ),
            final(self)@ == (StateLayers {
                storage: old(self)@.storage.read_through(
                    ContractStorageKey(contract_address, key),
                    owned(value),
                ),
                ..old(self)@
            }),
            old(self)@.storage.resolved(ContractStorageKey(contract_address, key))
                ==> final(self).source_reads() == old(self).source_reads(),
            !old(self)@.storage.resolved(ContractStorageKey(contract_address, key)) ==> {
                &&& final(self).source_reads() == old(self).source_reads().push(
                    StateCell::Storage(contract_address, key),
                )
                &&& old(self).reader().may_answer_storage(contract_address, key, owned(value))
            },
    {
        if self.cache.get_storage_at(contract_address, key).is_none() {
            let answer = self.state_reader.get_storage_at(contract_address, key);
            proof {
                self.source_reads@ = self.source_reads@.push(
                    StateCell::Storage(contract_address, key),
                );
            }
            return self.resolve_storage_at(contract_address, key, answer);
        }
        self.cache.get_storage_at(contract_address, key).ok_or(StateError::CacheIntegrityViolation)
    }

    /// Writes a storage cell. The write stays in the cache: the source is
    /// neither asked nor changed.
    pub fn set_storage_at(
        &mut self,
        contract_address: ContractAddress,
        key: StorageKey,
        value: StarkFelt,
    )
        ensures
            final(self)@ == (StateLayers {
                storage: old(self)@.storage.record_write(
                    ContractStorageKey(contract_address, key),
                    value,
                ),
                ..old(self)@
            }),
            final(self).reader() == old(self).reader(),
            final(self).source_reads() == old(self).source_reads(),
    {
        self.cache.set_storage_writes(contract_address, key, value);
    }

    /// Answers a read of a contract's nonce for which the source, if it is
    /// asked, gives `answer`: a cached nonce is returned from the cache, an
    /// answered one is kept as first observed, a failure is handed on.
    pub fn resolve_nonce_at(
        &mut self,
        contract_address: ContractAddress,
        answer: Result<Nonce, StateError>,
    ) -> (nonce: Result<&Nonce, StateError>)
        ensures
            owned(nonce) == old(self)@.nonces.read_through_result(contract_address, answer),
            final(self)@ == (StateLayers {
                nonces: old(self)@.nonces.read_through(contract_address, answer),
                ..old(self)@
            }),
            final(self).reader() == old(self).reader(),
            final(self).source_reads() == old(self).source_reads(),
    {
        if self.cache.get_nonce_at(contract_address).is_none() {
            match answer {
                Ok(nonce) => {
                    self.cache.set_nonce_initial_values(contract_address, nonce);
                },
                Err(error) => {
                    return Err(error);
                },
            }
        }
        self.cache.get_nonce_at(contract_address).ok_or(StateError::CacheIntegrityViolation)
    }

    /// The nonce of a contract. A nonce that the cache does not hold is read
    /// from the source, once; a failure of the source is handed on and leaves
    /// the cache as it was.
    pub fn get_nonce_at(&mut self, contract_address: ContractAddress) -> (nonce: Result<
        &Nonce,
        StateError,
    >)
        ensures
            final(self).reader() == old(self).reader(),
            owned(nonce) == old(self)@.nonces.read_through_result(contract_address, owned(nonce)),
            final(self)@ == (StateLayers {
                nonces: old(self)@.nonces.read_through(contract_address, owned(nonce)),
                ..old(self)@
            }),
            old(self)@.nonces.resolved(contract_address) ==> final(self).source_reads()
                == old(self).source_reads(),
            !old(self)@.nonces.resolved(contract_address) ==> {
                &&& final(self).source_reads() == old(self).source_reads().push(
                    StateCell::Nonce(contract_address),
                )
                &&& old(self).reader().may_answer_nonce(contract_address, owned(nonce))
            },
    {
        if self.cache.get_nonce_at(contract_address).is_none() {
            let answer = self.state_reader.get_nonce_at(contract_address);
            proof {
                self.source_reads@ = self.source_reads@.push(StateCell::Nonce(contract_address));
            }
            return self.resolve_nonce_at(contract_address, answer);
        }
        self.cache.get_nonce_at(contract_address).ok_or(StateError::CacheIntegrityViolation)
    }

    /// Writes a contract's nonce. The write stays in the cache: the source is
    /// neither asked nor changed.
    pub fn set_nonce_at(&mut self, contract_address: ContractAddress, nonce: Nonce)
        ensures
            final(self)@ == (StateLayers {
                nonces: old(self)@.nonces.record_write(contract_address, nonce),
                ..old(self)@
            }),
            final(self).reader() == old(self).reader(),
            final(self).source_reads() == old(self).source_reads(),
    {
        self.cache.set_nonce_writes(contract_address, nonce);
    }

    /// Answers a read of a contract's class hash for which the source, if it
    /// is asked, gives `answer`: a cached class hash is returned from the
    /// cache, an answered one is kept as first observed, a failure is handed
    /// on.
    pub fn resolve_class_hash_at(
        &mut self,
        contract_address: ContractAddress,
        answer: Result<ClassHash, StateError>,
    ) -> (class_hash: Result<&ClassHash, StateError>)
        ensures
            owned(class_hash) == old(self)@.class_hashes.read_through_result(
                contract_address,
                answer,
            ),
            final(self)@ == (StateLayers {
                class_hashes: old(self)@.class_hashes.read_through(contract_address, answer),
                ..old(self)@
            }),
            final(self).reader() == old(self).reader(),
            final(self).source_reads() == old(self).source_reads(),
    {
        if self.cache.get_class_hash_at(contract_address).is_none() {
            match answer {
                Ok(class_hash) => {
                    self.cache.set_class_hash_initial_values(contract_address, class_hash);
                },
                Err(error) => {
                    return Err(error);
                },
            }
        }
        self.cache.get_class_hash_at(contract_address).ok_or(StateError::CacheIntegrityViolation)
    }

    /// The class hash of a contract. A class hash that the cache does not
    /// hold is read from the source, once; a failure of the source is handed
    /// on and leaves the cache as it was.
    pub fn get_class_hash_at(&mut self, contract_address: ContractAddress) -> (class_hash: Result<
        &ClassHash,
        StateError,
    >)
        ensures
            final(self).reader() == old(self).reader(),
            owned(class_hash) == old(self)@.class_hashes.read_through_result(
                contract_address,
                owned(class_hash),
            ),
            final(self)@ == (StateLayers {
                class_hashes: old(self)@.class_hashes.read_through(
                    contract_address,
                    owned(class_hash),
                ),
                ..old(self)@
            }),
            old(self)@.class_hashes.resolved(contract_address) ==> final(self).source_reads()
                == old(self).source_reads(),
            !old(self)@.class_hashes.resolved(contract_address) ==> {
                &&& final(self).source_reads() == old(self).source_reads().push(
                    StateCell::ClassHash(contract_address),
                )
                &&& old(self).reader().may_answer_class_hash(contract_address, owned(class_hash))
            },
    {
        if self.cache.get_class_hash_at(contract_address).is_none() {
            let answer = self.state_reader.get_class_hash_at(contract_address);
            proof {
                self.source_reads@ = self.source_reads@.push(
                    StateCell::ClassHash(contract_address),
                );
            }
            return self.resolve_class_hash_at(contract_address, answer);
        }
        self.cache.get_class_hash_at(contract_address).ok_or(StateError::CacheIntegrityViolation)
    }

    /// Writes a contract's class hash. The write stays in the cache: the
    /// source is neither asked nor changed.
    pub fn set_class_hash_at(&mut self, contract_address: ContractAddress, class_hash: ClassHash)
        ensures
            final(self)@ == (StateLayers {
                class_hashes: old(self)@.class_hashes.record_write(contract_address, class_hash),
                ..old(self)@
            }),
            final(self).reader() == old(self).reader(),
            final(self).source_reads() == old(self).source_reads(),
    {
        self.cache.set_class_hash_writes(contract_address, class_hash);
    }

    /// Ends the execution and hands out its diff: for each family, the cells
    /// that were written, each with its value before and after. The cached
    /// state is used up: after its diff has left it, nothing can be read or
    /// written through it.
    pub fn finalize(self) -> (diff: StateDiff)
        ensures
            diff.storage@ == self@.storage.diff(StarkFelt::zero()),
            diff.nonces@ == self@.nonces.diff(Nonce(StarkFelt::zero())),
            diff.class_hashes@ == self@.class_hashes.diff(ClassHash(StarkFelt::zero())),
            self@.storage.consistent(),
            self@.nonces.consistent(),
            self@.class_hashes.consistent(),
    {
        self.cache.diff()
    }
}

} // verus!
