//! In-memory slot-history store. The two concurrent maps come from the
//! `dashmap` crate and are used through trusted wrappers specified against
//! named contents; everything around them is verified.

use vstd::prelude::*;
use crate::persistence::{ChainPollerPersistence, PersistenceError, SlotRecord};
use crate::types::ChainId;
use dashmap::DashMap;

verus! {

/// Declares `dashmap::DashMap` so that the store can hold one; its
/// contents are reasoned about only through the named contents below.
#[verifier::external_type_specification]
#[verifier::external_body]
#[verifier::reject_recursive_types(K)]
#[verifier::reject_recursive_types(V)]
#[verifier::reject_recursive_types(S)]
pub struct ExDashMap<K, V, S>(DashMap<K, V, S>);

/// What a chain-id-to-slot map holds.
pub uninterp spec fn ptr_map_contents(m: DashMap<ChainId, u64>) -> Map<ChainId, u64>;

/// What a `(chain_id, slot)`-to-record map holds.
pub uninterp spec fn slot_map_contents(m: DashMap<(ChainId, u64), SlotRecord>) -> Map<
    (ChainId, u64),
    SlotRecord,
>;

/// Relies on `dashmap::DashMap::new`: the new map is empty.
#[verifier::external_body]
fn ptr_map_new() -> (r: DashMap<ChainId, u64>)
    ensures
        forall|k: ChainId| !ptr_map_contents(r).contains_key(k),
{
    DashMap::new()
}

/// Relies on `dashmap::DashMap::insert`: maps the key to the value,
/// replacing any previous value.
#[verifier::external_body]
fn ptr_map_insert(m: &mut DashMap<ChainId, u64>, key: ChainId, value: u64)
    ensures
        ptr_map_contents(*final(m)) == ptr_map_contents(*old(m)).insert(key, value),
{
    m.insert(key, value);
}

/// Relies on `dashmap::DashMap::get`: the value at the key, if present.
#[verifier::external_body]
fn ptr_map_get(m: &DashMap<ChainId, u64>, key: ChainId) -> (r: Option<u64>)
    ensures
        r == if ptr_map_contents(*m).contains_key(key) {
            Some(ptr_map_contents(*m)[key])
        } else {
            None::<u64>
        },
{
    match m.get(&key) {
        Some(entry) => Some(*entry.value()),
        None => None,
    }
}

/// Relies on `dashmap::DashMap::clear`: removes every entry.
#[verifier::external_body]
fn ptr_map_clear(m: &mut DashMap<ChainId, u64>)
    ensures
        forall|k: ChainId| !ptr_map_contents(*final(m)).contains_key(k),
{
    m.clear();
}

/// Relies on `dashmap::DashMap::new`: the new map is empty.
#[verifier::external_body]
fn slot_map_new() -> (r: DashMap<(ChainId, u64), SlotRecord>)
    ensures
        forall|k: (ChainId, u64)| !slot_map_contents(r).contains_key(k),
{
    DashMap::new()
}

/// Relies on `dashmap::DashMap::insert`: maps the key to the value,
/// replacing any previous value.
#[verifier::external_body]
fn slot_map_insert(m: &mut DashMap<(ChainId, u64), SlotRecord>, key: (ChainId, u64), value: SlotRecord)
    ensures
        slot_map_contents(*final(m)) == slot_map_contents(*old(m)).insert(key, value),
{
    m.insert(key, value);
}

/// Relies on `dashmap::DashMap::get`: the value at the key, if present.
#[verifier::external_body]
fn slot_map_get(m: &DashMap<(ChainId, u64), SlotRecord>, key: (ChainId, u64)) -> (r: Option<
    SlotRecord,
>)
    ensures
        r == if slot_map_contents(*m).contains_key(key) {
            Some(slot_map_contents(*m)[key])
        } else {
            None::<SlotRecord>
        },
{
    match m.get(&key) {
        Some(entry) => Some(entry.value().clone()),
        None => None,
    }
}

/// Relies on `dashmap::DashMap::remove`: takes the entry at the key out,
/// telling whether one was there.
#[verifier::external_body]
fn slot_map_remove(m: &mut DashMap<(ChainId, u64), SlotRecord>, key: (ChainId, u64)) -> (r: bool)
    ensures
        slot_map_contents(*final(m)) == slot_map_contents(*old(m)).remove(key),
        r == slot_map_contents(*old(m)).contains_key(key),
{
    m.remove(&key).is_some()
}

/// Relies on `dashmap::DashMap::clear`: removes every entry.
#[verifier::external_body]
fn slot_map_clear(m: &mut DashMap<(ChainId, u64), SlotRecord>)
    ensures
        forall|k: (ChainId, u64)| !slot_map_contents(*final(m)).contains_key(k),
{
    m.clear();
}

/// A slot-history store backed by two in-process concurrent maps.
pub struct InMemoryChainPollerPersistence {
    last_processed_slots: DashMap<ChainId, u64>,
    slots: DashMap<(ChainId, u64), SlotRecord>,
    closed: bool,
}

impl InMemoryChainPollerPersistence {
    pub fn new() -> (r: Self)
        ensures
            forall|k: (ChainId, u64)| !r.slots().contains_key(k),
            forall|k: ChainId| !r.last_ptr().contains_key(k),
            r.is_open(),
            r.inv(),
    {
        InMemoryChainPollerPersistence {
            last_processed_slots: ptr_map_new(),
            slots: slot_map_new(),
            closed: false,
        }
    }
}

impl Default for InMemoryChainPollerPersistence {
    fn default() -> (r: Self)
        ensures
            forall|k: (ChainId, u64)| !r.slots().contains_key(k),
            forall|k: ChainId| !r.last_ptr().contains_key(k),
            r.is_open(),
            r.inv(),
    {
        InMemoryChainPollerPersistence::new()
    }
}

impl ChainPollerPersistence for InMemoryChainPollerPersistence {
    closed spec fn slots(&self) -> Map<(ChainId, u64), SlotRecord> {
        slot_map_contents(self.slots)
    }

    closed spec fn last_ptr(&self) -> Map<ChainId, u64> {
        ptr_map_contents(self.last_processed_slots)
    }

    closed spec fn is_open(&self) -> bool {
        !self.closed
    }

    closed spec fn inv(&self) -> bool {
        forall|k: (ChainId, u64)| #[trigger]
            slot_map_contents(self.slots).contains_key(k) ==> slot_map_contents(self.slots)[k].chain_id
                == k.0 && slot_map_contents(self.slots)[k].slot == k.1
    }

    proof fn inv_implies_keys_consistent(&self) {
    }

    fn get_last_processed_slot(&self, chain_id: ChainId) -> (r: Result<
        Option<SlotRecord>,
        PersistenceError,
    >)
        ensures
            self.is_open() ==> r is Ok,
    {
        if self.closed {
            return Err(PersistenceError::StoreClosed);
        }
        let slot_num = match ptr_map_get(&self.last_processed_slots, chain_id) {
            Some(v) => v,
            None => {
                return Ok(None);
            },
        };
        match slot_map_get(&self.slots, (chain_id, slot_num)) {
            Some(record) => Ok(Some(record)),
            None => Ok(None),
        }
    }

    fn save_slot(&mut self, record: &SlotRecord) -> (r: Result<(), PersistenceError>)
        ensures
            old(self).is_open() ==> r is Ok,
    {
        if self.closed {
            return Err(PersistenceError::StoreClosed);
        }
        slot_map_insert(&mut self.slots, (record.chain_id, record.slot), record.clone());
        ptr_map_insert(&mut self.last_processed_slots, record.chain_id, record.slot);
        Ok(())
    }

    fn get_slot(&self, chain_id: ChainId, slot_number: u64) -> (r: Result<
        Option<SlotRecord>,
        PersistenceError,
    >)
        ensures
            self.is_open() ==> r is Ok,
    {
        if self.closed {
            return Err(PersistenceError::StoreClosed);
        }
        match slot_map_get(&self.slots, (chain_id, slot_number)) {
            Some(record) => Ok(Some(record)),
            None => Ok(None),
        }
    }

    fn delete_slot(&mut self, chain_id: ChainId, slot_number: u64) -> (r: Result<
        (),
        PersistenceError,
    >)
        ensures
            old(self).is_open() ==> (r is Ok <==> old(self).slots().contains_key(
                (chain_id, slot_number),
            )),
    {
        if self.closed {
            return Err(PersistenceError::StoreClosed);
        }
        if !slot_map_remove(&mut self.slots, (chain_id, slot_number)) {
            return Err(PersistenceError::NotFound);
        }
        Ok(())
    }

    fn close(&mut self) -> (r: Result<(), PersistenceError>)
        ensures
            r is Ok ==> (forall|k: (ChainId, u64)| !final(self).slots().contains_key(k)) && (
            forall|k: ChainId| !final(self).last_ptr().contains_key(k)),
    {
        if self.closed {
            return Err(PersistenceError::StoreClosed);
        }
        self.closed = true;
        ptr_map_clear(&mut self.last_processed_slots);
        slot_map_clear(&mut self.slots);
        Ok(())
    }
}

} // verus!
