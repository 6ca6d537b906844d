//! The slot-history persistence contract: per-chain slot records keyed by
//! `(chain_id, slot)` plus a per-chain last-processed pointer.

use vstd::prelude::*;
use vstd::string::*;
use crate::types::ChainId;

verus! {

/// The unit of persisted chain state.
pub struct SlotRecord {
    pub slot: u64,
    pub blockhash: String,
    pub parent: u64,
    pub block_time: u64,
    pub chain_id: ChainId,
}

impl Clone for SlotRecord {
    fn clone(&self) -> (r: Self)
        ensures
            r == *self,
    {
        SlotRecord {
            slot: self.slot,
            blockhash: self.blockhash.clone(),
            parent: self.parent,
            block_time: self.block_time,
            chain_id: self.chain_id,
        }
    }
}

impl PartialEq for SlotRecord {
    fn eq(&self, other: &Self) -> (r: bool) {
        self.slot == other.slot && self.blockhash == other.blockhash && self.parent
            == other.parent && self.block_time == other.block_time && self.chain_id
            == other.chain_id
    }
}

impl vstd::std_specs::cmp::PartialEqSpecImpl for SlotRecord {
    open spec fn obeys_eq_spec() -> bool {
        true
    }

    open spec fn eq_spec(&self, other: &Self) -> bool {
        self.slot == other.slot && self.blockhash@ == other.blockhash@ && self.parent
            == other.parent && self.block_time == other.block_time && self.chain_id
            == other.chain_id
    }
}

/// Error kinds surfaced by persistence backends.
pub enum PersistenceError {
    NotFound,
    AlreadyExists,
    StoreClosed,
    InvalidChainId,
    Other(String),
}

impl PersistenceError {
    /// A human-readable description of the error.
    pub fn describe(&self) -> String {
        match self {
            PersistenceError::NotFound => String::from_str("Item not found"),
            PersistenceError::AlreadyExists => String::from_str("Item already exists"),
            PersistenceError::StoreClosed => String::from_str("Storage is closed"),
            PersistenceError::InvalidChainId => String::from_str("Invalid chain ID"),
            PersistenceError::Other(message) => message.clone(),
        }
    }
}

/// Capability interface of a slot-history store.
///
/// A store models two maps: the slot records keyed by `(chain_id, slot)`,
/// and the per-chain last-processed pointer. `save_slot` overwrites the
/// record at its key and moves the pointer unconditionally; `delete_slot`
/// reports `NotFound` exactly when the record is absent; after a successful
/// `close` every operation fails with `StoreClosed`.
pub trait ChainPollerPersistence: Sized {
    /// The persisted slot records.
    spec fn slots(&self) -> Map<(ChainId, u64), SlotRecord>;

    /// The per-chain last-processed pointer.
    spec fn last_ptr(&self) -> Map<ChainId, u64>;

    /// Whether the store still accepts operations.
    spec fn is_open(&self) -> bool;

    /// The store's internal well-formedness. It is at least key
    /// consistency: every record sits under the key made of its own
    /// `chain_id` and `slot`.
    spec fn inv(&self) -> bool;

    /// Key consistency, implied by `inv`.
    proof fn inv_implies_keys_consistent(&self)
        requires
            self.inv(),
        ensures
            forall|k: (ChainId, u64)| #[trigger]
                self.slots().contains_key(k) ==> self.slots()[k].chain_id == k.0
                    && self.slots()[k].slot == k.1,
    ;

    /// Looks up the pointer, then the record it references; `None` when
    /// either is missing.
    fn get_last_processed_slot(&self, chain_id: ChainId) -> (r: Result<
        Option<SlotRecord>,
        PersistenceError,
    >)
        requires
            self.inv(),
        ensures
            r matches Ok(Some(rec)) ==> {
                &&& self.last_ptr().contains_key(chain_id)
                &&& self.last_ptr()[chain_id] == rec.slot
                &&& self.slots().contains_key((chain_id, rec.slot))
                &&& self.slots()[(chain_id, rec.slot)] == rec
                &&& rec.chain_id == chain_id
            },
            r matches Ok(None) ==> (!self.last_ptr().contains_key(chain_id) || !self.slots(
            ).contains_key((chain_id, self.last_ptr()[chain_id]))),
            !self.is_open() ==> r == Err::<Option<SlotRecord>, PersistenceError>(
                PersistenceError::StoreClosed,
            ),
    ;

    /// Overwrites the record at `(record.chain_id, record.slot)` and moves
    /// the last-processed pointer to `record.slot`.
    fn save_slot(&mut self, record: &SlotRecord) -> (r: Result<(), PersistenceError>)
        requires
            old(self).inv(),
        ensures
            final(self).inv(),
            r is Ok ==> final(self).slots() == old(self).slots().insert(
                (record.chain_id, record.slot),
                *record,
            ) && final(self).last_ptr() == old(self).last_ptr().insert(
                record.chain_id,
                record.slot,
            ),
            r is Err ==> final(self).slots() == old(self).slots() && final(self).last_ptr() == old(self).last_ptr(),
            final(self).is_open() == old(self).is_open(),
            !old(self).is_open() ==> r == Err::<(), PersistenceError>(PersistenceError::StoreClosed),
    ;

    /// Reads the record at `(chain_id, slot_number)`.
    fn get_slot(&self, chain_id: ChainId, slot_number: u64) -> (r: Result<
        Option<SlotRecord>,
        PersistenceError,
    >)
        requires
            self.inv(),
        ensures
            r matches Ok(Some(rec)) ==> self.slots().contains_key((chain_id, slot_number))
                && self.slots()[(chain_id, slot_number)] == rec,
            r matches Ok(None) ==> !self.slots().contains_key((chain_id, slot_number)),
            !self.is_open() ==> r == Err::<Option<SlotRecord>, PersistenceError>(
                PersistenceError::StoreClosed,
            ),
    ;

    /// Removes the record at `(chain_id, slot_number)`; `NotFound` exactly
    /// when it is absent. The pointer is left alone.
    fn delete_slot(&mut self, chain_id: ChainId, slot_number: u64) -> (r: Result<
        (),
        PersistenceError,
    >)
        requires
            old(self).inv(),
        ensures
            final(self).inv(),
            r is Ok ==> old(self).slots().contains_key((chain_id, slot_number)) && final(self).slots() == old(self).slots().remove((chain_id, slot_number)),
            r is Err ==> final(self).slots() == old(self).slots(),
            final(self).last_ptr() == old(self).last_ptr(),
            final(self).is_open() == old(self).is_open(),
            r == Err::<(), PersistenceError>(PersistenceError::NotFound) ==> !old(self).slots().contains_key((chain_id, slot_number)),
            !old(self).is_open() ==> r == Err::<(), PersistenceError>(PersistenceError::StoreClosed),
    ;

    /// Closes the store; afterwards every operation fails with
    /// `StoreClosed`, a second `close` included.
    fn close(&mut self) -> (r: Result<(), PersistenceError>)
        requires
            old(self).inv(),
        ensures
            final(self).inv(),
            old(self).is_open() ==> r is Ok,
            r is Ok ==> !final(self).is_open(),
            !old(self).is_open() ==> r == Err::<(), PersistenceError>(PersistenceError::StoreClosed)
                && final(self).slots() == old(self).slots() && final(self).last_ptr() == old(self).last_ptr() && !final(self).is_open(),
    ;
}

/// Law: a record just saved is the record read back, and the last-processed
/// pointer follows it. Stated over the store model that `save_slot`,
/// `get_slot` and `get_last_processed_slot` are specified against.
pub proof fn lemma_save_slot_round_trip(
    slots: Map<(ChainId, u64), SlotRecord>,
    ptrs: Map<ChainId, u64>,
    rec: SlotRecord,
)
    ensures
        slots.insert((rec.chain_id, rec.slot), rec)[(rec.chain_id, rec.slot)] == rec,
        slots.insert((rec.chain_id, rec.slot), rec).contains_key((rec.chain_id, rec.slot)),
        ptrs.insert(rec.chain_id, rec.slot)[rec.chain_id] == rec.slot,
        ptrs.insert(rec.chain_id, rec.slot).contains_key(rec.chain_id),
{
}

} // verus!
