use solana_poller::memory::InMemoryChainPollerPersistence;
use solana_poller::persistence::{ChainPollerPersistence, PersistenceError, SlotRecord};

fn record(chain_id: u64, n: u64, hash: &str, parent: u64) -> SlotRecord {
    SlotRecord { slot: n, blockhash: hash.to_string(), parent, block_time: 7, chain_id }
}

#[test]
fn save_then_get_returns_an_equal_record() {
    let mut store = InMemoryChainPollerPersistence::new();
    let rec = record(3, 5, "h5", 4);
    store.save_slot(&rec).ok().unwrap();
    let read = store.get_slot(3, 5).ok().unwrap().unwrap();
    assert!(read == rec);
}

#[test]
fn save_then_last_processed_returns_the_same_record() {
    let mut store = InMemoryChainPollerPersistence::new();
    let rec = record(3, 5, "h5", 4);
    store.save_slot(&rec).ok().unwrap();
    let read = store.get_last_processed_slot(3).ok().unwrap().unwrap();
    assert!(read == rec);
}

#[test]
fn save_overwrites_and_moves_the_pointer() {
    let mut store = InMemoryChainPollerPersistence::new();
    store.save_slot(&record(3, 9, "h9", 8)).ok().unwrap();
    store.save_slot(&record(3, 5, "h5b", 4)).ok().unwrap();
    // the pointer follows the most recent save, even backward
    let read = store.get_last_processed_slot(3).ok().unwrap().unwrap();
    assert_eq!(read.slot, 5);
    assert!(read.blockhash == "h5b");
    // and an overwrite at the same slot replaces the record
    store.save_slot(&record(3, 5, "h5c", 4)).ok().unwrap();
    let read = store.get_slot(3, 5).ok().unwrap().unwrap();
    assert!(read.blockhash == "h5c");
}

#[test]
fn chains_are_independent() {
    let mut store = InMemoryChainPollerPersistence::new();
    store.save_slot(&record(1, 5, "a", 4)).ok().unwrap();
    store.save_slot(&record(2, 9, "b", 8)).ok().unwrap();
    assert_eq!(store.get_last_processed_slot(1).ok().unwrap().unwrap().slot, 5);
    assert_eq!(store.get_last_processed_slot(2).ok().unwrap().unwrap().slot, 9);
    assert!(store.get_last_processed_slot(3).ok().unwrap().is_none());
}

#[test]
fn delete_of_an_absent_record_is_not_found() {
    let mut store = InMemoryChainPollerPersistence::new();
    assert!(matches!(store.delete_slot(1, 5), Err(PersistenceError::NotFound)));
    store.save_slot(&record(1, 5, "h", 4)).ok().unwrap();
    store.delete_slot(1, 5).ok().unwrap();
    assert!(store.get_slot(1, 5).ok().unwrap().is_none());
    assert!(matches!(store.delete_slot(1, 5), Err(PersistenceError::NotFound)));
}

#[test]
fn close_fails_everything_afterwards() {
    let mut store = InMemoryChainPollerPersistence::new();
    store.save_slot(&record(1, 5, "h", 4)).ok().unwrap();
    store.close().ok().unwrap();
    assert!(matches!(store.get_slot(1, 5), Err(PersistenceError::StoreClosed)));
    assert!(matches!(store.get_last_processed_slot(1), Err(PersistenceError::StoreClosed)));
    assert!(matches!(store.save_slot(&record(1, 6, "i", 5)), Err(PersistenceError::StoreClosed)));
    assert!(matches!(store.delete_slot(1, 5), Err(PersistenceError::StoreClosed)));
    // a second close errors too
    assert!(matches!(store.close(), Err(PersistenceError::StoreClosed)));
}

#[test]
fn error_descriptions_are_stable() {
    assert!(PersistenceError::NotFound.describe() == "Item not found");
    assert!(PersistenceError::AlreadyExists.describe() == "Item already exists");
    assert!(PersistenceError::StoreClosed.describe() == "Storage is closed");
    assert!(PersistenceError::InvalidChainId.describe() == "Invalid chain ID");
    assert!(PersistenceError::Other("boom".to_string()).describe() == "boom");
}
