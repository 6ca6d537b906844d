use solana_poller::client::FixedClient;
use solana_poller::contract_store::InMemoryContractStore;
use solana_poller::handler::{PollerEvent, RecordingSlotHandler};
use solana_poller::memory::InMemoryChainPollerPersistence;
use solana_poller::parser::TransactionLogParser;
use solana_poller::persistence::{ChainPollerPersistence, SlotRecord};
use solana_poller::poller::{SolanaChainPoller, SolanaChainPollerConfig, TickOutcome};
use solana_poller::types::{SolanaProgramLog, SolanaSlot};

type Poller = SolanaChainPoller<
    FixedClient,
    InMemoryChainPollerPersistence,
    TransactionLogParser,
    InMemoryContractStore,
    RecordingSlotHandler,
>;

fn base_config(chain_id: u64) -> SolanaChainPollerConfig {
    SolanaChainPollerConfig {
        chain_id,
        polling_interval_ms: 10,
        interesting_programs: vec![],
        max_reorg_depth: 10,
        slot_history_size: 100,
        reorg_check_enabled: true,
    }
}

fn slot(chain_id: u64, n: u64, parent: Option<u64>, hash: &str) -> SolanaSlot {
    SolanaSlot {
        slot: n,
        parent,
        blockhash: hash.to_string(),
        block_time: None,
        transactions: vec![],
        chain_id,
    }
}

fn raw_log(program: &str, n: u64, idx: u64, message: &str) -> SolanaProgramLog {
    SolanaProgramLog {
        program_id: program.to_string(),
        log_index: idx,
        signature: "sig".to_string(),
        slot: n,
        block_time: None,
        log_message: message.to_string(),
        instruction_index: 0,
    }
}

fn record(chain_id: u64, n: u64, hash: &str, parent: u64) -> SlotRecord {
    SlotRecord { slot: n, blockhash: hash.to_string(), parent, block_time: 0, chain_id }
}

fn poller(config: SolanaChainPollerConfig, client: FixedClient, store: InMemoryChainPollerPersistence) -> Poller {
    SolanaChainPoller::new(
        client,
        TransactionLogParser::new(),
        config,
        InMemoryContractStore::new(vec![]),
        store,
        RecordingSlotHandler::new(),
    )
}

#[test]
fn config_zeroes_are_normalized() {
    let mut config = base_config(1);
    config.max_reorg_depth = 0;
    config.slot_history_size = 0;
    config.reorg_check_enabled = false;
    let p = poller(config, FixedClient::new(0, vec![], vec![]), InMemoryChainPollerPersistence::new());
    assert_eq!(p.config.max_reorg_depth, 10);
    assert_eq!(p.config.slot_history_size, 100);
    assert!(p.config.reorg_check_enabled);
}

#[test]
fn config_nonzero_values_are_kept() {
    let mut config = base_config(1);
    config.max_reorg_depth = 4;
    config.slot_history_size = 3;
    let p = poller(config, FixedClient::new(0, vec![], vec![]), InMemoryChainPollerPersistence::new());
    assert_eq!(p.config.max_reorg_depth, 4);
    assert_eq!(p.config.slot_history_size, 3);
}

#[test]
fn cold_start_synthesizes_and_persists_latest_slot() {
    let mut canon = slot(1, 500, Some(499), "hA");
    canon.block_time = Some(1000);
    let client = FixedClient::new(500, vec![canon], vec![]);
    let mut p = poller(base_config(1), client, InMemoryChainPollerPersistence::new());
    let rec = p.bootstrap().ok().unwrap();
    assert_eq!(rec.slot, 500);
    assert!(rec.blockhash == "hA");
    assert_eq!(rec.parent, 499);
    assert_eq!(rec.block_time, 1000);
    assert_eq!(rec.chain_id, 1);
    let read = p.store.get_last_processed_slot(1).ok().unwrap().unwrap();
    assert_eq!(read.slot, 500);
    assert!(read.blockhash == "hA");
}

#[test]
fn bootstrap_uses_existing_record() {
    let mut store = InMemoryChainPollerPersistence::new();
    store.save_slot(&record(1, 42, "h42", 41)).ok().unwrap();
    let client = FixedClient::new(999, vec![], vec![]);
    let mut p = poller(base_config(1), client, store);
    let rec = p.bootstrap().ok().unwrap();
    assert_eq!(rec.slot, 42);
}

#[test]
fn single_forward_step_delivers_slot_then_log() {
    let mut store = InMemoryChainPollerPersistence::new();
    store.save_slot(&record(1, 100, "h100", 99)).ok().unwrap();
    let client = FixedClient::new(
        101,
        vec![slot(1, 101, Some(100), "h101")],
        vec![raw_log("p", 101, 0, "Program log: hello")],
    );
    let mut config = base_config(1);
    config.interesting_programs = vec!["P".to_string()];
    let mut p = poller(config, client, store);
    let outcome = p.process_next_slot().ok().unwrap();
    assert!(matches!(outcome, TickOutcome::Advanced { from: 100, to: 101, .. }));
    // the program identifier was lower-cased before the fetch
    assert!(p.client.requested_programs[0] == "p");
    // one slot announcement, then its log
    assert_eq!(p.slot_handler.events.len(), 2);
    assert!(p.slot_handler.events[0] == PollerEvent::Slot { slot: 101, parent: 100 });
    assert!(p.slot_handler.events[1] == PollerEvent::Log { slot: 101, log_index: 0 });
    let delivered = &p.slot_handler.logs_seen[0];
    assert!(delivered.log.event_name == "ProgramLog");
    assert!(delivered.log.output_data[0].0 == "message");
    assert!(delivered.log.output_data[0].1 == "hello");
    assert!(delivered.raw_log.log_message == "Program log: hello");
    assert_eq!(delivered.slot.slot, 101);
    let last = p.store.get_last_processed_slot(1).ok().unwrap().unwrap();
    assert_eq!(last.slot, 101);
}

#[test]
fn reorg_of_depth_two_orphans_descending() {
    let mut store = InMemoryChainPollerPersistence::new();
    store.save_slot(&record(1, 100, "h100", 99)).ok().unwrap();
    store.save_slot(&record(1, 101, "h101", 100)).ok().unwrap();
    store.save_slot(&record(1, 102, "h102", 101)).ok().unwrap();
    let client = FixedClient::new(
        103,
        vec![
            slot(1, 103, Some(99), "h103x"),
            slot(1, 102, Some(101), "h102x"),
            slot(1, 101, Some(100), "h101x"),
            slot(1, 100, Some(99), "h100"),
        ],
        vec![],
    );
    let mut p = poller(base_config(1), client, store);
    let outcome = p.process_next_slot().ok().unwrap();
    match outcome {
        TickOutcome::ReorgHandled { detected_at, orphaned } => {
            assert_eq!(detected_at, 103);
            assert_eq!(orphaned, vec![102, 101]);
        },
        _ => panic!("expected a reconciled reorg"),
    }
    // notifications most recent first
    assert_eq!(p.slot_handler.reorgs_seen, vec![102, 101]);
    // orphaned records deleted, the common ancestor kept
    assert!(p.store.get_slot(1, 102).ok().unwrap().is_none());
    assert!(p.store.get_slot(1, 101).ok().unwrap().is_none());
    assert!(p.store.get_slot(1, 100).ok().unwrap().is_some());
}

#[test]
fn reorg_search_halts_at_slot_one() {
    let mut store = InMemoryChainPollerPersistence::new();
    store.save_slot(&record(1, 1, "h1", 0)).ok().unwrap();
    store.save_slot(&record(1, 2, "h2", 1)).ok().unwrap();
    // every served ancestor diverges; slot 0 is never requested (the
    // scripted client would fail such a request)
    let client = FixedClient::new(
        3,
        vec![
            slot(1, 3, Some(0), "h3x"),
            slot(1, 2, Some(1), "h2x"),
            slot(1, 1, Some(0), "h1x"),
        ],
        vec![],
    );
    let mut config = base_config(1);
    config.max_reorg_depth = 10;
    let mut p = poller(config, client, store);
    let outcome = p.process_next_slot().ok().unwrap();
    match outcome {
        TickOutcome::ReorgHandled { orphaned, .. } => {
            assert_eq!(orphaned, vec![2, 1]);
        },
        _ => panic!("expected a reconciled reorg"),
    }
    assert_eq!(p.slot_handler.reorgs_seen, vec![2, 1]);
}

#[test]
fn empty_program_list_fetches_nothing_and_advances() {
    let mut store = InMemoryChainPollerPersistence::new();
    store.save_slot(&record(1, 100, "h100", 99)).ok().unwrap();
    let client = FixedClient::new(101, vec![slot(1, 101, Some(100), "h101")], vec![]);
    let mut p = poller(base_config(1), client, store);
    let outcome = p.process_next_slot().ok().unwrap();
    assert!(matches!(outcome, TickOutcome::Advanced { from: 100, to: 101, .. }));
    assert_eq!(p.client.log_fetch_count, 0);
    let last = p.store.get_last_processed_slot(1).ok().unwrap().unwrap();
    assert_eq!(last.slot, 101);
}

#[test]
fn empty_program_names_are_dropped() {
    let mut store = InMemoryChainPollerPersistence::new();
    store.save_slot(&record(1, 100, "h100", 99)).ok().unwrap();
    let client = FixedClient::new(101, vec![slot(1, 101, Some(100), "h101")], vec![]);
    let mut config = base_config(1);
    config.interesting_programs = vec!["".to_string(), "Q".to_string()];
    let mut p = poller(config, client, store);
    p.process_next_slot().ok().unwrap();
    assert_eq!(p.client.log_fetch_count, 1);
    assert!(p.client.requested_programs[0] == "q");
}

#[test]
fn rpc_failure_aborts_tick_and_retry_succeeds() {
    let mut store = InMemoryChainPollerPersistence::new();
    store.save_slot(&record(1, 100, "h100", 99)).ok().unwrap();
    let mut client = FixedClient::new(
        101,
        vec![slot(1, 101, Some(100), "h101")],
        vec![raw_log("p", 101, 0, "Program log: x")],
    );
    client.fail_program_logs = true;
    let mut config = base_config(1);
    config.interesting_programs = vec!["p".to_string()];
    let mut p = poller(config, client, store);
    assert!(p.process_next_slot().is_err());
    // cursor unchanged
    let last = p.store.get_last_processed_slot(1).ok().unwrap().unwrap();
    assert_eq!(last.slot, 100);
    // the slot announcement happened before the failed fetch
    assert_eq!(p.slot_handler.events.len(), 1);
    assert!(p.slot_handler.events[0] == PollerEvent::Slot { slot: 101, parent: 100 });
    // next tick re-fetches the same slot and succeeds
    p.client.fail_program_logs = false;
    let outcome = p.process_next_slot().ok().unwrap();
    assert!(matches!(outcome, TickOutcome::Advanced { from: 100, to: 101, .. }));
    assert!(p.slot_handler.events[1] == PollerEvent::Slot { slot: 101, parent: 100 });
    assert!(p.slot_handler.events[2] == PollerEvent::Log { slot: 101, log_index: 0 });
    let last = p.store.get_last_processed_slot(1).ok().unwrap().unwrap();
    assert_eq!(last.slot, 101);
}

#[test]
fn pruning_deletes_the_record_behind_the_window() {
    let mut store = InMemoryChainPollerPersistence::new();
    store.save_slot(&record(1, 8, "h8", 7)).ok().unwrap();
    store.save_slot(&record(1, 10, "h10", 9)).ok().unwrap();
    let client = FixedClient::new(11, vec![slot(1, 11, Some(10), "h11")], vec![]);
    let mut config = base_config(1);
    config.slot_history_size = 3;
    let mut p = poller(config, client, store);
    let outcome = p.process_next_slot().ok().unwrap();
    match outcome {
        TickOutcome::Advanced { from, to, prune_failures } => {
            assert_eq!((from, to, prune_failures), (10, 11, 0));
        },
        _ => panic!("expected an advance"),
    }
    assert!(p.store.get_slot(1, 8).ok().unwrap().is_none());
    assert!(p.store.get_slot(1, 11).ok().unwrap().is_some());
}

#[test]
fn pruning_an_absent_record_is_not_an_error() {
    let mut store = InMemoryChainPollerPersistence::new();
    store.save_slot(&record(1, 10, "h10", 9)).ok().unwrap();
    let client = FixedClient::new(11, vec![slot(1, 11, Some(10), "h11")], vec![]);
    let mut config = base_config(1);
    config.slot_history_size = 3;
    let mut p = poller(config, client, store);
    match p.process_next_slot().ok().unwrap() {
        TickOutcome::Advanced { prune_failures, .. } => assert_eq!(prune_failures, 0),
        _ => panic!("expected an advance"),
    }
}

#[test]
fn handle_slot_error_is_swallowed_but_handle_log_error_aborts() {
    // a slot with two logs; a failing handle_slot leaves the tick intact
    let mut store = InMemoryChainPollerPersistence::new();
    store.save_slot(&record(1, 100, "h100", 99)).ok().unwrap();
    let client = FixedClient::new(
        101,
        vec![slot(1, 101, Some(100), "h101")],
        vec![
            raw_log("p", 101, 0, "Program log: a"),
            raw_log("p", 101, 1, "Program log: b"),
        ],
    );
    let mut config = base_config(1);
    config.interesting_programs = vec!["p".to_string()];
    let mut p = poller(config, client, store);
    p.slot_handler.fail_handle_slot = true;
    let outcome = p.process_next_slot().ok().unwrap();
    assert!(matches!(outcome, TickOutcome::Advanced { from: 100, to: 101, .. }));
    assert_eq!(p.slot_handler.logs_seen.len(), 2);
    assert_eq!(p.store.get_last_processed_slot(1).ok().unwrap().unwrap().slot, 101);
}

#[test]
fn handle_log_error_aborts_and_re_tick_replays() {
    let mut store = InMemoryChainPollerPersistence::new();
    store.save_slot(&record(1, 100, "h100", 99)).ok().unwrap();
    let client = FixedClient::new(
        101,
        vec![slot(1, 101, Some(100), "h101")],
        vec![
            raw_log("p", 101, 0, "Program log: a"),
            raw_log("p", 101, 1, "Program log: b"),
        ],
    );
    let mut config = base_config(1);
    config.interesting_programs = vec!["p".to_string()];
    let mut p = poller(config, client, store);
    p.slot_handler.fail_handle_log = true;
    assert!(p.process_next_slot().is_err());
    // the first log aborted the tick: the second was never delivered and
    // the slot record was not persisted
    assert_eq!(p.slot_handler.logs_seen.len(), 1);
    assert_eq!(p.store.get_last_processed_slot(1).ok().unwrap().unwrap().slot, 100);
    let first_events = p.slot_handler.events.clone();
    assert!(first_events == vec![
        PollerEvent::Slot { slot: 101, parent: 100 },
        PollerEvent::Log { slot: 101, log_index: 0 },
    ]);
    // rerunning the tick replays the same deliveries for that slot
    p.slot_handler.fail_handle_log = false;
    p.process_next_slot().ok().unwrap();
    assert!(p.slot_handler.events[2] == first_events[0]);
    assert!(p.slot_handler.events[3] == first_events[1]);
    assert!(p.slot_handler.events[4] == PollerEvent::Log { slot: 101, log_index: 1 });
    assert_eq!(p.store.get_last_processed_slot(1).ok().unwrap().unwrap().slot, 101);
}

#[test]
fn stable_chain_catches_up_to_latest() {
    let mut store = InMemoryChainPollerPersistence::new();
    store.save_slot(&record(1, 100, "h100", 99)).ok().unwrap();
    let client = FixedClient::new(
        103,
        vec![
            slot(1, 101, Some(100), "h101"),
            slot(1, 102, Some(101), "h102"),
            slot(1, 103, Some(102), "h103"),
        ],
        vec![],
    );
    let mut p = poller(base_config(1), client, store);
    let outcome = p.process_next_slot().ok().unwrap();
    assert!(matches!(outcome, TickOutcome::Advanced { from: 100, to: 103, .. }));
    assert_eq!(p.store.get_last_processed_slot(1).ok().unwrap().unwrap().slot, 103);
    // slots announced in ascending order, each naming its predecessor
    assert!(p.slot_handler.events == vec![
        PollerEvent::Slot { slot: 101, parent: 100 },
        PollerEvent::Slot { slot: 102, parent: 101 },
        PollerEvent::Slot { slot: 103, parent: 102 },
    ]);
    // a second tick on the unchanged chain does nothing
    let outcome = p.process_next_slot().ok().unwrap();
    assert!(matches!(outcome, TickOutcome::NoWork));
    assert_eq!(p.slot_handler.events.len(), 3);
}

#[test]
fn latest_behind_cursor_is_no_work() {
    let mut store = InMemoryChainPollerPersistence::new();
    store.save_slot(&record(1, 100, "h100", 99)).ok().unwrap();
    let client = FixedClient::new(90, vec![], vec![]);
    let mut p = poller(base_config(1), client, store);
    let outcome = p.process_next_slot().ok().unwrap();
    assert!(matches!(outcome, TickOutcome::NoWork));
}

#[test]
fn reorg_with_matching_ancestry_fails_reconciliation() {
    // the parent check trips, but the stored ancestor still matches the
    // canonical chain: reconciliation finds no orphan and reports failure
    let mut store = InMemoryChainPollerPersistence::new();
    store.save_slot(&record(1, 100, "h100", 99)).ok().unwrap();
    let client = FixedClient::new(
        101,
        vec![slot(1, 101, Some(98), "h101"), slot(1, 100, Some(99), "h100")],
        vec![],
    );
    let mut p = poller(base_config(1), client, store);
    let outcome = p.process_next_slot().ok().unwrap();
    assert!(matches!(outcome, TickOutcome::ReorgFailed { detected_at: 101 }));
    assert!(p.slot_handler.reorgs_seen.is_empty());
    // the cursor is untouched; the next tick will re-detect the reorg
    assert_eq!(p.store.get_last_processed_slot(1).ok().unwrap().unwrap().slot, 100);
}

#[test]
fn missing_ancestor_is_repaired_during_the_walk() {
    // the record for slot 101 is missing locally; the walk synthesizes it
    // from the canonical slot, finds it equal, and stops there
    let mut store = InMemoryChainPollerPersistence::new();
    store.save_slot(&record(1, 102, "h102", 101)).ok().unwrap();
    let client = FixedClient::new(
        103,
        vec![
            slot(1, 103, Some(100), "h103x"),
            slot(1, 102, Some(101), "h102x"),
            slot(1, 101, Some(100), "h101"),
        ],
        vec![],
    );
    let mut p = poller(base_config(1), client, store);
    let outcome = p.process_next_slot().ok().unwrap();
    match outcome {
        TickOutcome::ReorgHandled { detected_at, orphaned } => {
            assert_eq!(detected_at, 103);
            assert_eq!(orphaned, vec![102]);
        },
        _ => panic!("expected a reconciled reorg"),
    }
    // the synthesized common ancestor was persisted and the orphan removed
    let repaired = p.store.get_slot(1, 101).ok().unwrap().unwrap();
    assert!(repaired.blockhash == "h101");
    assert!(p.store.get_slot(1, 102).ok().unwrap().is_none());
}
