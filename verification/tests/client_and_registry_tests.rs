use solana_poller::client::{
    filter_program_logs, retry_backoff_seconds, Client, FixedClient, ProgramLogEntry,
};
use solana_poller::contract_store::{Contract, ContractStore, InMemoryContractStore};
use solana_poller::logging::{logger_filter_directive, LoggerConfig};
use solana_poller::types::{BlockCommitment, SolanaProgramLog, SolanaSlot};

fn contract(name: &str, address: &str, chain_id: u64) -> Contract {
    Contract { name: name.to_string(), address: address.to_string(), chain_id }
}

#[test]
fn backoff_schedule_matches_the_transport_policy() {
    let expected = [1u64, 3, 5, 10, 20, 30, 60];
    for (i, want) in expected.iter().enumerate() {
        assert_eq!(retry_backoff_seconds(i), Some(*want));
    }
    assert_eq!(retry_backoff_seconds(7), None);
    assert_eq!(retry_backoff_seconds(100), None);
}

#[test]
fn filter_keeps_only_lines_of_the_program() {
    let entries = vec![
        ProgramLogEntry {
            signature: "s1".to_string(),
            logs: vec![
                "Program p1 invoke [1]".to_string(),
                "Program log: hello".to_string(),
                "Program p1 success".to_string(),
            ],
        },
        ProgramLogEntry {
            signature: "s2".to_string(),
            logs: vec!["Program p2 invoke [1]".to_string(), "Program p1x".to_string()],
        },
    ];
    let logs = filter_program_logs("p1", 9, &entries);
    assert_eq!(logs.len(), 3);
    assert!(logs[0].log_message == "Program p1 invoke [1]");
    assert_eq!(logs[0].log_index, 0);
    assert!(logs[0].signature == "s1");
    assert_eq!(logs[0].slot, 9);
    assert!(logs[0].program_id == "p1");
    assert!(logs[1].log_message == "Program p1 success");
    assert_eq!(logs[1].log_index, 2);
    // a prefix match is textual: "Program p1x" begins with "Program p1"
    assert!(logs[2].log_message == "Program p1x");
    assert!(logs[2].signature == "s2");
}

#[test]
fn fixed_client_serves_slots_by_number() {
    let s = SolanaSlot {
        slot: 5,
        parent: Some(4),
        blockhash: "h5".to_string(),
        block_time: None,
        transactions: vec![],
        chain_id: 1,
    };
    let mut c = FixedClient::new(5, vec![s], vec![]);
    assert_eq!(c.get_latest_slot().ok().unwrap(), 5);
    let got = c.get_slot_by_number(5).ok().unwrap();
    assert_eq!(got.slot, 5);
    assert!(c.get_slot_by_number(6).is_err());
}

#[test]
fn fixed_client_filters_logs_by_range_and_program() {
    let mk = |p: &str, n: u64| SolanaProgramLog {
        program_id: p.to_string(),
        log_index: 0,
        signature: "s".to_string(),
        slot: n,
        block_time: None,
        log_message: "m".to_string(),
        instruction_index: 0,
    };
    let mut c = FixedClient::new(9, vec![], vec![mk("a", 5), mk("a", 6), mk("b", 5)]);
    let got = c.get_program_logs("a", 5, 5).ok().unwrap();
    assert_eq!(got.len(), 1);
    assert_eq!(got[0].slot, 5);
    assert_eq!(c.log_fetch_count, 1);
    assert!(c.requested_programs[0] == "a");
}

#[test]
fn registry_address_lookup_ignores_case() {
    let store = InMemoryContractStore::new(vec![
        contract("Pool", "AbC", 1),
        contract("Vault", "abd", 1),
    ]);
    // found through lower-casing both sides; an identity lower-casing
    // would miss it
    let c = store.get_contract_by_address("aBc").ok().unwrap().unwrap();
    assert!(c.name == "Pool");
    assert!(store.get_contract_by_address("abe").ok().unwrap().is_none());
}

#[test]
fn registry_name_lookup_is_ascii_case_insensitive_per_chain() {
    let store = InMemoryContractStore::new(vec![
        contract("Pool", "a1", 1),
        contract("pool", "a2", 2),
    ]);
    let c = store.get_contract_by_name_for_chain_id("POOL", 2).ok().unwrap().unwrap();
    assert!(c.address == "a2");
    assert!(store.get_contract_by_name_for_chain_id("POOL", 3).ok().unwrap().is_none());
}

#[test]
fn registry_lists_are_in_registration_order() {
    let store = InMemoryContractStore::new(vec![
        contract("a", "x1", 1),
        contract("b", "x2", 2),
        contract("c", "x3", 1),
    ]);
    let addrs = store.list_contract_addresses_for_chain(1);
    assert_eq!(addrs.len(), 2);
    assert!(addrs[0] == "x1");
    assert!(addrs[1] == "x3");
    let all = store.list_contracts();
    assert_eq!(all.len(), 3);
    assert!(all[1].name == "b");
}

#[test]
fn commitment_wire_names() {
    assert_eq!(BlockCommitment::Finalized.as_str(), "finalized");
    assert_eq!(BlockCommitment::Confirmed.as_str(), "confirmed");
    assert_eq!(BlockCommitment::Processed.as_str(), "processed");
    assert!(BlockCommitment::default() == BlockCommitment::Finalized);
}

#[test]
fn logger_directive_follows_the_debug_flag() {
    assert_eq!(logger_filter_directive(&LoggerConfig { debug: true }), "debug");
    assert_eq!(logger_filter_directive(&LoggerConfig { debug: false }), "info");
}
