use solana_poller::parser::{decode_log_message, LogParser, TransactionLogParser};
use solana_poller::types::SolanaProgramLog;

fn raw(program: &str, idx: u64, message: &str) -> SolanaProgramLog {
    SolanaProgramLog {
        program_id: program.to_string(),
        log_index: idx,
        signature: "sig".to_string(),
        slot: 7,
        block_time: None,
        log_message: message.to_string(),
        instruction_index: 0,
    }
}

#[test]
fn program_log_message_decodes_to_program_log_event() {
    let d = decode_log_message("p1", &raw("p1", 3, "Program log: hello"));
    assert!(d.event_name == "ProgramLog");
    assert!(d.address == "p1");
    assert_eq!(d.log_index, 3);
    assert_eq!(d.arguments.len(), 1);
    assert!(d.arguments[0].name == "message");
    assert!(d.arguments[0].arg_type == "string");
    assert!(d.arguments[0].value == "hello");
    assert!(!d.arguments[0].indexed);
    assert_eq!(d.output_data.len(), 1);
    assert!(d.output_data[0].0 == "message");
    assert!(d.output_data[0].1 == "hello");
}

#[test]
fn other_message_decodes_to_unknown_event() {
    let d = decode_log_message("p1", &raw("p1", 0, "Program p1 invoke [1]"));
    assert!(d.event_name == "Unknown");
    assert!(d.arguments[0].name == "raw");
    assert!(d.arguments[0].value == "Program p1 invoke [1]");
    assert!(d.output_data[0].0 == "raw");
    assert!(d.output_data[0].1 == "Program p1 invoke [1]");
}

#[test]
fn empty_payload_after_marker_is_kept() {
    let d = decode_log_message("p1", &raw("p1", 0, "Program log: "));
    assert!(d.event_name == "ProgramLog");
    assert!(d.output_data[0].1 == "");
}

#[test]
fn marker_must_match_exactly() {
    // a shorter or different prefix is not the marker
    let d = decode_log_message("p1", &raw("p1", 0, "Program log:x"));
    assert!(d.event_name == "Unknown");
    let d = decode_log_message("p1", &raw("p1", 0, "Program lo"));
    assert!(d.event_name == "Unknown");
}

#[test]
fn the_built_in_parser_never_fails() {
    let parser = TransactionLogParser::new();
    let d = parser.decode_log("p9", &raw("p9", 1, "Program log: x")).ok().unwrap();
    assert!(d.event_name == "ProgramLog");
    assert!(d.address == "p9");
    assert_eq!(d.log_index, 1);
}
