//! Decoding of raw program log lines into structured events.

use vstd::prelude::*;
use vstd::string::*;
use crate::text::{is_prefix_of, starts_with_str, suffix_after};
use crate::types::SolanaProgramLog;

verus! {

/// One decoded argument of an event.
#[derive(Clone)]
pub struct Argument {
    pub name: String,
    pub arg_type: String,
    pub value: String,
    pub indexed: bool,
}

/// A structured event decoded from one raw log line. `output_data` is an
/// insertion-ordered list of key/value pairs.
#[derive(Clone)]
pub struct DecodedLog {
    pub log_index: u64,
    pub address: String,
    pub arguments: Vec<Argument>,
    pub event_name: String,
    pub output_data: Vec<(String, String)>,
}

/// Error returned by a log decoder.
pub struct DecodeError {
    pub message: String,
}

/// The marker that introduces a program's own log line.
pub open spec fn program_log_prefix() -> Seq<char> {
    "Program log: "@
}

/// The event name a message decodes to.
pub open spec fn decoded_event_name(msg: Seq<char>) -> Seq<char> {
    if is_prefix_of(program_log_prefix(), msg) {
        "ProgramLog"@
    } else {
        "Unknown"@
    }
}

/// The key under which the decoded payload is stored.
pub open spec fn decoded_key(msg: Seq<char>) -> Seq<char> {
    if is_prefix_of(program_log_prefix(), msg) {
        "message"@
    } else {
        "raw"@
    }
}

/// The decoded payload: the text after the marker, or the whole message.
pub open spec fn decoded_payload(msg: Seq<char>) -> Seq<char> {
    if is_prefix_of(program_log_prefix(), msg) {
        msg.subrange(program_log_prefix().len() as int, msg.len() as int)
    } else {
        msg
    }
}

/// Decodes one raw log line.
///
/// A message beginning with the program-log marker becomes a `ProgramLog`
/// event whose single `message` argument holds the text after the marker;
/// any other message becomes an `Unknown` event whose single `raw` argument
/// holds the message itself. The address is the raw log's program id and
/// the log index is copied through.
pub fn decode_log_message(program_id: &str, log: &SolanaProgramLog) -> (r: DecodedLog)
    ensures
        r.log_index == log.log_index,
        r.address@ == log.program_id@,
        r.event_name@ == decoded_event_name(log.log_message@),
        r.arguments@.len() == 1,
        r.arguments@[0].name@ == decoded_key(log.log_message@),
        r.arguments@[0].arg_type@ == "string"@,
        r.arguments@[0].value@ == decoded_payload(log.log_message@),
        r.arguments@[0].indexed == false,
        r.output_data@.len() == 1,
        r.output_data@[0].0@ == decoded_key(log.log_message@),
        r.output_data@[0].1@ == decoded_payload(log.log_message@),
{
    let prefix = "Program log: ";
    let msg = log.log_message.as_str();
    let mut arguments: Vec<Argument> = Vec::new();
    let mut output_data: Vec<(String, String)> = Vec::new();
    if starts_with_str(msg, prefix) {
        let event_data = suffix_after(msg, prefix.unicode_len());
        output_data.push((String::from_str("message"), event_data.clone()));
        arguments.push(
            Argument {
                name: String::from_str("message"),
                arg_type: String::from_str("string"),
                value: event_data,
                indexed: false,
            },
        );
        DecodedLog {
            address: log.program_id.clone(),
            log_index: log.log_index,
            event_name: String::from_str("ProgramLog"),
            arguments,
            output_data,
        }
    } else {
        output_data.push((String::from_str("raw"), log.log_message.clone()));
        arguments.push(
            Argument {
                name: String::from_str("raw"),
                arg_type: String::from_str("string"),
                value: log.log_message.clone(),
                indexed: false,
            },
        );
        DecodedLog {
            address: log.program_id.clone(),
            log_index: log.log_index,
            event_name: String::from_str("Unknown"),
            arguments,
            output_data,
        }
    }
}

/// Capability interface of a log decoder.
pub trait LogParser: Sized {
    /// Decodes one raw log line; the decoded event keeps the raw log's
    /// index and is attributed to the raw log's program.
    fn decode_log(&self, program_id: &str, log: &SolanaProgramLog) -> (r: Result<
        DecodedLog,
        DecodeError,
    >)
        ensures
            r matches Ok(d) ==> d.log_index == log.log_index && d.address@ == log.program_id@,
    ;
}

/// The built-in decoder.
pub struct TransactionLogParser {
}

impl TransactionLogParser {
    pub fn new() -> (r: Self) {
        TransactionLogParser {  }
    }
}

impl Default for TransactionLogParser {
    fn default() -> (r: Self) {
        TransactionLogParser::new()
    }
}

impl LogParser for TransactionLogParser {
    /// Decodes exactly as `decode_log_message` and never fails.
    fn decode_log(&self, program_id: &str, log: &SolanaProgramLog) -> (r: Result<
        DecodedLog,
        DecodeError,
    >)
        ensures
            r is Ok,
            r matches Ok(d) ==> {
                &&& d.log_index == log.log_index
                &&& d.address@ == log.program_id@
                &&& d.event_name@ == decoded_event_name(log.log_message@)
                &&& d.arguments@.len() == 1
                &&& d.arguments@[0].name@ == decoded_key(log.log_message@)
                &&& d.arguments@[0].arg_type@ == "string"@
                &&& d.arguments@[0].value@ == decoded_payload(log.log_message@)
                &&& d.arguments@[0].indexed == false
                &&& d.output_data@.len() == 1
                &&& d.output_data@[0].0@ == decoded_key(log.log_message@)
                &&& d.output_data@[0].1@ == decoded_payload(log.log_message@)
            },
    {
        Ok(decode_log_message(program_id, log))
    }
}

} // verus!
