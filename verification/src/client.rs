//! The chain-client capability: reading the latest slot, fetching a slot by
//! number, and fetching program logs. A scripted client double is provided
//! for driving the poller without a network; the transport-level pieces a
//! real client needs (retry schedule, log-line filtering) are verified here
//! as plain functions.

use vstd::prelude::*;
use vstd::string::*;
use crate::text::{is_prefix_of, starts_with_str, str_eq};
use crate::types::{SolanaProgramLog, SolanaSlot};

verus! {

/// Error returned by a chain client.
pub struct ClientError {
    pub message: String,
}

/// Capability interface of a chain client.
pub trait Client: Sized {
    /// The latest slot number at the client's configured commitment.
    fn get_latest_slot(&mut self) -> (r: Result<u64, ClientError>);

    /// The slot at `slot_number`; the returned value's own `slot` field
    /// equals the requested number.
    fn get_slot_by_number(&mut self, slot_number: u64) -> (r: Result<SolanaSlot, ClientError>)
        ensures
            r matches Ok(s) ==> s.slot == slot_number,
    ;

    /// The log lines attributed to `program_id` within the inclusive slot
    /// range. Content and order are the client's responsibility.
    fn get_program_logs(&mut self, program_id: &str, from_slot: u64, to_slot: u64) -> (r: Result<
        Vec<SolanaProgramLog>,
        ClientError,
    >);
}

/// The transport's exponential backoff schedule, in seconds.
pub open spec fn backoff_schedule() -> Seq<u64> {
    seq![1u64, 3u64, 5u64, 10u64, 20u64, 30u64, 60u64]
}

/// How long to wait before retrying `attempt` (zero-based), or `None` when
/// the attempts are used up.
pub fn retry_backoff_seconds(attempt: usize) -> (r: Option<u64>)
    ensures
        attempt < backoff_schedule().len() ==> r == Some(backoff_schedule()[attempt as int]),
        attempt >= backoff_schedule().len() ==> r is None,
{
    match attempt {
        0usize => Some(1u64),
        1usize => Some(3u64),
        2usize => Some(5u64),
        3usize => Some(10u64),
        4usize => Some(20u64),
        5usize => Some(30u64),
        6usize => Some(60u64),
        _ => None,
    }
}

/// One entry of a program-logs response: a transaction signature and its
/// log lines.
pub struct ProgramLogEntry {
    pub signature: String,
    pub logs: Vec<String>,
}

/// The fields of one produced raw log, as character sequences.
pub struct ProgramLogView {
    pub program_id: Seq<char>,
    pub log_index: u64,
    pub signature: Seq<char>,
    pub slot: u64,
    pub block_time: Option<i64>,
    pub log_message: Seq<char>,
    pub instruction_index: int,
}

/// The view of a produced raw log.
pub open spec fn log_view(l: SolanaProgramLog) -> ProgramLogView {
    ProgramLogView {
        program_id: l.program_id@,
        log_index: l.log_index,
        signature: l.signature@,
        slot: l.slot,
        block_time: l.block_time,
        log_message: l.log_message@,
        instruction_index: l.instruction_index as int,
    }
}

/// The views of a sequence of raw logs.
pub open spec fn log_views(s: Seq<SolanaProgramLog>) -> Seq<ProgramLogView> {
    s.map_values(|l: SolanaProgramLog| log_view(l))
}

/// A line belongs to `pid` when it begins with `Program ` followed by the
/// program identifier.
pub open spec fn line_matches_program(pid: Seq<char>, line: Seq<char>) -> bool {
    is_prefix_of("Program "@ + pid, line)
}

/// The logs produced from the first `m` lines of one entry, in order.
pub open spec fn entry_view_upto(
    pid: Seq<char>,
    slot: u64,
    sig: Seq<char>,
    lines: Seq<String>,
    m: int,
) -> Seq<ProgramLogView>
    decreases m,
{
    if m <= 0 {
        Seq::empty()
    } else {
        let rest = entry_view_upto(pid, slot, sig, lines, m - 1);
        if line_matches_program(pid, lines[m - 1]@) {
            rest.push(
                ProgramLogView {
                    program_id: pid,
                    log_index: (m - 1) as u64,
                    signature: sig,
                    slot,
                    block_time: None,
                    log_message: lines[m - 1]@,
                    instruction_index: 0,
                },
            )
        } else {
            rest
        }
    }
}

/// The logs produced from the first `n` entries, in order.
pub open spec fn collect_view(
    pid: Seq<char>,
    slot: u64,
    entries: Seq<ProgramLogEntry>,
    n: int,
) -> Seq<ProgramLogView>
    decreases n,
{
    if n <= 0 {
        Seq::empty()
    } else {
        collect_view(pid, slot, entries, n - 1) + entry_view_upto(
            pid,
            slot,
            entries[n - 1].signature@,
            entries[n - 1].logs@,
            entries[n - 1].logs@.len() as int,
        )
    }
}

/// Turns a program-logs response into raw logs: one per line that begins
/// with `Program ` followed by the program identifier, in response order,
/// indexed by its position among its transaction's lines.
pub fn filter_program_logs(program_id: &str, slot: u64, entries: &Vec<ProgramLogEntry>) -> (r: Vec<
    SolanaProgramLog,
>)
    ensures
        log_views(r@) == collect_view(program_id@, slot, entries@, entries@.len() as int),
{
    let mut prefix = String::from_str("Program ");
    prefix.append(program_id);
    let mut out: Vec<SolanaProgramLog> = Vec::new();
    let mut i: usize = 0;
    while i < entries.len()
        invariant
            i <= entries@.len(),
            prefix@ == "Program "@ + program_id@,
            log_views(out@) == collect_view(program_id@, slot, entries@, i as int),
        decreases entries@.len() - i,
    {
        let entry = &entries[i];
        let mut j: usize = 0;
        while j < entry.logs.len()
            invariant
                i < entries@.len(),
                j <= entry.logs@.len(),
                entry == entries@[i as int],
                prefix@ == "Program "@ + program_id@,
                log_views(out@) == collect_view(program_id@, slot, entries@, i as int)
                    + entry_view_upto(program_id@, slot, entry.signature@, entry.logs@, j as int),
            decreases entry.logs@.len() - j,
        {
            let line = &entry.logs[j];
            let ghost pre = out@;
            if starts_with_str(line.as_str(), prefix.as_str()) {
                let produced = SolanaProgramLog {
                    program_id: String::from_str(program_id),
                    log_index: j as u64,
                    signature: entry.signature.clone(),
                    slot,
                    block_time: None,
                    log_message: line.clone(),
                    instruction_index: 0,
                };
                proof {
                    assert(line_matches_program(program_id@, entry.logs@[j as int]@));
                    assert(log_view(produced) == ProgramLogView {
                        program_id: program_id@,
                        log_index: j as u64,
                        signature: entry.signature@,
                        slot,
                        block_time: None::<i64>,
                        log_message: entry.logs@[j as int]@,
                        instruction_index: 0,
                    });
                }
                out.push(produced);
                proof {
                    assert(out@ == pre.push(produced));
                    assert(entry_view_upto(program_id@, slot, entry.signature@, entry.logs@, j + 1)
                        == entry_view_upto(
                        program_id@,
                        slot,
                        entry.signature@,
                        entry.logs@,
                        j as int,
                    ).push(log_view(produced)));
                    assert(log_views(out@) =~= log_views(pre).push(log_view(produced)));
                    assert(collect_view(program_id@, slot, entries@, i as int) + entry_view_upto(
                        program_id@,
                        slot,
                        entry.signature@,
                        entry.logs@,
                        j + 1,
                    ) =~= log_views(pre).push(log_view(produced)));
                }
            } else {
                proof {
                    assert(!line_matches_program(program_id@, entry.logs@[j as int]@));
                    assert(entry_view_upto(program_id@, slot, entry.signature@, entry.logs@, j + 1)
                        == entry_view_upto(
                        program_id@,
                        slot,
                        entry.signature@,
                        entry.logs@,
                        j as int,
                    ));
                }
            }
            proof {
                assert(log_views(out@) =~= collect_view(program_id@, slot, entries@, i as int)
                    + entry_view_upto(program_id@, slot, entry.signature@, entry.logs@, j + 1));
            }
            j += 1;
        }
        proof {
            assert(collect_view(program_id@, slot, entries@, i + 1) == collect_view(
                program_id@,
                slot,
                entries@,
                i as int,
            ) + entry_view_upto(
                program_id@,
                slot,
                entries@[i as int].signature@,
                entries@[i as int].logs@,
                entries@[i as int].logs@.len() as int,
            ));
        }
        i += 1;
    }
    proof {
        assert(entries@.len() as int == entries@.len());
    }
    out
}

/// A scripted chain client: it reports a fixed latest slot, serves slots
/// from a table, serves logs filtered by slot range and program id, and
/// can be told to fail each operation. It counts and records the program
/// log fetches made against it.
pub struct FixedClient {
    pub latest: u64,
    pub slots: Vec<SolanaSlot>,
    pub logs: Vec<SolanaProgramLog>,
    pub fail_latest: bool,
    pub fail_get_slot: bool,
    pub fail_program_logs: bool,
    pub log_fetch_count: u64,
    pub requested_programs: Vec<String>,
}

impl FixedClient {
    pub fn new(latest: u64, slots: Vec<SolanaSlot>, logs: Vec<SolanaProgramLog>) -> (r: Self)
        ensures
            r.latest == latest,
            r.slots@ == slots@,
            r.logs@ == logs@,
            !r.fail_latest,
            !r.fail_get_slot,
            !r.fail_program_logs,
            r.log_fetch_count == 0,
            r.requested_programs@.len() == 0,
    {
        FixedClient {
            latest,
            slots,
            logs,
            fail_latest: false,
            fail_get_slot: false,
            fail_program_logs: false,
            log_fetch_count: 0,
            requested_programs: Vec::new(),
        }
    }
}

impl Client for FixedClient {
    fn get_latest_slot(&mut self) -> (r: Result<u64, ClientError>) {
        if self.fail_latest {
            Err(ClientError { message: String::from_str("latest slot unavailable") })
        } else {
            Ok(self.latest)
        }
    }

    fn get_slot_by_number(&mut self, slot_number: u64) -> (r: Result<SolanaSlot, ClientError>) {
        if self.fail_get_slot {
            return Err(ClientError { message: String::from_str("slot unavailable") });
        }
        let mut i: usize = 0;
        while i < self.slots.len()
            invariant
                i <= self.slots@.len(),
            decreases self.slots@.len() - i,
        {
            if self.slots[i].slot == slot_number {
                let found = self.slots[i].clone();
                return Ok(found);
            }
            i += 1;
        }
        Err(ClientError { message: String::from_str("slot not in script") })
    }

    fn get_program_logs(&mut self, program_id: &str, from_slot: u64, to_slot: u64) -> (r: Result<
        Vec<SolanaProgramLog>,
        ClientError,
    >) {
        if self.fail_program_logs {
            return Err(ClientError { message: String::from_str("program logs unavailable") });
        }
        if self.log_fetch_count < u64::MAX {
            self.log_fetch_count = self.log_fetch_count + 1;
        }
        self.requested_programs.push(String::from_str(program_id));
        let mut out: Vec<SolanaProgramLog> = Vec::new();
        let mut i: usize = 0;
        while i < self.logs.len()
            invariant
                i <= self.logs@.len(),
            decreases self.logs@.len() - i,
        {
            let log = &self.logs[i];
            if from_slot <= log.slot && log.slot <= to_slot && str_eq(
                log.program_id.as_str(),
                program_id,
            ) {
                out.push(log.clone());
            }
            i += 1;
        }
        Ok(out)
    }
}

} // verus!
