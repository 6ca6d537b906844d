//! The poller core: forward progress over slots, reorg detection and
//! reconciliation, history pruning, and the per-slot log pipeline.

use vstd::prelude::*;
use vstd::string::*;
use crate::client::{Client, ClientError};
use crate::contract_store::ContractStore;
use crate::handler::{
    all_log_events_for, all_reorg_events, history_delta, history_extends,
    lemma_delta_compose, lemma_delta_push, lemma_history_refl, lemma_tick_append_logs, lemma_tick_append_reorg_batch,
    lemma_tick_append_slot, log_event, no_reorg_events, reorg_entries, reorg_event, slot_entries,
    slot_event, tick_ordering_ok, HandlerError, LogWithSlot, PollerEvent, SlotHandler,
};
use crate::parser::{DecodeError, LogParser};
use crate::persistence::{ChainPollerPersistence, PersistenceError, SlotRecord};
use crate::text::lowercase;
use crate::types::{block_time_or_zero, parent_or_zero, ChainId, SolanaProgramLog, SolanaSlot};

verus! {

/// Configuration of one chain poller. The polling interval is carried in
/// milliseconds; the loop that sleeps on it lives outside the library.
pub struct SolanaChainPollerConfig {
    pub chain_id: ChainId,
    pub polling_interval_ms: u64,
    pub interesting_programs: Vec<String>,
    pub max_reorg_depth: usize,
    pub slot_history_size: usize,
    pub reorg_check_enabled: bool,
}

impl SolanaChainPollerConfig {
    /// What the constructor's normalization establishes: both bounds are
    /// positive and the reorg check is on.
    pub open spec fn wf(&self) -> bool {
        self.max_reorg_depth >= 1 && self.slot_history_size >= 1 && self.reorg_check_enabled
    }
}

impl Default for SolanaChainPollerConfig {
    /// Mainnet defaults: chain 101, a 12-second interval, no programs, a
    /// reorg search depth of 10 and a slot history of 100.
    fn default() -> (r: Self)
        ensures
            r.chain_id == 101,
            r.polling_interval_ms == 12000,
            r.interesting_programs@.len() == 0,
            r.max_reorg_depth == 10,
            r.slot_history_size == 100,
            r.reorg_check_enabled,
            r.wf(),
    {
        SolanaChainPollerConfig {
            chain_id: 101,
            polling_interval_ms: 12000,
            interesting_programs: Vec::new(),
            max_reorg_depth: 10,
            slot_history_size: 100,
            reorg_check_enabled: true,
        }
    }
}

/// Everything that can end a tick early.
pub enum PollerError {
    /// A chain client call failed.
    Client(ClientError),
    /// A persistence call failed.
    Persistence(PersistenceError),
    /// A raw log could not be decoded.
    Decode(DecodeError),
    /// The handler refused a log delivery.
    Handler(HandlerError),
    /// The last-processed record was missing although bootstrap must have
    /// written one.
    MissingLastProcessedSlot,
    /// A reorg was detected but the ancestry walk found no orphaned slot.
    NoOrphanedSlotsFound,
}

/// What one tick did.
pub enum TickOutcome {
    /// The chain's latest slot was not ahead of the cursor.
    NoWork,
    /// Every slot in `(from, to]` was processed and persisted;
    /// `prune_failures` counts pruning deletions that failed for a reason
    /// other than the record being absent.
    Advanced { from: u64, to: u64, prune_failures: u64 },
    /// A reorg was detected at `detected_at` and reconciled: the slots in
    /// `orphaned` (most recent first) were announced and deleted.
    ReorgHandled { detected_at: u64, orphaned: Vec<u64> },
    /// A reorg was detected at `detected_at` but reconciliation failed;
    /// the next tick will detect it again.
    ReorgFailed { detected_at: u64 },
}

/// The record the poller persists for a slot it has processed.
pub open spec fn record_of(s: SolanaSlot, chain_id: ChainId) -> SlotRecord {
    SlotRecord {
        slot: s.slot,
        blockhash: s.blockhash,
        parent: parent_or_zero(s),
        block_time: block_time_or_zero(s),
        chain_id,
    }
}

/// Builds the record persisted for a processed slot: absent parent and
/// block time default to zero.
fn make_record(slot: &SolanaSlot, chain_id: ChainId) -> (r: SlotRecord)
    ensures
        r == record_of(*slot, chain_id),
{
    let parent = match slot.parent {
        Some(p) => p,
        None => 0u64,
    };
    let block_time = match slot.block_time {
        Some(t) => #[verifier::truncate] (t as u64),
        None => 0u64,
    };
    SlotRecord { slot: slot.slot, blockhash: slot.blockhash.clone(), parent, block_time, chain_id }
}

/// Among the records of `chain` whose slot has fallen `h` or more behind
/// `tip`, there is at most one.
pub open spec fn history_window_ok(
    m: Map<(ChainId, u64), SlotRecord>,
    chain: ChainId,
    tip: u64,
    h: u64,
) -> bool {
    forall|k1: (ChainId, u64), k2: (ChainId, u64)|
        #[trigger] m.contains_key(k1) && #[trigger] m.contains_key(k2) && k1.0 == chain && k2.0
            == chain && k1.1 + h <= tip && k2.1 + h <= tip ==> k1 == k2
}

/// Law (bounded history): a tick that advanced the cursor from `from` to
/// `to`, added records only for the advanced slots, and pruned every
/// target without failure keeps the history window bounded: if at most
/// one record lay `h` or more behind the old cursor, then at most one
/// lies `h` or more behind the new one. The hypotheses are exactly what
/// `process_next_slot` ensures of an `Advanced` outcome whose
/// `prune_failures` is zero.
pub proof fn lemma_pruning_bounds_history(
    old_m: Map<(ChainId, u64), SlotRecord>,
    new_m: Map<(ChainId, u64), SlotRecord>,
    chain: ChainId,
    from: u64,
    to: u64,
    h: u64,
)
    requires
        h >= 1,
        from < to,
        history_window_ok(old_m, chain, from, h),
        forall|key: (ChainId, u64)| #[trigger]
            new_m.contains_key(key) ==> old_m.contains_key(key) || (key.0 == chain && from < key.1
                <= to),
        forall|t: u64|
            from < t <= to && t > h ==> !(#[trigger] new_m.contains_key((chain, (t - h) as u64))),
    ensures
        history_window_ok(new_m, chain, to, h),
{
    assert forall|k1: (ChainId, u64), k2: (ChainId, u64)|
        #[trigger] new_m.contains_key(k1) && #[trigger] new_m.contains_key(k2) && k1.0 == chain
            && k2.0 == chain && k1.1 + h <= to && k2.1 + h <= to implies k1 == k2 by {
        if k1.1 + h > from && k1.1 >= 1 {
            let t1: u64 = (k1.1 + h) as u64;
            assert(from < t1 <= to && t1 > h);
            assert(!new_m.contains_key((chain, (t1 - h) as u64)));
            assert((t1 - h) as u64 == k1.1);
            assert(false);
        }
        if k2.1 + h > from && k2.1 >= 1 {
            let t2: u64 = (k2.1 + h) as u64;
            assert(from < t2 <= to && t2 > h);
            assert(!new_m.contains_key((chain, (t2 - h) as u64)));
            assert((t2 - h) as u64 == k2.1);
            assert(false);
        }
        if k1.1 + h <= from && k2.1 + h <= from {
            assert(old_m.contains_key(k1));
            assert(old_m.contains_key(k2));
        } else {
            assert(k1.1 == 0 && k2.1 == 0);
            assert(k1 == k2);
        }
    }
}

/// The poller and its four collaborators. The contract registry is held
/// for consumers; the core itself does not read it.
pub struct SolanaChainPoller<C, P, L, S, H> {
    pub client: C,
    pub log_parser: L,
    pub config: SolanaChainPollerConfig,
    pub contract_store: S,
    pub store: P,
    pub slot_handler: H,
}

impl<
    C: Client,
    P: ChainPollerPersistence,
    L: LogParser,
    S: ContractStore,
    H: SlotHandler,
> SolanaChainPoller<C, P, L, S, H> {
    /// The poller's own well-formedness: a normalized configuration and a
    /// well-formed store.
    pub open spec fn wf(&self) -> bool {
        self.config.wf() && self.store.inv()
    }

    /// Builds a poller, normalizing the configuration: a zero reorg depth
    /// becomes 10, a zero history size becomes 100, and the reorg check is
    /// forced on whenever the depth is positive.
    pub fn new(
        client: C,
        log_parser: L,
        config: SolanaChainPollerConfig,
        contract_store: S,
        store: P,
        slot_handler: H,
    ) -> (r: Self)
        requires
            store.inv(),
        ensures
            r.config.chain_id == config.chain_id,
            r.config.polling_interval_ms == config.polling_interval_ms,
            r.config.interesting_programs == config.interesting_programs,
            config.max_reorg_depth == 0 ==> r.config.max_reorg_depth == 10,
            config.max_reorg_depth != 0 ==> r.config.max_reorg_depth == config.max_reorg_depth,
            config.slot_history_size == 0 ==> r.config.slot_history_size == 100,
            config.slot_history_size != 0 ==> r.config.slot_history_size
                == config.slot_history_size,
            r.config.reorg_check_enabled,
            r.client == client,
            r.log_parser == log_parser,
            r.contract_store == contract_store,
            r.store == store,
            r.slot_handler == slot_handler,
            r.wf(),
    {
        let mut config = config;
        if config.max_reorg_depth == 0 {
            config.max_reorg_depth = 10;
        }
        if config.slot_history_size == 0 {
            config.slot_history_size = 100;
        }
        if !config.reorg_check_enabled && config.max_reorg_depth > 0 {
            config.reorg_check_enabled = true;
        }
        SolanaChainPoller { client, log_parser, config, contract_store, store, slot_handler }
    }

    /// Establishes the cursor before the first tick: reads the
    /// last-processed record, and when none exists synthesizes one from
    /// the chain's latest slot and persists it. Either way, on success the
    /// store's pointer references the returned record. Any failure here is
    /// fatal to startup.
    pub fn bootstrap(&mut self) -> (r: Result<SlotRecord, PollerError>)
        requires
            old(self).wf(),
        ensures
            final(self).wf(),
            final(self).config == old(self).config,
            final(self).slot_handler == old(self).slot_handler,
            r matches Ok(rec) ==> {
                &&& rec.chain_id == old(self).config.chain_id
                &&& final(self).store.last_ptr().contains_key(rec.chain_id)
                &&& final(self).store.last_ptr()[rec.chain_id] == rec.slot
                &&& final(self).store.slots().contains_key((rec.chain_id, rec.slot))
                &&& final(self).store.slots()[(rec.chain_id, rec.slot)] == rec
            },
            r matches Ok(rec) ==> ((final(self).store.slots() == old(self).store.slots() && final(self).store.last_ptr() == old(self).store.last_ptr()) || (final(self).store.slots() == old(self).store.slots().insert((rec.chain_id, rec.slot), rec) && final(self).store.last_ptr()
                == old(self).store.last_ptr().insert(rec.chain_id, rec.slot))),
            r is Err ==> final(self).store.slots() == old(self).store.slots() && final(self).store.last_ptr() == old(self).store.last_ptr(),
    {
        let chain_id = self.config.chain_id;
        let existing = match self.store.get_last_processed_slot(chain_id) {
            Ok(v) => v,
            Err(e) => {
                return Err(PollerError::Persistence(e));
            },
        };
        if let Some(record) = existing {
            return Ok(record);
        }
        let latest_slot = match self.client.get_latest_slot() {
            Ok(n) => n,
            Err(e) => {
                return Err(PollerError::Client(e));
            },
        };
        let last_canon_slot = match self.client.get_slot_by_number(latest_slot) {
            Ok(s) => s,
            Err(e) => {
                return Err(PollerError::Client(e));
            },
        };
        let record = make_record(&last_canon_slot, chain_id);
        match self.store.save_slot(&record) {
            Ok(()) => Ok(record),
            Err(e) => Err(PollerError::Persistence(e)),
        }
    }

    /// Fetches the logs of every configured program for one slot: empty
    /// program names are dropped, the rest are lower-cased and queried in
    /// configuration order, and their results are concatenated. One failed
    /// fetch aborts with that failure. An empty program list fetches
    /// nothing and succeeds.
    pub fn fetch_logs_for_interesting_programs_for_slot(&mut self, slot_number: u64) -> (r: Result<
        Vec<SolanaProgramLog>,
        PollerError,
    >)
        requires
            old(self).wf(),
        ensures
            final(self).wf(),
            final(self).config == old(self).config,
            final(self).store == old(self).store,
            final(self).slot_handler == old(self).slot_handler,
            final(self).log_parser == old(self).log_parser,
            final(self).contract_store == old(self).contract_store,
            old(self).config.interesting_programs@.len() == 0 ==> (r matches Ok(v) && v@.len()
                == 0),
            old(self).config.interesting_programs@.len() == 0 ==> final(self).client == old(self).client,
            r matches Err(e) ==> e is Client,
    {
        let mut all_programs: Vec<String> = Vec::new();
        let mut i: usize = 0;
        while i < self.config.interesting_programs.len()
            invariant
                i <= self.config.interesting_programs@.len(),
                self == old(self),
                old(self).config.interesting_programs@.len() == 0 ==> all_programs@.len() == 0,
            decreases self.config.interesting_programs@.len() - i,
        {
            let program = &self.config.interesting_programs[i];
            if !program.as_str().is_empty() {
                all_programs.push(lowercase(program.as_str()));
            }
            i += 1;
        }
        let mut all_logs: Vec<SolanaProgramLog> = Vec::new();
        let mut j: usize = 0;
        while j < all_programs.len()
            invariant
                j <= all_programs@.len(),
                self.wf(),
                self.config == old(self).config,
                self.store == old(self).store,
                self.slot_handler == old(self).slot_handler,
                self.log_parser == old(self).log_parser,
                self.contract_store == old(self).contract_store,
                old(self).config.interesting_programs@.len() == 0 ==> all_programs@.len() == 0,
                all_programs@.len() == 0 ==> all_logs@.len() == 0,
                old(self).config.interesting_programs@.len() == 0 ==> self.client == old(self).client,
            decreases all_programs@.len() - j,
        {
            let program = &all_programs[j];
            match self.client.get_program_logs(program.as_str(), slot_number, slot_number) {
                Ok(mut logs) => {
                    all_logs.append(&mut logs);
                },
                Err(e) => {
                    return Err(PollerError::Client(e));
                },
            }
            j += 1;
        }
        Ok(all_logs)
    }

    /// Runs the per-slot pipeline: fetches the configured programs' logs,
    /// decodes each and delivers it (a handler failure aborts), then
    /// persists this slot's record, which also moves the last-processed
    /// pointer here. Every handler delivery made here is a log delivery
    /// of this slot.
    pub fn process_slot_logs(&mut self, slot: &SolanaSlot) -> (r: Result<
        Option<SlotRecord>,
        PollerError,
    >)
        requires
            old(self).wf(),
        ensures
            final(self).wf(),
            final(self).config == old(self).config,
            final(self).contract_store == old(self).contract_store,
            history_extends(final(self).slot_handler.history(), old(self).slot_handler.history()),
            all_log_events_for(
                history_delta(
                    final(self).slot_handler.history(),
                    old(self).slot_handler.history(),
                ),
                slot.slot,
            ),
            final(self).store.is_open() == old(self).store.is_open(),
            r matches Ok(opt) ==> {
                &&& opt == Some(record_of(*slot, old(self).config.chain_id))
                &&& final(self).store.slots() == old(self).store.slots().insert(
                    (old(self).config.chain_id, slot.slot),
                    record_of(*slot, old(self).config.chain_id),
                )
                &&& final(self).store.last_ptr() == old(self).store.last_ptr().insert(
                    old(self).config.chain_id,
                    slot.slot,
                )
            },
            r is Err ==> final(self).store.slots() == old(self).store.slots() && final(self).store.last_ptr() == old(self).store.last_ptr(),
            old(self).config.interesting_programs@.len() == 0 ==> final(self).slot_handler == old(self).slot_handler && final(self).client == old(self).client,
            r matches Err(e) ==> (e is Client || e is Decode || e is Handler || e is Persistence),
    {
        let logs = match self.fetch_logs_for_interesting_programs_for_slot(slot.slot) {
            Ok(l) => l,
            Err(e) => {
                proof {
                    lemma_history_refl(self.slot_handler.history());
                }
                return Err(e);
            },
        };
        proof {
            lemma_history_refl(self.slot_handler.history());
        }
        let ghost h0 = self.slot_handler.history();
        let chain_id = self.config.chain_id;
        let mut idx: usize = 0;
        while idx < logs.len()
            invariant
                idx <= logs@.len(),
                self.wf(),
                self.config == old(self).config,
                self.contract_store == old(self).contract_store,
                self.store == old(self).store,
                h0 == old(self).slot_handler.history(),
                history_extends(self.slot_handler.history(), h0),
                all_log_events_for(history_delta(self.slot_handler.history(), h0), slot.slot),
                old(self).config.interesting_programs@.len() == 0 ==> (logs@.len() == 0
                    && self.slot_handler == old(self).slot_handler && self.client == old(self).client),
            decreases logs@.len() - idx,
        {
            let log = &logs[idx];
            let decoded = match self.log_parser.decode_log(log.program_id.as_str(), log) {
                Ok(d) => d,
                Err(e) => {
                    return Err(PollerError::Decode(e));
                },
            };
            let log_with_slot = LogWithSlot {
                log: decoded,
                raw_log: log.clone(),
                slot: slot.clone(),
            };
            let ghost h_before = self.slot_handler.history();
            let outcome = self.slot_handler.handle_log(&log_with_slot);
            proof {
                lemma_delta_push(h0, h_before, log_event(log_with_slot));
                let d = history_delta(self.slot_handler.history(), h0);
                let dprev = history_delta(h_before, h0);
                assert(d == dprev.push(log_event(log_with_slot)));
                assert forall|i: int| 0 <= i < d.len() implies (#[trigger] d[i]) is Log
                    && d[i]->Log_slot == slot.slot by {
                    if i < dprev.len() {
                        assert(d[i] == dprev[i]);
                    } else {
                        assert(d[i] == log_event(log_with_slot));
                    }
                }
            }
            match outcome {
                Ok(()) => {},
                Err(e) => {
                    return Err(PollerError::Handler(e));
                },
            }
            idx += 1;
        }
        let record = make_record(slot, chain_id);
        match self.store.save_slot(&record) {
            Ok(()) => Ok(Some(record)),
            Err(e) => Err(PollerError::Persistence(e)),
        }
    }

    /// Walks ancestors of `start_slot` downward, at most `max_depth` of
    /// them and never below slot 1, collecting the locally stored records
    /// whose blockhash no longer matches the canonical chain. A missing
    /// local record is synthesized from the canonical slot and saved on a
    /// best-effort basis. The walk stops at the first match (the common
    /// ancestor), re-saving that record. The result lists the orphans
    /// newest first: the record for `start_slot.slot - 1 - k` at position
    /// `k`.
    pub fn find_orphaned_slots(&mut self, start_slot: &SolanaSlot, max_depth: usize) -> (r: Result<
        Vec<SlotRecord>,
        PollerError,
    >)
        requires
            old(self).wf(),
        ensures
            final(self).wf(),
            final(self).config == old(self).config,
            final(self).contract_store == old(self).contract_store,
            final(self).slot_handler == old(self).slot_handler,
            final(self).store.is_open() == old(self).store.is_open(),
            forall|k: (ChainId, u64)| #[trigger]
                old(self).store.slots().contains_key(k) ==> final(self).store.slots().contains_key(
                    k,
                ) && final(self).store.slots()[k] == old(self).store.slots()[k],
            r matches Ok(v) ==> {
                &&& v@.len() <= max_depth
                &&& start_slot.slot >= 1 ==> v@.len() <= start_slot.slot - 1
                &&& start_slot.slot == 0 ==> v@.len() == 0
                &&& forall|k: int|
                    0 <= k < v@.len() ==> (#[trigger] v@[k]).slot == start_slot.slot - 1 - k
                        && v@[k].chain_id == old(self).config.chain_id
            },
    {
        let chain_id = self.config.chain_id;
        let mut orphaned: Vec<SlotRecord> = Vec::new();
        let start_slot_number = start_slot.slot;
        let depth = max_depth as u64;
        let low = if start_slot_number > depth {
            start_slot_number - depth
        } else {
            0u64
        };
        let mut current = start_slot_number;
        while current > low
            invariant
                start_slot_number == start_slot.slot,
                depth == max_depth as u64,
                low <= current <= start_slot_number,
                start_slot_number - depth <= low,
                start_slot_number >= 1 ==> current >= 1,
                start_slot_number == 0 ==> current == 0,
                orphaned@.len() == start_slot_number - current,
                forall|k: int|
                    0 <= k < orphaned@.len() ==> (#[trigger] orphaned@[k]).slot
                        == start_slot_number - 1 - k && orphaned@[k].chain_id == chain_id,
                self.wf(),
                self.config == old(self).config,
                self.contract_store == old(self).contract_store,
                self.slot_handler == old(self).slot_handler,
                self.store.is_open() == old(self).store.is_open(),
                chain_id == old(self).config.chain_id,
                forall|k: (ChainId, u64)| #[trigger]
                    old(self).store.slots().contains_key(k) ==> self.store.slots().contains_key(k)
                        && self.store.slots()[k] == old(self).store.slots()[k],
            decreases current - low,
        {
            let next = current - 1;
            if next == 0 {
                break ;
            }
            let canon_parent_slot = match self.client.get_slot_by_number(next) {
                Ok(s) => s,
                Err(e) => {
                    return Err(PollerError::Client(e));
                },
            };
            let stored_opt = match self.store.get_slot(chain_id, next) {
                Ok(o) => o,
                Err(e) => {
                    return Err(PollerError::Persistence(e));
                },
            };
            let parent_slot_record = match stored_opt {
                Some(record) => {
                    proof {
                        self.store.inv_implies_keys_consistent();
                    }
                    record
                },
                None => {
                    let record = make_record(&canon_parent_slot, chain_id);
                    // best effort: a failure to repair the missing record
                    // is tolerated
                    match self.store.save_slot(&record) {
                        Ok(()) => {},
                        Err(_) => {},
                    }
                    record
                },
            };
            if !crate::text::str_eq(
                canon_parent_slot.blockhash.as_str(),
                parent_slot_record.blockhash.as_str(),
            ) {
                orphaned.push(parent_slot_record);
                current = next;
            } else {
                match self.store.save_slot(&parent_slot_record) {
                    Ok(()) => {},
                    Err(e) => {
                        return Err(PollerError::Persistence(e));
                    },
                }
                return Ok(orphaned);
            }
        }
        Ok(orphaned)
    }

    /// Reconciles a detected reorg: finds the orphaned slots, then, newest
    /// first, announces each to the handler and deletes its record
    /// (tolerating an already-absent record). Finding none is an error.
    /// Every handler delivery made here is a reorg notification, in
    /// strictly descending slot order.
    pub fn reconcile_reorg(&mut self, start_slot: &SolanaSlot) -> (r: Result<Vec<u64>, PollerError>)
        requires
            old(self).wf(),
        ensures
            final(self).wf(),
            final(self).config == old(self).config,
            final(self).contract_store == old(self).contract_store,
            final(self).store.is_open() == old(self).store.is_open(),
            history_extends(final(self).slot_handler.history(), old(self).slot_handler.history()),
            ({
                let d = history_delta(
                    final(self).slot_handler.history(),
                    old(self).slot_handler.history(),
                );
                &&& all_reorg_events(d)
                &&& forall|k: int|
                    0 <= k < d.len() ==> (#[trigger] d[k]) == reorg_event(
                        (start_slot.slot - 1 - k) as u64,
                    )
                &&& d.len() < start_slot.slot || d.len() == 0
            }),
            ({
                let d = history_delta(
                    final(self).slot_handler.history(),
                    old(self).slot_handler.history(),
                );
                forall|k: (ChainId, u64)| #[trigger]
                    old(self).store.slots().contains_key(k) ==> (final(self).store.slots().contains_key(k) && final(self).store.slots()[k] == old(self).store.slots()[k]) || (k.0 == old(self).config.chain_id && k.1
                        < start_slot.slot && k.1 + d.len() >= start_slot.slot)
            }),
            r matches Ok(v) ==> {
                let d = history_delta(
                    final(self).slot_handler.history(),
                    old(self).slot_handler.history(),
                );
                &&& v@.len() >= 1
                &&& d.len() == v@.len()
                &&& forall|k: int|
                    0 <= k < v@.len() ==> (#[trigger] v@[k]) == (start_slot.slot - 1 - k) as u64
                &&& forall|k: int|
                    0 <= k < v@.len() ==> !final(self).store.slots().contains_key(
                        (old(self).config.chain_id, #[trigger] v@[k]),
                    )
            },
    {
        let max_depth = self.config.max_reorg_depth;
        let orphaned_slots = match self.find_orphaned_slots(start_slot, max_depth) {
            Ok(v) => v,
            Err(e) => {
                proof {
                    lemma_history_refl(self.slot_handler.history());
                }
                return Err(e);
            },
        };
        if orphaned_slots.len() == 0 {
            proof {
                lemma_history_refl(self.slot_handler.history());
            }
            return Err(PollerError::NoOrphanedSlotsFound);
        }
        proof {
            lemma_history_refl(self.slot_handler.history());
        }
        let ghost h0 = self.slot_handler.history();
        let chain_id = self.config.chain_id;
        let mut delivered: Vec<u64> = Vec::new();
        let mut i: usize = 0;
        while i < orphaned_slots.len()
            invariant
                i <= orphaned_slots@.len(),
                orphaned_slots@.len() >= 1,
                start_slot.slot >= 1 ==> orphaned_slots@.len() <= start_slot.slot - 1,
                start_slot.slot == 0 ==> orphaned_slots@.len() == 0,
                forall|k: int|
                    0 <= k < orphaned_slots@.len() ==> (#[trigger] orphaned_slots@[k]).slot
                        == start_slot.slot - 1 - k && orphaned_slots@[k].chain_id == chain_id,
                delivered@.len() == i,
                forall|k: int|
                    0 <= k < i ==> (#[trigger] delivered@[k]) == (start_slot.slot - 1 - k) as u64,
                history_extends(self.slot_handler.history(), h0),
                ({
                    let d = history_delta(self.slot_handler.history(), h0);
                    &&& d.len() == i
                    &&& forall|k: int|
                        0 <= k < d.len() ==> (#[trigger] d[k]) == reorg_event(
                            (start_slot.slot - 1 - k) as u64,
                        )
                }),
                forall|k: int|
                    0 <= k < i ==> !(#[trigger] self.store.slots().contains_key(
                        (chain_id, (start_slot.slot - 1 - k) as u64),
                    )),
                forall|k: (ChainId, u64)| #[trigger]
                    old(self).store.slots().contains_key(k) ==> (self.store.slots().contains_key(k)
                        && self.store.slots()[k] == old(self).store.slots()[k]) || (k.0 == chain_id
                        && k.1 < start_slot.slot && k.1 + i >= start_slot.slot),
                self.wf(),
                self.config == old(self).config,
                self.contract_store == old(self).contract_store,
                self.store.is_open() == old(self).store.is_open(),
                h0 == old(self).slot_handler.history(),
                chain_id == old(self).config.chain_id,
            decreases orphaned_slots@.len() - i,
        {
            let orphaned_slot = &orphaned_slots[i];
            let ghost h_before = self.slot_handler.history();
            self.slot_handler.handle_reorg_slot(orphaned_slot.slot);
            proof {
                lemma_delta_push(h0, h_before, reorg_event(orphaned_slot.slot));
            }
            match self.store.delete_slot(orphaned_slot.chain_id, orphaned_slot.slot) {
                Ok(()) => {},
                Err(e) => {
                    match e {
                        PersistenceError::NotFound => {},
                        other => {
                            return Err(PollerError::Persistence(other));
                        },
                    }
                },
            }
            delivered.push(orphaned_slot.slot);
            i += 1;
        }
        Ok(delivered)
    }

    /// One tick of the forward-progress loop: reads the cursor and the
    /// chain's latest slot, then processes each missing slot in ascending
    /// order. Each step checks parent linkage against the slot just
    /// processed; on a mismatch the tick reconciles the reorg and stops.
    /// Otherwise the slot is announced (a handler error is swallowed), its
    /// logs are piped and its record persisted, and the record
    /// `slot_history_size` behind it is pruned.
    ///
    /// The deliveries of one tick keep the ordering guarantees: a slot's
    /// announcement precedes its logs' deliveries, reorg notifications
    /// descend strictly, and no announcement follows a reorg notification.
    /// On `Advanced` the announced slots are exactly `from+1 ..= to`, each
    /// naming its predecessor as parent, and the cursor ends at `to`; on a
    /// failed tick the cursor never moves backward.
    #[verifier::rlimit(50)]
    pub fn process_next_slot(&mut self) -> (r: Result<TickOutcome, PollerError>)
        requires
            old(self).wf(),
        ensures
            final(self).wf(),
            final(self).config == old(self).config,
            final(self).contract_store == old(self).contract_store,
            history_extends(final(self).slot_handler.history(), old(self).slot_handler.history()),
            tick_ordering_ok(
                history_delta(
                    final(self).slot_handler.history(),
                    old(self).slot_handler.history(),
                ),
            ),
            r matches Ok(TickOutcome::NoWork) ==> history_delta(
                final(self).slot_handler.history(),
                old(self).slot_handler.history(),
            ).len() == 0 && final(self).store.slots() == old(self).store.slots() && final(self).store.last_ptr() == old(self).store.last_ptr(),
            r matches Ok(TickOutcome::Advanced { from, to, prune_failures }) ==> ({
                let d = history_delta(
                    final(self).slot_handler.history(),
                    old(self).slot_handler.history(),
                );
                let chain = old(self).config.chain_id;
                let h = old(self).config.slot_history_size as u64;
                &&& from < to
                &&& old(self).store.last_ptr().contains_key(chain)
                &&& old(self).store.last_ptr()[chain] == from
                &&& no_reorg_events(d)
                &&& slot_entries(d).len() == to - from
                &&& (forall|k: int|
                    0 <= k < slot_entries(d).len() ==> slot_entries(d)[k] == (PollerEvent::Slot {
                        slot: (from + 1 + k) as u64,
                        parent: (from + k) as u64,
                    }))
                &&& final(self).store.last_ptr().contains_key(chain)
                &&& final(self).store.last_ptr()[chain] == to
                &&& final(self).store.slots().contains_key((chain, to))
                &&& (forall|key: (ChainId, u64)| #[trigger]
                    final(self).store.slots().contains_key(key) ==> old(self).store.slots().contains_key(key) || (key.0 == chain && from < key.1 <= to))
                &&& (prune_failures == 0 ==> (forall|t: u64|
                    from < t <= to && t > h ==> !(#[trigger] final(self).store.slots().contains_key(
                        (chain, (t - h) as u64),
                    ))))
            }),
            r matches Ok(TickOutcome::ReorgHandled { detected_at, orphaned }) ==> ({
                let d = history_delta(
                    final(self).slot_handler.history(),
                    old(self).slot_handler.history(),
                );
                let chain = old(self).config.chain_id;
                &&& orphaned@.len() >= 1
                &&& (forall|k: int|
                    0 <= k < orphaned@.len() ==> (#[trigger] orphaned@[k]) == (detected_at - 1
                        - k) as u64)
                &&& reorg_entries(d).len() == orphaned@.len()
                &&& (forall|k: int|
                    0 <= k < orphaned@.len() ==> reorg_entries(d)[k] == reorg_event(
                        #[trigger] orphaned@[k],
                    ))
                &&& (forall|k: int|
                    0 <= k < orphaned@.len() ==> !final(self).store.slots().contains_key(
                        (chain, #[trigger] orphaned@[k]),
                    ))
                &&& (old(self).store.last_ptr().contains_key(chain) ==> (detected_at == old(self).store.last_ptr()[chain] + slot_entries(d).len() + 1 && (forall|k: int|
                    0 <= k < slot_entries(d).len() ==> slot_entries(d)[k] == (PollerEvent::Slot {
                        slot: (old(self).store.last_ptr()[chain] + 1 + k) as u64,
                        parent: (old(self).store.last_ptr()[chain] + k) as u64,
                    }))))
            }),
            r matches Ok(TickOutcome::ReorgFailed { detected_at }) ==> ({
                let d = history_delta(
                    final(self).slot_handler.history(),
                    old(self).slot_handler.history(),
                );
                let chain = old(self).config.chain_id;
                &&& reorg_entries(d).len() < detected_at
                &&& (forall|j: int|
                    0 <= j < reorg_entries(d).len() ==> reorg_entries(d)[j] == reorg_event(
                        (detected_at - 1 - j) as u64,
                    ))
                &&& (old(self).store.last_ptr().contains_key(chain) ==> (detected_at == old(self).store.last_ptr()[chain] + slot_entries(d).len() + 1 && (forall|k: int|
                    0 <= k < slot_entries(d).len() ==> slot_entries(d)[k] == (PollerEvent::Slot {
                        slot: (old(self).store.last_ptr()[chain] + 1 + k) as u64,
                        parent: (old(self).store.last_ptr()[chain] + k) as u64,
                    }))))
            }),
            r matches Err(PollerError::Decode(_)) ==> ({
                let d = history_delta(
                    final(self).slot_handler.history(),
                    old(self).slot_handler.history(),
                );
                let chain = old(self).config.chain_id;
                &&& slot_entries(d).len() >= 1
                &&& (old(self).store.last_ptr().contains_key(chain) ==> final(self).store.last_ptr()[chain] == old(self).store.last_ptr()[chain] + slot_entries(
                    d,
                ).len() - 1)
            }),
            r matches Err(PollerError::MissingLastProcessedSlot) ==> history_delta(
                final(self).slot_handler.history(),
                old(self).slot_handler.history(),
            ).len() == 0 && final(self).store.slots() == old(self).store.slots() && final(self).store.last_ptr() == old(self).store.last_ptr(),
            r matches Err(PollerError::Handler(_)) ==> ({
                let d = history_delta(
                    final(self).slot_handler.history(),
                    old(self).slot_handler.history(),
                );
                let chain = old(self).config.chain_id;
                &&& slot_entries(d).len() >= 1
                &&& (old(self).store.last_ptr().contains_key(chain) ==> final(self).store.last_ptr()[chain] == old(self).store.last_ptr()[chain] + slot_entries(
                    d,
                ).len() - 1)
            }),
            r is Err ==> ({
                let d = history_delta(
                    final(self).slot_handler.history(),
                    old(self).slot_handler.history(),
                );
                let chain = old(self).config.chain_id;
                &&& no_reorg_events(d)
                &&& (old(self).store.last_ptr().contains_key(chain) ==> (final(self).store.last_ptr().contains_key(chain) && final(self).store.last_ptr()[chain] >= old(self).store.last_ptr()[chain] && (forall|k: int|
                    0 <= k < slot_entries(d).len() ==> slot_entries(d)[k] == (PollerEvent::Slot {
                        slot: (old(self).store.last_ptr()[chain] + 1 + k) as u64,
                        parent: (old(self).store.last_ptr()[chain] + k) as u64,
                    }))))
                &&& (old(self).store.last_ptr().contains_key(chain) ==> (final(self).store.last_ptr()[chain] + 1 >= old(self).store.last_ptr()[chain] + slot_entries(
                    d,
                ).len() && final(self).store.last_ptr()[chain] <= old(self).store.last_ptr()[chain]
                    + slot_entries(d).len() && (forall|key: (ChainId, u64)| #[trigger]
                    final(self).store.slots().contains_key(key) ==> old(self).store.slots().contains_key(key) || (key.0 == chain && old(self).store.last_ptr()[chain] < key.1 <= final(self).store.last_ptr()[chain]))))
            }),
    {
        proof {
            lemma_history_refl(self.slot_handler.history());
        }
        let chain_id = self.config.chain_id;
        let latest_slot_record = match self.store.get_last_processed_slot(chain_id) {
            Ok(Some(rec)) => rec,
            Ok(None) => {
                return Err(PollerError::MissingLastProcessedSlot);
            },
            Err(e) => {
                return Err(PollerError::Persistence(e));
            },
        };
        let latest_slot_num = match self.client.get_latest_slot() {
            Ok(n) => n,
            Err(e) => {
                return Err(PollerError::Client(e));
            },
        };
        if latest_slot_record.slot == latest_slot_num {
            return Ok(TickOutcome::NoWork);
        }
        if latest_slot_num < latest_slot_record.slot {
            // the chain's view is behind the cursor: nothing to fetch
            return Ok(TickOutcome::NoWork);
        }
        let from = latest_slot_record.slot;
        let history = self.config.slot_history_size as u64;
        let ghost h0 = self.slot_handler.history();
        let ghost slots0 = self.store.slots();
        let mut current = from;
        let mut prune_failures: u64 = 0;
        while current < latest_slot_num
            invariant
                chain_id == old(self).config.chain_id,
                history == old(self).config.slot_history_size as u64,
                h0 == old(self).slot_handler.history(),
                slots0 == old(self).store.slots(),
                old(self).store.last_ptr().contains_key(chain_id),
                old(self).store.last_ptr()[chain_id] == from,
                from <= current <= latest_slot_num,
                self.wf(),
                self.config == old(self).config,
                self.contract_store == old(self).contract_store,
                history_extends(self.slot_handler.history(), h0),
                ({
                    let d = history_delta(self.slot_handler.history(), h0);
                    &&& tick_ordering_ok(d)
                    &&& no_reorg_events(d)
                    &&& slot_entries(d).len() == current - from
                    &&& (forall|k: int|
                        0 <= k < slot_entries(d).len() ==> slot_entries(d)[k]
                            == (PollerEvent::Slot {
                            slot: (from + 1 + k) as u64,
                            parent: (from + k) as u64,
                        }))
                }),
                self.store.last_ptr().contains_key(chain_id),
                self.store.last_ptr()[chain_id] == current,
                self.store.slots().contains_key((chain_id, current)),
                self.store.is_open() == old(self).store.is_open(),
                forall|key: (ChainId, u64)| #[trigger]
                    self.store.slots().contains_key(key) ==> slots0.contains_key(key) || (key.0
                        == chain_id && from < key.1 <= current),
                prune_failures == 0 ==> (forall|t: u64|
                    from < t <= current && t > history ==> !(
                    #[trigger] self.store.slots().contains_key((chain_id, (t - history) as u64)))),
            decreases latest_slot_num - current,
        {
            let s = current + 1;
            let new_canon_slot = match self.client.get_slot_by_number(s) {
                Ok(x) => x,
                Err(e) => {
                    return Err(PollerError::Client(e));
                },
            };
            let parent_slot = match new_canon_slot.parent {
                Some(p) => p,
                None => 0u64,
            };
            if parent_slot != current {
                // parent linkage broken: a reorg; reconcile and stop
                let ghost h_mid = self.slot_handler.history();
                let reconcile_result = self.reconcile_reorg(&new_canon_slot);
                proof {
                    let d1 = history_delta(h_mid, h0);
                    let b = history_delta(self.slot_handler.history(), h_mid);
                    lemma_delta_compose(h0, h_mid, self.slot_handler.history());
                    assert forall|i: int, j: int|
                        0 <= i < j < b.len() && (#[trigger] b[i]) is Reorg && (
                        #[trigger] b[j]) is Reorg implies b[i]->Reorg_slot > b[j]->Reorg_slot by {
                        assert(b[i] == reorg_event((s - 1 - i) as u64));
                        assert(b[j] == reorg_event((s - 1 - j) as u64));
                    }
                    lemma_tick_append_reorg_batch(d1, b);
                }
                match reconcile_result {
                    Ok(orphans) => {
                        return Ok(TickOutcome::ReorgHandled { detected_at: s, orphaned: orphans });
                    },
                    Err(_e) => {
                        // a failed reconciliation is logged; the next tick
                        // re-detects the reorg
                        return Ok(TickOutcome::ReorgFailed { detected_at: s });
                    },
                }
            }
            let ghost h_pre_slot = self.slot_handler.history();
            match self.slot_handler.handle_slot(&new_canon_slot) {
                Ok(()) => {},
                Err(_e) => {},  // a handler error here is swallowed
            }
            proof {
                lemma_delta_push(h0, h_pre_slot, slot_event(new_canon_slot));
                let d1 = history_delta(h_pre_slot, h0);
                assert(slot_event(new_canon_slot) == PollerEvent::Slot { slot: s, parent: current });
                lemma_tick_append_slot(d1, s, current);
                let d2 = history_delta(self.slot_handler.history(), h0);
                assert(d2 == d1.push(PollerEvent::Slot { slot: s, parent: current }));
                assert(slot_entries(d2) == slot_entries(d1).push(
                    PollerEvent::Slot { slot: s, parent: current },
                ));
                assert forall|k: int| 0 <= k < slot_entries(d2).len() implies slot_entries(d2)[k]
                    == (PollerEvent::Slot {
                    slot: (from + 1 + k) as u64,
                    parent: (from + k) as u64,
                }) by {
                    if k < slot_entries(d1).len() {
                        assert(slot_entries(d2)[k] == slot_entries(d1)[k]);
                    } else {
                        assert(slot_entries(d2)[k] == PollerEvent::Slot {
                            slot: s,
                            parent: current,
                        });
                    }
                }
            }
            let ghost h_mid2 = self.slot_handler.history();
            match self.process_slot_logs(&new_canon_slot) {
                Ok(_) => {},
                Err(e) => {
                    proof {
                        lemma_delta_compose(h0, h_mid2, self.slot_handler.history());
                        let d2 = history_delta(h_mid2, h0);
                        let b = history_delta(self.slot_handler.history(), h_mid2);
                        lemma_tick_append_logs(d2, b, s);
                    }
                    return Err(e);
                },
            }
            proof {
                lemma_delta_compose(h0, h_mid2, self.slot_handler.history());
                let d2 = history_delta(h_mid2, h0);
                let b = history_delta(self.slot_handler.history(), h_mid2);
                lemma_tick_append_logs(d2, b, s);
            }
            // prune the record that fell out of the kept history window
            if self.config.slot_history_size > 0 && s > history {
                let old_slot_num = s - history;
                match self.store.delete_slot(chain_id, old_slot_num) {
                    Ok(()) => {},
                    Err(e) => {
                        match e {
                            PersistenceError::NotFound => {},
                            _ => {
                                // logged and tolerated; reported in the outcome
                                if prune_failures < u64::MAX {
                                    prune_failures = prune_failures + 1;
                                }
                            },
                        }
                    },
                }
            }
            current = s;
        }
        Ok(TickOutcome::Advanced { from, to: latest_slot_num, prune_failures })
    }
}

} // verus!
