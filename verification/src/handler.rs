//! The handler sink: the three event kinds the poller delivers, the order
//! they may be delivered in, and a verified recording handler.

use vstd::prelude::*;
use vstd::string::*;
use crate::parser::DecodedLog;
use crate::types::{parent_or_zero, SolanaProgramLog, SolanaSlot};

verus! {

/// The dispatch envelope handed to `handle_log`: the decoded event, the
/// raw log it came from, and the slot both belong to.
#[derive(Clone)]
pub struct LogWithSlot {
    pub log: DecodedLog,
    pub raw_log: SolanaProgramLog,
    pub slot: SolanaSlot,
}

/// Error returned by a handler; the poller logs or propagates it.
pub struct HandlerError {
    pub message: String,
}

/// One delivery to the handler sink, reduced to the numbers the ordering
/// guarantees speak about.
#[derive(Clone, Copy, PartialEq, Eq, Structural)]
pub enum PollerEvent {
    /// `handle_slot` for `slot`, whose reported parent (zero when the chain
    /// omitted it) was `parent`.
    Slot { slot: u64, parent: u64 },
    /// `handle_log` for a log of `slot` with index `log_index`.
    Log { slot: u64, log_index: u64 },
    /// `handle_reorg_slot` for `slot`.
    Reorg { slot: u64 },
}

/// The event a `handle_slot` call appends.
pub open spec fn slot_event(s: SolanaSlot) -> PollerEvent {
    PollerEvent::Slot { slot: s.slot, parent: parent_or_zero(s) }
}

/// The event a `handle_log` call appends.
pub open spec fn log_event(l: LogWithSlot) -> PollerEvent {
    PollerEvent::Log { slot: l.slot.slot, log_index: l.log.log_index }
}

/// The event a `handle_reorg_slot` call appends.
pub open spec fn reorg_event(slot_number: u64) -> PollerEvent {
    PollerEvent::Reorg { slot: slot_number }
}

pub open spec fn slot_pred() -> spec_fn(PollerEvent) -> bool {
    |e: PollerEvent| e is Slot
}

pub open spec fn reorg_pred() -> spec_fn(PollerEvent) -> bool {
    |e: PollerEvent| e is Reorg
}

/// The subsequence of `handle_slot` deliveries.
pub open spec fn slot_entries(s: Seq<PollerEvent>) -> Seq<PollerEvent> {
    s.filter(slot_pred())
}

/// The subsequence of `handle_reorg_slot` deliveries.
pub open spec fn reorg_entries(s: Seq<PollerEvent>) -> Seq<PollerEvent> {
    s.filter(reorg_pred())
}

/// Some earlier position delivered `handle_slot` for slot `n`.
pub open spec fn has_slot_event_before(s: Seq<PollerEvent>, j: int, n: u64) -> bool {
    exists|i: int| 0 <= i < j && (#[trigger] s[i]) is Slot && s[i]->Slot_slot == n
}

/// Every `handle_log` delivery is preceded by the `handle_slot` delivery
/// of its own slot.
pub open spec fn logs_follow_slots(s: Seq<PollerEvent>) -> bool {
    forall|j: int|
        0 <= j < s.len() && (#[trigger] s[j]) is Log ==> has_slot_event_before(s, j, s[j]->Log_slot)
}

/// Reorg notifications come in strictly descending slot order.
pub open spec fn reorgs_descending(s: Seq<PollerEvent>) -> bool {
    forall|i: int, j: int|
        0 <= i < j < s.len() && (#[trigger] s[i]) is Reorg && (#[trigger] s[j]) is Reorg
            ==> s[i]->Reorg_slot > s[j]->Reorg_slot
}

/// No forward `handle_slot` delivery follows a reorg notification.
pub open spec fn no_slot_after_reorg(s: Seq<PollerEvent>) -> bool {
    forall|i: int, j: int|
        0 <= i < j < s.len() && (#[trigger] s[i]) is Reorg ==> !((#[trigger] s[j]) is Slot)
}

/// The ordering guarantees that hold of the deliveries of any one tick.
pub open spec fn tick_ordering_ok(s: Seq<PollerEvent>) -> bool {
    logs_follow_slots(s) && reorgs_descending(s) && no_slot_after_reorg(s)
}

pub open spec fn no_reorg_events(s: Seq<PollerEvent>) -> bool {
    forall|i: int| 0 <= i < s.len() ==> !((#[trigger] s[i]) is Reorg)
}

pub open spec fn all_log_events_for(s: Seq<PollerEvent>, n: u64) -> bool {
    forall|i: int| 0 <= i < s.len() ==> (#[trigger] s[i]) is Log && s[i]->Log_slot == n
}

pub open spec fn has_slot_event(s: Seq<PollerEvent>, n: u64) -> bool {
    exists|i: int| 0 <= i < s.len() && (#[trigger] s[i]) is Slot && s[i]->Slot_slot == n
}

/// Every reorg notification so far names a slot above `n`.
pub open spec fn reorg_events_gt(s: Seq<PollerEvent>, n: u64) -> bool {
    forall|i: int| 0 <= i < s.len() && (#[trigger] s[i]) is Reorg ==> s[i]->Reorg_slot > n
}

/// Filtering one pushed element either appends it or leaves the filtered
/// sequence alone.
pub proof fn lemma_filter_push<A>(s: Seq<A>, pred: spec_fn(A) -> bool, e: A)
    ensures
        s.push(e).filter(pred) == (if pred(e) {
            s.filter(pred).push(e)
        } else {
            s.filter(pred)
        }),
{
    reveal(Seq::filter);
    let s2 = s.push(e);
    assert(s2.drop_last() =~= s);
    assert(s2.last() == e);
}

/// Appending a `handle_slot` delivery keeps the tick ordering, extends the
/// slot subsequence by exactly that delivery, and leaves the reorg
/// subsequence alone.
pub proof fn lemma_tick_append_slot(d: Seq<PollerEvent>, s: u64, p: u64)
    requires
        tick_ordering_ok(d),
        no_reorg_events(d),
    ensures
        tick_ordering_ok(d.push(PollerEvent::Slot { slot: s, parent: p })),
        no_reorg_events(d.push(PollerEvent::Slot { slot: s, parent: p })),
        slot_entries(d.push(PollerEvent::Slot { slot: s, parent: p })) == slot_entries(d).push(
            PollerEvent::Slot { slot: s, parent: p },
        ),
        reorg_entries(d.push(PollerEvent::Slot { slot: s, parent: p })) == reorg_entries(d),
        has_slot_event(d.push(PollerEvent::Slot { slot: s, parent: p }), s),
{
    let e = PollerEvent::Slot { slot: s, parent: p };
    let d2 = d.push(e);
    lemma_filter_push(d, slot_pred(), e);
    lemma_filter_push(d, reorg_pred(), e);
    assert(d2[d.len() as int] == e);
    assert forall|j: int| 0 <= j < d2.len() && (#[trigger] d2[j]) is Log implies has_slot_event_before(
        d2,
        j,
        d2[j]->Log_slot,
    ) by {
        assert(j < d.len());
        assert(d2[j] == d[j]);
        let i = choose|i: int|
            0 <= i < j && (#[trigger] d[i]) is Slot && d[i]->Slot_slot == d[j]->Log_slot;
        assert(d2[i] == d[i]);
        assert(0 <= i < j && d2[i] is Slot && d2[i]->Slot_slot == d2[j]->Log_slot);
    }
    assert forall|i: int, j: int|
        0 <= i < j < d2.len() && (#[trigger] d2[i]) is Reorg && (#[trigger] d2[j]) is Reorg implies d2[i]->Reorg_slot
        > d2[j]->Reorg_slot by {
        assert(d2[i] == d[i]);
    }
    assert forall|i: int, j: int|
        0 <= i < j < d2.len() && (#[trigger] d2[i]) is Reorg implies !((#[trigger] d2[j]) is Slot) by {
        assert(d2[i] == d[i]);
        assert(d[i] is Reorg);
    }
}

/// Appending the `handle_log` deliveries of an already-delivered slot
/// keeps the tick ordering and both subsequences.
pub proof fn lemma_tick_append_logs(d: Seq<PollerEvent>, b: Seq<PollerEvent>, n: u64)
    requires
        tick_ordering_ok(d),
        no_reorg_events(d),
        has_slot_event(d, n),
        all_log_events_for(b, n),
    ensures
        tick_ordering_ok(d + b),
        no_reorg_events(d + b),
        slot_entries(d + b) == slot_entries(d),
        reorg_entries(d + b) == reorg_entries(d),
{
    let d2 = d + b;
    Seq::<PollerEvent>::filter_distributes_over_add(d, b, slot_pred());
    Seq::<PollerEvent>::filter_distributes_over_add(d, b, reorg_pred());
    b.lemma_all_neg_filter_empty(slot_pred());
    b.lemma_all_neg_filter_empty(reorg_pred());
    assert(slot_entries(d2) =~= slot_entries(d));
    assert(reorg_entries(d2) =~= reorg_entries(d));
    let w = choose|i: int| 0 <= i < d.len() && (#[trigger] d[i]) is Slot && d[i]->Slot_slot == n;
    assert forall|j: int| 0 <= j < d2.len() && (#[trigger] d2[j]) is Log implies has_slot_event_before(
        d2,
        j,
        d2[j]->Log_slot,
    ) by {
        if j < d.len() {
            assert(d2[j] == d[j]);
            let i = choose|i: int|
                0 <= i < j && (#[trigger] d[i]) is Slot && d[i]->Slot_slot == d[j]->Log_slot;
            assert(d2[i] == d[i]);
            assert(0 <= i < j && d2[i] is Slot && d2[i]->Slot_slot == d2[j]->Log_slot);
        } else {
            assert(d2[j] == b[j - d.len()]);
            assert(d2[j]->Log_slot == n);
            assert(d2[w] == d[w]);
            assert(0 <= w < j && d2[w] is Slot && d2[w]->Slot_slot == d2[j]->Log_slot);
        }
    }
    assert forall|i: int, j: int|
        0 <= i < j < d2.len() && (#[trigger] d2[i]) is Reorg && (#[trigger] d2[j]) is Reorg implies d2[i]->Reorg_slot
        > d2[j]->Reorg_slot by {
        if i < d.len() {
            assert(d2[i] == d[i]);
        } else {
            assert(d2[i] == b[i - d.len()]);
        }
        if j < d.len() {
            assert(d2[j] == d[j]);
        } else {
            assert(d2[j] == b[j - d.len()]);
        }
    }
    assert forall|i: int, j: int|
        0 <= i < j < d2.len() && (#[trigger] d2[i]) is Reorg implies !((#[trigger] d2[j]) is Slot) by {
        if i < d.len() {
            assert(d2[i] == d[i]);
        } else {
            assert(d2[i] == b[i - d.len()]);
        }
        if j < d.len() {
            assert(d2[j] == d[j]);
        } else {
            assert(d2[j] == b[j - d.len()]);
        }
    }
    assert forall|i: int| 0 <= i < d2.len() implies !((#[trigger] d2[i]) is Reorg) by {
        if i < d.len() {
            assert(d2[i] == d[i]);
        } else {
            assert(d2[i] == b[i - d.len()]);
        }
    }
}

/// Appending a reorg notification below every earlier one keeps the tick
/// ordering and extends the reorg subsequence by exactly that notification.
pub proof fn lemma_tick_append_reorg(d: Seq<PollerEvent>, n: u64)
    requires
        tick_ordering_ok(d),
        reorg_events_gt(d, n),
    ensures
        tick_ordering_ok(d.push(PollerEvent::Reorg { slot: n })),
        slot_entries(d.push(PollerEvent::Reorg { slot: n })) == slot_entries(d),
        reorg_entries(d.push(PollerEvent::Reorg { slot: n })) == reorg_entries(d).push(
            PollerEvent::Reorg { slot: n },
        ),
        forall|m: u64| m < n ==> reorg_events_gt(d.push(PollerEvent::Reorg { slot: n }), m),
{
    let e = PollerEvent::Reorg { slot: n };
    let d2 = d.push(e);
    lemma_filter_push(d, slot_pred(), e);
    lemma_filter_push(d, reorg_pred(), e);
    assert(d2[d.len() as int] == e);
    assert forall|j: int| 0 <= j < d2.len() && (#[trigger] d2[j]) is Log implies has_slot_event_before(
        d2,
        j,
        d2[j]->Log_slot,
    ) by {
        assert(j < d.len());
        assert(d2[j] == d[j]);
        let i = choose|i: int|
            0 <= i < j && (#[trigger] d[i]) is Slot && d[i]->Slot_slot == d[j]->Log_slot;
        assert(d2[i] == d[i]);
        assert(0 <= i < j && d2[i] is Slot && d2[i]->Slot_slot == d2[j]->Log_slot);
    }
    assert forall|i: int, j: int|
        0 <= i < j < d2.len() && (#[trigger] d2[i]) is Reorg && (#[trigger] d2[j]) is Reorg implies d2[i]->Reorg_slot
        > d2[j]->Reorg_slot by {
        assert(d2[i] == d[i]);
        if j < d.len() {
            assert(d2[j] == d[j]);
        }
    }
    assert forall|i: int, j: int|
        0 <= i < j < d2.len() && (#[trigger] d2[i]) is Reorg implies !((#[trigger] d2[j]) is Slot) by {
        assert(d2[i] == d[i]);
        if j < d.len() {
            assert(d2[j] == d[j]);
        }
    }
    assert forall|m: u64| m < n implies #[trigger] reorg_events_gt(d2, m) by {
        assert forall|i: int| 0 <= i < d2.len() && (#[trigger] d2[i]) is Reorg implies d2[i]->Reorg_slot
            > m by {
            if i < d.len() {
                assert(d2[i] == d[i]);
            }
        }
    }
}

/// `h2` carries `h1` unchanged as its initial segment.
pub open spec fn history_extends(h2: Seq<PollerEvent>, h1: Seq<PollerEvent>) -> bool {
    h1.len() <= h2.len() && h2.subrange(0, h1.len() as int) == h1
}

/// The deliveries `h2` makes beyond `h1`.
pub open spec fn history_delta(h2: Seq<PollerEvent>, h1: Seq<PollerEvent>) -> Seq<PollerEvent> {
    h2.skip(h1.len() as int)
}

/// A history extends itself by no deliveries.
pub proof fn lemma_history_refl(h: Seq<PollerEvent>)
    ensures
        history_extends(h, h),
        history_delta(h, h) == Seq::<PollerEvent>::empty(),
{
    assert(h.subrange(0, h.len() as int) =~= h);
    assert(h.skip(h.len() as int) =~= Seq::<PollerEvent>::empty());
}

/// Extending a history by one delivery extends the delta by that delivery.
pub proof fn lemma_delta_push(h0: Seq<PollerEvent>, h1: Seq<PollerEvent>, e: PollerEvent)
    requires
        history_extends(h1, h0),
    ensures
        history_extends(h1.push(e), h0),
        history_delta(h1.push(e), h0) == history_delta(h1, h0).push(e),
{
    assert(h1.push(e).subrange(0, h0.len() as int) =~= h0);
    assert(h1.push(e).skip(h0.len() as int) =~= h1.skip(h0.len() as int).push(e));
}

/// Deltas compose: what grew in two steps is the concatenation of what
/// grew in each.
pub proof fn lemma_delta_compose(h0: Seq<PollerEvent>, h1: Seq<PollerEvent>, h2: Seq<PollerEvent>)
    requires
        history_extends(h1, h0),
        history_extends(h2, h1),
    ensures
        history_extends(h2, h0),
        history_delta(h2, h0) == history_delta(h1, h0) + history_delta(h2, h1),
{
    assert(h2.subrange(0, h0.len() as int) =~= h0) by {
        assert forall|k: int| 0 <= k < h0.len() implies h2[k] == h0[k] by {
            assert(h2.subrange(0, h1.len() as int)[k] == h2[k]);
            assert(h1.subrange(0, h0.len() as int)[k] == h1[k]);
        }
    }
    assert(h2.skip(h0.len() as int) =~= h1.skip(h0.len() as int) + h2.skip(h1.len() as int)) by {
        assert forall|k: int| 0 <= k < h2.len() - h0.len() implies h2.skip(h0.len() as int)[k] == (
        h1.skip(h0.len() as int) + h2.skip(h1.len() as int))[k] by {
            if k < h1.len() - h0.len() {
                assert(h1.subrange(0, h1.len() as int) =~= h1);
                assert(h2.subrange(0, h1.len() as int)[k + h0.len()] == h2[k + h0.len()]);
            }
        }
    }
}

/// Every delivery in `s` is a reorg notification.
pub open spec fn all_reorg_events(s: Seq<PollerEvent>) -> bool {
    forall|i: int| 0 <= i < s.len() ==> (#[trigger] s[i]) is Reorg
}

/// Filtering keeps a sequence whose every element satisfies the predicate.
pub proof fn lemma_all_pos_filter_id<A>(s: Seq<A>, pred: spec_fn(A) -> bool)
    requires
        forall|i: int| 0 <= i < s.len() ==> pred(#[trigger] s[i]),
    ensures
        s.filter(pred) == s,
    decreases s.len(),
{
    reveal(Seq::filter);
    if s.len() > 0 {
        lemma_all_pos_filter_id(s.drop_last(), pred);
        assert(s.drop_last().push(s.last()) =~= s);
    }
}

/// Appending a whole reorg episode (reorg notifications in strictly
/// descending order) to a tick that delivered no reorg so far keeps the
/// tick ordering; the reorg subsequence becomes exactly the episode.
pub proof fn lemma_tick_append_reorg_batch(d: Seq<PollerEvent>, b: Seq<PollerEvent>)
    requires
        tick_ordering_ok(d),
        no_reorg_events(d),
        all_reorg_events(b),
        reorgs_descending(b),
    ensures
        tick_ordering_ok(d + b),
        slot_entries(d + b) == slot_entries(d),
        reorg_entries(d + b) == b,
{
    let d2 = d + b;
    Seq::<PollerEvent>::filter_distributes_over_add(d, b, slot_pred());
    Seq::<PollerEvent>::filter_distributes_over_add(d, b, reorg_pred());
    b.lemma_all_neg_filter_empty(slot_pred());
    lemma_all_pos_filter_id(b, reorg_pred());
    d.lemma_all_neg_filter_empty(reorg_pred());
    assert(slot_entries(d2) =~= slot_entries(d));
    assert(reorg_entries(d2) =~= b);
    assert forall|j: int| 0 <= j < d2.len() && (#[trigger] d2[j]) is Log implies has_slot_event_before(
        d2,
        j,
        d2[j]->Log_slot,
    ) by {
        if j < d.len() {
            assert(d2[j] == d[j]);
            let i = choose|i: int|
                0 <= i < j && (#[trigger] d[i]) is Slot && d[i]->Slot_slot == d[j]->Log_slot;
            assert(d2[i] == d[i]);
            assert(0 <= i < j && d2[i] is Slot && d2[i]->Slot_slot == d2[j]->Log_slot);
        } else {
            assert(d2[j] == b[j - d.len()]);
        }
    }
    assert forall|i: int, j: int|
        0 <= i < j < d2.len() && (#[trigger] d2[i]) is Reorg && (#[trigger] d2[j]) is Reorg implies d2[i]->Reorg_slot
        > d2[j]->Reorg_slot by {
        if i < d.len() {
            assert(d2[i] == d[i]);
        } else {
            assert(d2[i] == b[i - d.len()]);
            assert(d2[j] == b[j - d.len()]);
        }
    }
    assert forall|i: int, j: int|
        0 <= i < j < d2.len() && (#[trigger] d2[i]) is Reorg implies !((#[trigger] d2[j]) is Slot) by {
        if i < d.len() {
            assert(d2[i] == d[i]);
        } else {
            assert(d2[j] == b[j - d.len()]);
        }
    }
}

/// Capability interface of a handler sink. `history` is the sequence of
/// deliveries made so far; every method appends exactly its own delivery,
/// whether or not the handler reports an error.
pub trait SlotHandler: Sized {
    /// The deliveries made to this handler so far.
    spec fn history(&self) -> Seq<PollerEvent>;

    /// Delivers a newly observed slot. The poller logs and swallows an
    /// error from this method.
    fn handle_slot(&mut self, slot: &SolanaSlot) -> (r: Result<(), HandlerError>)
        ensures
            final(self).history() == old(self).history().push(slot_event(*slot)),
    ;

    /// Delivers one decoded log. An error from this method aborts the
    /// poller's current tick.
    fn handle_log(&mut self, log_with_slot: &LogWithSlot) -> (r: Result<(), HandlerError>)
        ensures
            final(self).history() == old(self).history().push(log_event(*log_with_slot)),
    ;

    /// Notifies that a previously delivered slot was orphaned.
    fn handle_reorg_slot(&mut self, slot_number: u64)
        ensures
            final(self).history() == old(self).history().push(reorg_event(slot_number)),
    ;
}

/// A handler that records every delivery; failures can be switched on to
/// exercise the poller's error paths.
pub struct RecordingSlotHandler {
    pub events: Vec<PollerEvent>,
    pub slots_seen: Vec<SolanaSlot>,
    pub logs_seen: Vec<LogWithSlot>,
    pub reorgs_seen: Vec<u64>,
    pub fail_handle_slot: bool,
    pub fail_handle_log: bool,
}

impl RecordingSlotHandler {
    pub fn new() -> (r: Self)
        ensures
            r.history() == Seq::<PollerEvent>::empty(),
            !r.fail_handle_slot,
            !r.fail_handle_log,
    {
        RecordingSlotHandler {
            events: Vec::new(),
            slots_seen: Vec::new(),
            logs_seen: Vec::new(),
            reorgs_seen: Vec::new(),
            fail_handle_slot: false,
            fail_handle_log: false,
        }
    }
}

impl SlotHandler for RecordingSlotHandler {
    open spec fn history(&self) -> Seq<PollerEvent> {
        self.events@
    }

    fn handle_slot(&mut self, slot: &SolanaSlot) -> (r: Result<(), HandlerError>) {
        let parent = match slot.parent {
            Some(p) => p,
            None => 0u64,
        };
        self.events.push(PollerEvent::Slot { slot: slot.slot, parent });
        self.slots_seen.push(slot.clone());
        if self.fail_handle_slot {
            Err(HandlerError { message: String::from_str("slot handler failure") })
        } else {
            Ok(())
        }
    }

    fn handle_log(&mut self, log_with_slot: &LogWithSlot) -> (r: Result<(), HandlerError>) {
        self.events.push(
            PollerEvent::Log {
                slot: log_with_slot.slot.slot,
                log_index: log_with_slot.log.log_index,
            },
        );
        self.logs_seen.push(log_with_slot.clone());
        if self.fail_handle_log {
            Err(HandlerError { message: String::from_str("log handler failure") })
        } else {
            Ok(())
        }
    }

    fn handle_reorg_slot(&mut self, slot_number: u64) {
        self.events.push(PollerEvent::Reorg { slot: slot_number });
        self.reorgs_seen.push(slot_number);
    }
}

} // verus!
