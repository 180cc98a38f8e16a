//! Delivery of records to a save sink, one by one and in order.
//!
//! The receiving side is a small state machine: a record arrives and is
//! handed to the sink; the sink succeeds and the next record is awaited, or
//! it fails and delivery stops for good.

use vstd::prelude::*;
use vstd::string::*;
use indexmap::IndexMap;
use crate::error::GenericError;
use crate::value::CellValue;

verus! {

/// The number of records that the channel between producer and receiver holds at most.
pub const CHANNEL_CAPACITY: usize = 32;

/// Where the receiving side stands.
#[derive(Debug)]
pub enum DeliveryState {
    /// Records are awaited; `delivered` were saved so far.
    Receiving { delivered: usize },
    /// The sink failed; nothing more is delivered.
    Failed { delivered: usize, error: GenericError },
    /// The producer is done and every record it sent was saved.
    Finished { delivered: usize },
}

/// What happened on the receiving side.
#[derive(Debug)]
pub enum DeliveryEvent {
    /// A record arrived.
    Received,
    /// The sink saved the record it was handed.
    Saved,
    /// The sink failed on the record it was handed.
    SaveFailed(GenericError),
    /// The channel is closed and empty.
    Closed,
}

/// What the receiving side does next.
#[derive(Debug, Clone, Copy, PartialEq, Eq, Structural)]
pub enum DeliveryAction {
    /// Hand the record that arrived to the sink.
    Save,
    /// Await the next record.
    Receive,
    /// Close the receiving end and return.
    Stop,
}

/// The mathematical content of a [`DeliveryState`].
pub enum DeliveryStateView {
    Receiving { delivered: nat },
    Failed { delivered: nat, code: Seq<char> },
    Finished { delivered: nat },
}

/// The mathematical content of a [`DeliveryEvent`].
pub enum DeliveryEventView {
    Received,
    Saved,
    SaveFailed(Seq<char>),
    Closed,
}

impl View for DeliveryState {
    type V = DeliveryStateView;

    open spec fn view(&self) -> DeliveryStateView {
        match self {
            DeliveryState::Receiving { delivered } => DeliveryStateView::Receiving {
                delivered: *delivered as nat,
            },
            DeliveryState::Failed { delivered, error } => DeliveryStateView::Failed {
                delivered: *delivered as nat,
                code: error.code(),
            },
            DeliveryState::Finished { delivered } => DeliveryStateView::Finished {
                delivered: *delivered as nat,
            },
        }
    }
}

impl View for DeliveryEvent {
    type V = DeliveryEventView;

    open spec fn view(&self) -> DeliveryEventView {
        match self {
            DeliveryEvent::Received => DeliveryEventView::Received,
            DeliveryEvent::Saved => DeliveryEventView::Saved,
            DeliveryEvent::SaveFailed(e) => DeliveryEventView::SaveFailed(e.code()),
            DeliveryEvent::Closed => DeliveryEventView::Closed,
        }
    }
}

/// The count after one more record, which stays at the greatest number that can be held.
pub open spec fn one_more(n: nat) -> nat {
    if n < usize::MAX {
        n + 1
    } else {
        n
    }
}

/// The state after an event.
///
/// While receiving, a saved record is counted, a failure of the sink leads
/// to `Failed` and a closed channel to `Finished`. `Failed` and `Finished`
/// are final: no event changes them.
pub open spec fn next_state(state: DeliveryStateView, event: DeliveryEventView) -> DeliveryStateView {
    match state {
        DeliveryStateView::Receiving { delivered } => match event {
            DeliveryEventView::Received => state,
            DeliveryEventView::Saved => DeliveryStateView::Receiving {
                delivered: one_more(delivered),
            },
            DeliveryEventView::SaveFailed(code) => DeliveryStateView::Failed { delivered, code },
            DeliveryEventView::Closed => DeliveryStateView::Finished { delivered },
        },
        _ => state,
    }
}

/// What is done after an event.
///
/// While receiving, a record that arrives is handed to the sink, and after
/// a save the next record is awaited. In every other case delivery stops.
pub open spec fn next_action(state: DeliveryStateView, event: DeliveryEventView) -> DeliveryAction {
    match state {
        DeliveryStateView::Receiving { .. } => match event {
            DeliveryEventView::Received => DeliveryAction::Save,
            DeliveryEventView::Saved => DeliveryAction::Receive,
            _ => DeliveryAction::Stop,
        },
        _ => DeliveryAction::Stop,
    }
}

/// The state after a sequence of events.
pub open spec fn state_after(state: DeliveryStateView, events: Seq<DeliveryEventView>) -> DeliveryStateView
    decreases events.len(),
{
    if events.len() == 0 {
        state
    } else {
        next_state(state_after(state, events.drop_last()), events.last())
    }
}

/// How often the sink is invoked over a sequence of events.
pub open spec fn saves_during(state: DeliveryStateView, events: Seq<DeliveryEventView>) -> nat
    decreases events.len(),
{
    if events.len() == 0 {
        0
    } else {
        saves_during(state, events.drop_last()) + (if next_action(
            state_after(state, events.drop_last()),
            events.last(),
        ) == DeliveryAction::Save {
            1nat
        } else {
            0nat
        })
    }
}

/// Once the sink has failed, delivery has stopped for good: whatever
/// happens afterwards, the state keeps the error and the sink is never
/// invoked again.
pub proof fn lemma_failure_is_final(state: DeliveryStateView, events: Seq<DeliveryEventView>)
    requires
        state is Failed,
    ensures
        state_after(state, events) == state,
        saves_during(state, events) == 0,
    decreases events.len(),
{
    if events.len() > 0 {
        lemma_failure_is_final(state, events.drop_last());
    }
}

/// A failure of the sink stops delivery at once and surfaces its error.
pub proof fn lemma_save_failure_stops(delivered: nat, code: Seq<char>)
    ensures
        next_state(
            DeliveryStateView::Receiving { delivered },
            DeliveryEventView::SaveFailed(code),
        ) == (DeliveryStateView::Failed { delivered, code }),
        next_action(
            DeliveryStateView::Receiving { delivered },
            DeliveryEventView::SaveFailed(code),
        ) == DeliveryAction::Stop,
{
}

/// After the channel has closed nothing is delivered any more.
pub proof fn lemma_finish_is_final(state: DeliveryStateView, events: Seq<DeliveryEventView>)
    requires
        state is Finished,
    ensures
        state_after(state, events) == state,
        saves_during(state, events) == 0,
    decreases events.len(),
{
    if events.len() > 0 {
        lemma_finish_is_final(state, events.drop_last());
    }
}

/// The events of `count` rows that arrive and are saved, one after the other.
pub open spec fn saved_rows(count: nat) -> Seq<DeliveryEventView>
    decreases count,
{
    if count == 0 {
        Seq::empty()
    } else {
        saved_rows((count - 1) as nat).push(DeliveryEventView::Received).push(
            DeliveryEventView::Saved,
        )
    }
}

/// Events that follow others take up where those left off.
pub proof fn lemma_events_in_sequence(
    state: DeliveryStateView,
    first: Seq<DeliveryEventView>,
    then: Seq<DeliveryEventView>,
)
    ensures
        state_after(state, first + then) == state_after(state_after(state, first), then),
        saves_during(state, first + then) == saves_during(state, first) + saves_during(
            state_after(state, first),
            then,
        ),
    decreases then.len(),
{
    if then.len() == 0 {
        assert(first + then =~= first);
    } else {
        lemma_events_in_sequence(state, first, then.drop_last());
        assert((first + then).drop_last() =~= first + then.drop_last());
        assert((first + then).last() == then.last());
    }
}

/// While the sink saves, every row that arrives is handed to it once and counted.
pub proof fn lemma_saved_rows_are_counted(delivered: nat, count: nat)
    requires
        delivered + count <= usize::MAX,
    ensures
        state_after(DeliveryStateView::Receiving { delivered }, saved_rows(count)) == (
        DeliveryStateView::Receiving { delivered: delivered + count }),
        saves_during(DeliveryStateView::Receiving { delivered }, saved_rows(count)) == count,
    decreases count,
{
    let start = DeliveryStateView::Receiving { delivered };
    if count > 0 {
        lemma_saved_rows_are_counted(delivered, (count - 1) as nat);
        let before = saved_rows((count - 1) as nat);
        let arrived = before.push(DeliveryEventView::Received);
        let all = saved_rows(count);
        let held = DeliveryStateView::Receiving { delivered: (delivered + count - 1) as nat };
        assert(all == arrived.push(DeliveryEventView::Saved));
        assert(arrived.drop_last() =~= before);
        assert(arrived.last() == DeliveryEventView::Received);
        assert(all.drop_last() =~= arrived);
        assert(all.last() == DeliveryEventView::Saved);
        assert(state_after(start, before) == held);
        assert(state_after(start, arrived) == held);
        assert(saves_during(start, arrived) == count);
        assert(state_after(start, all) == next_state(held, DeliveryEventView::Saved));
        assert(saves_during(start, all) == count);
    } else {
        assert(saved_rows(0).len() == 0);
    }
}

/// A sink that saves `saved` rows and fails on the next halts delivery:
/// whatever happens afterwards, delivery ends in failure with the error of
/// the sink, and the sink was invoked `saved + 1` times and never again.
/// For a sink that fails on the third row that is three invocations.
pub proof fn lemma_failure_halts_delivery(
    saved: nat,
    code: Seq<char>,
    afterwards: Seq<DeliveryEventView>,
)
    requires
        saved <= usize::MAX,
    ensures
        state_after(
            DeliveryStateView::Receiving { delivered: 0 },
            saved_rows(saved).push(DeliveryEventView::Received).push(
                DeliveryEventView::SaveFailed(code),
            ) + afterwards,
        ) == (DeliveryStateView::Failed { delivered: saved, code }),
        saves_during(
            DeliveryStateView::Receiving { delivered: 0 },
            saved_rows(saved).push(DeliveryEventView::Received).push(
                DeliveryEventView::SaveFailed(code),
            ) + afterwards,
        ) == saved + 1,
{
    let start = DeliveryStateView::Receiving { delivered: 0 };
    let rows = saved_rows(saved);
    let arrived = rows.push(DeliveryEventView::Received);
    let failed = arrived.push(DeliveryEventView::SaveFailed(code));
    lemma_saved_rows_are_counted(0, saved);
    assert(arrived.drop_last() =~= rows);
    assert(failed.drop_last() =~= arrived);
    assert(state_after(start, arrived) == (DeliveryStateView::Receiving { delivered: saved }));
    assert(saves_during(start, arrived) == saved + 1);
    assert(state_after(start, failed) == (DeliveryStateView::Failed { delivered: saved, code }));
    assert(saves_during(start, failed) == saved + 1);
    lemma_events_in_sequence(start, failed, afterwards);
    lemma_failure_is_final(DeliveryStateView::Failed { delivered: saved, code }, afterwards);
}

impl DeliveryState {
    /// The state in which delivery starts.
    pub fn start() -> (r: Self)
        ensures
            r@ == (DeliveryStateView::Receiving { delivered: 0 }),
    {
        DeliveryState::Receiving { delivered: 0 }
    }

    /// The number of records saved so far.
    pub fn delivered(&self) -> (r: usize)
        ensures
            r == (match self@ {
                DeliveryStateView::Receiving { delivered } => delivered,
                DeliveryStateView::Failed { delivered, .. } => delivered,
                DeliveryStateView::Finished { delivered } => delivered,
            }),
    {
        match self {
            DeliveryState::Receiving { delivered } => *delivered,
            DeliveryState::Failed { delivered, .. } => *delivered,
            DeliveryState::Finished { delivered } => *delivered,
        }
    }

    /// The outcome once delivery has stopped: the number of records saved,
    /// or the error of the sink. `None` while records are still awaited.
    pub fn outcome(self) -> (r: Option<Result<usize, GenericError>>)
        ensures
            match self@ {
                DeliveryStateView::Receiving { .. } => r is None,
                DeliveryStateView::Failed { code, .. } => r is Some && r->0 is Err
                    && r->0->Err_0.code() == code,
                DeliveryStateView::Finished { delivered } => r == Some(
                    Ok::<usize, GenericError>(delivered as usize),
                ),
            },
    {
        match self {
            DeliveryState::Receiving { .. } => None,
            DeliveryState::Failed { error, .. } => Some(Err(error)),
            DeliveryState::Finished { delivered } => Some(Ok(delivered)),
        }
    }
}

/// One step of the receiving side: the state after the event and what to do next.
pub fn delivery_step(state: DeliveryState, event: DeliveryEvent) -> (r: (
    DeliveryState,
    DeliveryAction,
))
    ensures
        r.0@ == next_state(state@, event@),
        r.1 == next_action(state@, event@),
{
    match state {
        DeliveryState::Receiving { delivered } => match event {
            DeliveryEvent::Received => (
                DeliveryState::Receiving { delivered },
                DeliveryAction::Save,
            ),
            DeliveryEvent::Saved => {
                let next = if delivered < usize::MAX {
                    delivered + 1
                } else {
                    delivered
                };
                (DeliveryState::Receiving { delivered: next }, DeliveryAction::Receive)
            },
            DeliveryEvent::SaveFailed(error) => (
                DeliveryState::Failed { delivered, error },
                DeliveryAction::Stop,
            ),
            DeliveryEvent::Closed => (DeliveryState::Finished { delivered }, DeliveryAction::Stop),
        },
        DeliveryState::Failed { delivered, error } => (
            DeliveryState::Failed { delivered, error },
            DeliveryAction::Stop,
        ),
        DeliveryState::Finished { delivered } => (
            DeliveryState::Finished { delivered },
            DeliveryAction::Stop,
        ),
    }
}

/// Hands records to a sink, one by one and in order, until the sink fails.
///
/// Gives the number of records if the sink saved them all. If the sink
/// failed, gives its error: the sink saved every record before the one it
/// failed on, and was handed none after it.
pub fn deliver_rows<F: Fn(&IndexMap<String, CellValue>) -> Result<(), GenericError>>(
    records: &Vec<IndexMap<String, CellValue>>,
    save: &F,
) -> (r: Result<usize, GenericError>)
    requires
        forall|record: &IndexMap<String, CellValue>| save.requires((record,)),
    ensures
        match r {
            Ok(n) => n == records@.len() && forall|i: int|
                0 <= i < records@.len() ==> save.ensures((&#[trigger] records@[i],), Ok(())),
            Err(e) => exists|k: int|
                0 <= k < records@.len() && save.ensures((&#[trigger] records@[k],), Err(e))
                    && forall|i: int|
                    0 <= i < k ==> save.ensures((&#[trigger] records@[i],), Ok(())),
        },
{
    let mut i: usize = 0;
    while i < records.len()
        invariant
            i <= records.len(),
            forall|record: &IndexMap<String, CellValue>| save.requires((record,)),
            forall|j: int| 0 <= j < i ==> save.ensures((&#[trigger] records@[j],), Ok(())),
        decreases records.len() - i,
    {
        let outcome = save(&records[i]);
        assert(save.ensures((&records@[i as int],), outcome));
        match outcome {
            Ok(unit) => {
                assert(unit == ());
                assert(outcome == Ok::<(), GenericError>(unit));
            },
            Err(e) => {
                return Err(e);
            },
        }
        i += 1;
    }
    Ok(i)
}

} // verus!
