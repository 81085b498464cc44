//! Reorg detection and repair planning: which events a provider added or
//! removed since ingestion, from which block a chain must be repaired, and what
//! the repair does.
use vstd::prelude::*;
use crate::events::{events_view, same_event, Event, EventModel};

verus! {

/// The events of `xs` that do not occur in `ys`, in order.
pub open spec fn events_missing_from(xs: Seq<EventModel>, ys: Seq<EventModel>) -> Seq<EventModel>
    decreases xs.len(),
{
    if xs.len() == 0 {
        Seq::empty()
    } else {
        let rest = events_missing_from(xs.drop_last(), ys);
        if ys.contains(xs.last()) {
            rest
        } else {
            rest.push(xs.last())
        }
    }
}

fn contains_event(events: &[Event], event: &Event) -> (found: bool)
    ensures
        found == events_view(events@).contains(event@),
{
    let mut i: usize = 0;
    while i < events.len()
        invariant
            i <= events@.len(),
            forall|j: int| 0 <= j < i ==> events@[j]@ != event@,
        decreases events.len() - i,
    {
        if same_event(&events[i], event) {
            assert(events_view(events@)[i as int] == event@);
            return true;
        }
        i = i + 1;
    }
    proof {
        if events_view(events@).contains(event@) {
            let k = choose|k: int| 0 <= k < events_view(events@).len() && events_view(events@)[k] == event@;
            assert(events@[k]@ == event@);
        }
    }
    false
}

/// Copies of the events of `xs` that do not occur in `ys`, in order.
fn missing_events(xs: &[Event], ys: &[Event]) -> (missing: Vec<Event>)
    ensures
        events_view(missing@) == events_missing_from(events_view(xs@), events_view(ys@)),
{
    let mut missing: Vec<Event> = Vec::new();
    let mut i: usize = 0;
    while i < xs.len()
        invariant
            i <= xs@.len(),
            events_view(missing@) == events_missing_from(events_view(xs@).take(i as int), events_view(ys@)),
        decreases xs.len() - i,
    {
        let ghost prefix = events_view(xs@).take(i as int + 1);
        assert(prefix.drop_last() == events_view(xs@).take(i as int));
        assert(prefix.last() == xs@[i as int]@);
        if !contains_event(ys, &xs[i]) {
            missing.push(xs[i].duplicate());
            assert(events_view(missing@) == events_view(missing@).drop_last().push(xs@[i as int]@));
        }
        i = i + 1;
    }
    assert(events_view(xs@).take(xs@.len() as int) == events_view(xs@));
    missing
}

/// The provider's events that were not ingested yet (added) and the ingested
/// events the provider no longer reports (removed), or `None` when both agree.
pub open spec fn added_and_removed(
    already_ingested: Seq<EventModel>,
    provider: Seq<EventModel>,
) -> Option<(Seq<EventModel>, Seq<EventModel>)> {
    let added = events_missing_from(provider, already_ingested);
    let removed = events_missing_from(already_ingested, provider);
    if added.len() == 0 && removed.len() == 0 {
        None
    } else {
        Some((added, removed))
    }
}

/// Compares what was ingested with what the provider now reports.
pub fn get_provider_added_and_removed_events(
    already_ingested_events: &[Event],
    provider_events: &[Event],
) -> (diff: Option<(Vec<Event>, Vec<Event>)>)
    ensures
        diff matches Some((added, removed)) ==> added_and_removed(
            events_view(already_ingested_events@),
            events_view(provider_events@),
        ) == Some((events_view(added@), events_view(removed@))),
        diff is None ==> added_and_removed(
            events_view(already_ingested_events@),
            events_view(provider_events@),
        ) is None,
{
    let added = missing_events(provider_events, already_ingested_events);
    let removed = missing_events(already_ingested_events, provider_events);
    if added.len() == 0 && removed.len() == 0 {
        None
    } else {
        Some((added, removed))
    }
}

/// The smallest block number among the events.
pub open spec fn min_block_number(events: Seq<EventModel>) -> int
    recommends
        events.len() > 0,
    decreases events.len(),
{
    if events.len() <= 1 {
        events[0].block_number as int
    } else {
        let rest = min_block_number(events.drop_last());
        if (events.last().block_number as int) < rest {
            events.last().block_number as int
        } else {
            rest
        }
    }
}

/// The smallest block number of a non-empty list of events is the block number of
/// one of them, and no event lies in an earlier block.
pub proof fn lemma_min_block_number_is_least(events: Seq<EventModel>)
    requires
        events.len() > 0,
    ensures
        forall|i: int| 0 <= i < events.len() ==> min_block_number(events) <= #[trigger] events[i].block_number,
        exists|i: int| 0 <= i < events.len() && min_block_number(events) == #[trigger] events[i].block_number,
    decreases events.len(),
{
    if events.len() > 1 {
        let rest = events.drop_last();
        lemma_min_block_number_is_least(rest);
        assert forall|i: int| 0 <= i < events.len() implies min_block_number(events) <= #[trigger] events[i].block_number by {
            if i < events.len() - 1 {
                assert(events[i] == rest[i]);
            }
        }
        if min_block_number(events) == min_block_number(rest) {
            let j = choose|j: int| 0 <= j < rest.len() && min_block_number(rest) == #[trigger] rest[j].block_number;
            assert(events[j] == rest[j]);
        } else {
            assert(min_block_number(events) == events[events.len() - 1].block_number);
        }
    } else {
        assert(min_block_number(events) == events[0].block_number);
    }
}

/// The block a reorg is repaired from, as far as the events tell: no added or removed
/// event lies in an earlier block, and some added or removed event lies in it.
pub proof fn lemma_earliest_event_block_is_least(added: Seq<EventModel>, removed: Seq<EventModel>)
    requires
        added.len() > 0 || removed.len() > 0,
    ensures
        forall|i: int| 0 <= i < added.len() ==> earliest_event_block(added, removed) <= #[trigger] added[i].block_number,
        forall|i: int| 0 <= i < removed.len() ==> earliest_event_block(added, removed) <= #[trigger] removed[i].block_number,
        (exists|i: int| 0 <= i < added.len() && earliest_event_block(added, removed) == #[trigger] added[i].block_number)
            || (exists|i: int| 0 <= i < removed.len() && earliest_event_block(added, removed) == #[trigger] removed[i].block_number),
{
    if added.len() > 0 {
        lemma_min_block_number_is_least(added);
    }
    if removed.len() > 0 {
        lemma_min_block_number_is_least(removed);
    }
}

fn earliest_block_number_of(events: &[Event]) -> (earliest: i64)
    requires
        events@.len() > 0,
    ensures
        earliest == min_block_number(events_view(events@)),
{
    let mut earliest = events[0].block_number;
    let mut i: usize = 1;
    assert(events_view(events@).take(1) == seq![events@[0]@]);
    while i < events.len()
        invariant
            1 <= i <= events@.len(),
            earliest == min_block_number(events_view(events@).take(i as int)),
        decreases events.len() - i,
    {
        assert(events_view(events@).take(i as int + 1).drop_last() == events_view(events@).take(i as int));
        if events[i].block_number < earliest {
            earliest = events[i].block_number;
        }
        i = i + 1;
    }
    assert(events_view(events@).take(events@.len() as int) == events_view(events@));
    earliest
}

/// The earliest block touched by added or removed events; at least one list holds an event.
pub open spec fn earliest_event_block(added: Seq<EventModel>, removed: Seq<EventModel>) -> int {
    if added.len() == 0 {
        min_block_number(removed)
    } else if removed.len() == 0 {
        min_block_number(added)
    } else if min_block_number(added) <= min_block_number(removed) {
        min_block_number(added)
    } else {
        min_block_number(removed)
    }
}

/// The earliest block number among added and removed events.
pub fn get_earliest_block_number(added_events: &[Event], removed_events: &[Event]) -> (earliest: i64)
    requires
        added_events@.len() > 0 || removed_events@.len() > 0,
    ensures
        earliest == earliest_event_block(events_view(added_events@), events_view(removed_events@)),
        forall|i: int| 0 <= i < added_events@.len() ==> earliest <= #[trigger] added_events@[i].block_number,
        forall|i: int| 0 <= i < removed_events@.len() ==> earliest <= #[trigger] removed_events@[i].block_number,
        (exists|i: int| 0 <= i < added_events@.len() && earliest == #[trigger] added_events@[i].block_number)
            || (exists|i: int| 0 <= i < removed_events@.len() && earliest == #[trigger] removed_events@[i].block_number),
{
    let earliest = if added_events.len() == 0 {
        earliest_block_number_of(removed_events)
    } else if removed_events.len() == 0 {
        earliest_block_number_of(added_events)
    } else {
        let a = earliest_block_number_of(added_events);
        let r = earliest_block_number_of(removed_events);
        if a <= r { a } else { r }
    };
    proof {
        let av = events_view(added_events@);
        let rv = events_view(removed_events@);
        lemma_earliest_event_block_is_least(av, rv);
        assert forall|i: int| 0 <= i < added_events@.len() implies earliest <= #[trigger] added_events@[i].block_number by {
            assert(av[i].block_number == added_events@[i].block_number);
        }
        assert forall|i: int| 0 <= i < removed_events@.len() implies earliest <= #[trigger] removed_events@[i].block_number by {
            assert(rv[i].block_number == removed_events@[i].block_number);
        }
        if exists|i: int| 0 <= i < av.len() && earliest == #[trigger] av[i].block_number {
            let i = choose|i: int| 0 <= i < av.len() && earliest == #[trigger] av[i].block_number;
            assert(earliest == added_events@[i].block_number);
        } else {
            let i = choose|i: int| 0 <= i < rv.len() && earliest == #[trigger] rv[i].block_number;
            assert(earliest == removed_events@[i].block_number);
        }
    }
    earliest
}

/// The block a repair starts from: the earlier of the block-hash conflict and the
/// event disagreement, whichever exist.
pub open spec fn earliest_reorg_block(block_reorg: Option<i64>, event_reorg: Option<i64>) -> Option<i64> {
    match (block_reorg, event_reorg) {
        (Some(b), Some(e)) => Some(if b <= e { b } else { e }),
        (Some(b), None) => Some(b),
        (None, Some(e)) => Some(e),
        (None, None) => None,
    }
}

/// How to discard what a reorg invalidated.
pub enum ReorgDeletion {
    /// Delete every event of the chain from this block on (the block hashes conflicted).
    FromBlockNumber(i64),
    /// Delete exactly these events (only the events disagreed).
    EventIds(Vec<u128>),
}

/// A repair of a reorged chain: record the reorged block, discard what it
/// invalidated, then store the provider's added events.
pub struct ReorgRepair {
    pub reorged_block_number: i64,
    pub deletion: ReorgDeletion,
    pub events_to_create: Vec<Event>,
}

/// The ids of a list of events.
pub open spec fn event_ids(events: Seq<EventModel>) -> Seq<u128> {
    events.map_values(|e: EventModel| e.id)
}

/// Plans the repair of a chain after comparing blocks and events: none when neither
/// the block hashes nor the events disagree; otherwise from the earliest
/// disagreement, deleting from that block when the block hashes conflicted and
/// only the removed events otherwise, and creating the added events.
pub fn plan_chain_reorg(
    block_reorg_number: Option<i64>,
    added_and_removed_events: Option<(Vec<Event>, Vec<Event>)>,
) -> (plan: Option<ReorgRepair>)
    requires
        added_and_removed_events matches Some((a, r)) ==> a@.len() > 0 || r@.len() > 0,
    ensures
        ({
            let event_reorg = match added_and_removed_events {
                Some((a, r)) => Some(earliest_event_block(events_view(a@), events_view(r@)) as i64),
                None => None,
            };
            match plan {
                None => earliest_reorg_block(block_reorg_number, event_reorg) is None,
                Some(repair) => {
                    &&& earliest_reorg_block(block_reorg_number, event_reorg) == Some(
                        repair.reorged_block_number,
                    )
                    &&& match block_reorg_number {
                        Some(_) => repair.deletion == ReorgDeletion::FromBlockNumber(
                            repair.reorged_block_number,
                        ),
                        None => repair.deletion matches ReorgDeletion::EventIds(ids) && ids@
                            == event_ids(events_view((added_and_removed_events->0).1@)),
                    }
                    &&& events_view(repair.events_to_create@) == match added_and_removed_events {
                        Some((a, _)) => events_view(a@),
                        None => Seq::empty(),
                    }
                },
            }
        }),
        plan matches Some(repair) ==> (block_reorg_number matches Some(b) ==> repair.reorged_block_number <= b),
        plan matches Some(repair) ==> (added_and_removed_events matches Some((a, r)) ==> (forall|k: int|
            0 <= k < a@.len() ==> repair.reorged_block_number <= #[trigger] a@[k].block_number) && (forall|k: int|
            0 <= k < r@.len() ==> repair.reorged_block_number <= #[trigger] r@[k].block_number)),
        plan matches Some(repair) ==> (block_reorg_number is None ==> (added_and_removed_events matches Some((a, r)) && (
            (exists|k: int| 0 <= k < a@.len() && repair.reorged_block_number == #[trigger] a@[k].block_number)
            || (exists|k: int| 0 <= k < r@.len() && repair.reorged_block_number == #[trigger] r@[k].block_number)))),
{
    let event_reorg = match &added_and_removed_events {
        Some((added, removed)) => Some(get_earliest_block_number(added.as_slice(), removed.as_slice())),
        None => None,
    };
    let earliest = match (block_reorg_number, event_reorg) {
        (Some(b), Some(e)) => if b <= e { b } else { e },
        (Some(b), None) => b,
        (None, Some(e)) => e,
        (None, None) => return None,
    };
    let (added, removed) = match added_and_removed_events {
        Some(pair) => pair,
        None => (Vec::new(), Vec::new()),
    };
    let deletion = match block_reorg_number {
        Some(_) => ReorgDeletion::FromBlockNumber(earliest),
        None => {
            let mut ids: Vec<u128> = Vec::new();
            let mut i: usize = 0;
            while i < removed.len()
                invariant
                    i <= removed@.len(),
                    ids@ == event_ids(events_view(removed@)).take(i as int),
                decreases removed.len() - i,
            {
                ids.push(removed[i].id);
                i = i + 1;
                assert(ids@ == event_ids(events_view(removed@)).take(i as int));
            }
            assert(event_ids(events_view(removed@)).take(removed@.len() as int) == event_ids(
                events_view(removed@),
            ));
            ReorgDeletion::EventIds(ids)
        },
    };
    Some(ReorgRepair { reorged_block_number: earliest, deletion, events_to_create: added })
}

} // verus!

verus! {

/// Nothing of `xs` is missing from `ys` exactly when every event of `xs` occurs in `ys`.
proof fn lemma_nothing_missing(xs: Seq<EventModel>, ys: Seq<EventModel>)
    ensures
        events_missing_from(xs, ys).len() == 0 <==> forall|e: EventModel| xs.contains(e) ==> ys.contains(e),
    decreases xs.len(),
{
    if xs.len() > 0 {
        lemma_nothing_missing(xs.drop_last(), ys);
        if events_missing_from(xs, ys).len() == 0 {
            assert forall|e: EventModel| xs.contains(e) implies ys.contains(e) by {
                let k = choose|k: int| 0 <= k < xs.len() && xs[k] == e;
                if k < xs.len() - 1 {
                    assert(xs.drop_last()[k] == e);
                    assert(xs.drop_last().contains(e));
                }
            }
        } else if forall|e: EventModel| xs.contains(e) ==> ys.contains(e) {
            assert(xs.contains(xs.last()) && ys.contains(xs.last())) by {
                assert(xs[xs.len() - 1] == xs.last());
            }
            assert forall|e: EventModel| xs.drop_last().contains(e) implies ys.contains(e) by {
                let k = choose|k: int| 0 <= k < xs.drop_last().len() && xs.drop_last()[k] == e;
                assert(xs[k] == e);
            }
        }
    }
}

/// No reorg is reported exactly when the provider reports the same events as were
/// ingested (the same events, each either way).
pub proof fn lemma_no_reorg_iff_same_events(already_ingested: Seq<EventModel>, provider: Seq<EventModel>)
    ensures
        added_and_removed(already_ingested, provider) is None <==> forall|e: EventModel|
            #[trigger] already_ingested.contains(e) <==> provider.contains(e),
{
    lemma_nothing_missing(provider, already_ingested);
    lemma_nothing_missing(already_ingested, provider);
}

} // verus!

verus! {

/// How many blocks behind the current block an event must be before it counts as
/// confirmed; the width of the window in which reorgs are repaired.
#[derive(Clone, Copy, Debug)]
pub struct MinConfirmationCount {
    pub value: u64,
}

impl MinConfirmationCount {
    /// A confirmation count of `value` blocks.
    pub fn new(value: u64) -> (count: Self)
        ensures
            count.value == value,
    {
        Self { value }
    }

    /// The count as a number of blocks.
    pub fn as_u64(&self) -> (value: u64)
        ensures
            value == self.value,
    {
        self.value
    }

    /// `block_number` moved back by the count, but never below `start_block_number`
    /// (nor below zero).
    pub open spec fn deducted(self, block_number: u64, start_block_number: u64) -> u64 {
        let back: int = if block_number < self.value { 0 } else { block_number - self.value };
        if back < start_block_number { start_block_number } else { back as u64 }
    }

    /// Whether `next_block_number` lies within the count of `current_block_number`
    /// (or past it): the blocks that may still be reorganized.
    pub open spec fn in_window(self, next_block_number: u64, current_block_number: u64) -> bool {
        next_block_number + self.value >= current_block_number
    }

    /// The block a confirmation run restarts from (see [`MinConfirmationCount::deducted`]).
    pub fn deduct_from(&self, block_number: u64, start_block_number: u64) -> (from: u64)
        ensures
            from == self.deducted(block_number, start_block_number),
    {
        let back = block_number.saturating_sub(self.value);
        if back < start_block_number { start_block_number } else { back }
    }

    /// Whether the next block to ingest is inside the confirmation window (see
    /// [`MinConfirmationCount::in_window`]).
    pub fn is_in_confirmation_window(&self, next_block_number: u64, current_block_number: u64) -> (inside: bool)
        ensures
            inside == self.in_window(next_block_number, current_block_number),
    {
        next_block_number >= current_block_number.saturating_sub(self.value)
    }
}

/// Which ingestion run builds filters: the main run, or the confirmation run that
/// re-reads the last blocks to catch reorgs.
#[derive(Clone, Copy, Debug)]
pub enum Execution {
    Main,
    Confirmation(MinConfirmationCount),
}

} // verus!
