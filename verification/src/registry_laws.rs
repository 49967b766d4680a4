//! Laws of the fan-out: one write per consumer, and who is left afterwards.

use vstd::prelude::*;
use vstd::seq_lib::{to_multiset_contains, to_multiset_insert, to_multiset_remove, to_multiset_update};
use crate::registry::{evict, FanoutState};

verus! {

/// The fan-out after a run of writes, of which `outcomes` says one by one
/// whether the target took the whole frame.
pub open spec fn fan_out<H>(start: FanoutState<H>, outcomes: Seq<bool>) -> FanoutState<H>
    decreases outcomes.len(),
{
    if outcomes.len() == 0 {
        start
    } else {
        fan_out(start.settle(outcomes.first()), outcomes.drop_first())
    }
}

/// The consumers that a run of writes goes to, one by one.
pub open spec fn targets<H>(start: FanoutState<H>, outcomes: Seq<bool>) -> Seq<H>
    decreases outcomes.len(),
{
    if outcomes.len() == 0 || start.target() is None {
        Seq::empty()
    } else {
        seq![start.target()->0] + targets(start.settle(outcomes.first()), outcomes.drop_first())
    }
}

/// The consumers that a run of writes costs the registry, one by one.
pub open spec fn evictions<H>(start: FanoutState<H>, outcomes: Seq<bool>) -> Seq<H>
    decreases outcomes.len(),
{
    if outcomes.len() == 0 {
        Seq::empty()
    } else {
        let rest = evictions(start.settle(outcomes.first()), outcomes.drop_first());
        match start.evicted(outcomes.first()) {
            Some(handle) => seq![handle] + rest,
            None => rest,
        }
    }
}

/// Those of `items` whose flag, at the same place in `flags`, is `flag`.
pub open spec fn chosen<H>(items: Seq<H>, flags: Seq<bool>, flag: bool) -> Seq<H>
    decreases items.len(),
{
    if items.len() == 0 || flags.len() == 0 {
        Seq::empty()
    } else {
        let rest = chosen(items.drop_first(), flags.drop_first(), flag);
        if flags.first() == flag {
            seq![items.first()] + rest
        } else {
            rest
        }
    }
}

/// A write never touches the consumers that have taken the frame already:
/// they stay registered, each in its place.
pub proof fn lemma_settle_keeps_delivered<H>(state: FanoutState<H>, delivered: bool)
    requires
        state.cursor <= state.handles.len(),
    ensures
        state.settle(delivered).handles.take(state.cursor as int) == state.handles.take(
            state.cursor as int,
        ),
        state.settle(delivered).cursor >= state.cursor,
        state.settle(delivered).cursor <= state.settle(delivered).handles.len(),
{
    assert(state.settle(delivered).handles.take(state.cursor as int) =~= state.handles.take(
        state.cursor as int,
    ));
}

/// Every write brings the fan-out one consumer closer to its end: either the
/// target has taken the frame, or it has left the registry.
pub proof fn lemma_settle_makes_progress<H>(state: FanoutState<H>, delivered: bool)
    requires
        state.target() is Some,
    ensures
        ({
            let next = state.settle(delivered);
            next.handles.len() - next.cursor == state.handles.len() - state.cursor - 1
        }),
{
}

/// An eviction takes the target, and nothing else, from the consumers that
/// are still to be written to.
proof fn lemma_evict_takes_target<H>(handles: Seq<H>, cursor: int)
    requires
        0 <= cursor < handles.len(),
    ensures
        evict(handles, cursor).skip(cursor).to_multiset().insert(handles[cursor]) == handles.skip(
            cursor,
        ).to_multiset(),
{
    broadcast use vstd::multiset::group_multiset_axioms;

    let tail = handles.skip(cursor);
    let moved = tail.update(0, tail.last());
    assert(evict(handles, cursor).skip(cursor) =~= moved.remove(moved.len() - 1));
    to_multiset_update(tail, 0, tail.last());
    to_multiset_remove(moved, moved.len() - 1);
    assert(moved[moved.len() - 1] == tail.last());
    assert(tail.to_multiset().count(tail[0]) > 0) by {
        to_multiset_contains(tail, tail[0]);
    }
    assert(evict(handles, cursor).skip(cursor).to_multiset().insert(handles[cursor])
        =~= tail.to_multiset());
}

/// A fan-out that is handed fewer outcomes than consumers are left is not at
/// its end; one that is handed as many is.
pub proof fn lemma_fan_out_length<H>(start: FanoutState<H>, outcomes: Seq<bool>)
    requires
        start.cursor <= start.handles.len(),
        outcomes.len() <= start.handles.len() - start.cursor,
    ensures
        ({
            let end = fan_out(start, outcomes);
            &&& end.cursor <= end.handles.len()
            &&& end.handles.len() - end.cursor == start.handles.len() - start.cursor
                - outcomes.len()
            &&& end.target() is None <==> outcomes.len() == start.handles.len() - start.cursor
        }),
    decreases outcomes.len(),
{
    if outcomes.len() > 0 {
        lemma_fan_out_length(start.settle(outcomes.first()), outcomes.drop_first());
    }
}

/// A fan-out that goes on from any point: every consumer that was still to
/// be written to is written to exactly once; those that had taken the frame
/// before stay in place, and behind them stand, in the order of the writes,
/// those that took it now. The others were evicted, in the order of the
/// writes.
pub proof fn lemma_fan_out_from<H>(start: FanoutState<H>, outcomes: Seq<bool>)
    requires
        start.cursor <= start.handles.len(),
        outcomes.len() == start.handles.len() - start.cursor,
    ensures
        ({
            let end = fan_out(start, outcomes);
            let written = targets(start, outcomes);
            &&& end.target() is None
            &&& written.len() == outcomes.len()
            &&& written.to_multiset() == start.handles.skip(start.cursor as int).to_multiset()
            &&& end.handles == start.handles.take(start.cursor as int) + chosen(
                written,
                outcomes,
                true,
            )
            &&& evictions(start, outcomes) == chosen(written, outcomes, false)
        }),
    decreases outcomes.len(),
{
    broadcast use vstd::multiset::group_multiset_axioms;

    let cursor = start.cursor as int;
    if outcomes.len() == 0 {
        assert(start.handles.skip(cursor) =~= Seq::<H>::empty());
        assert(start.handles.take(cursor) =~= start.handles);
        assert(start.handles + Seq::<H>::empty() =~= start.handles);
    } else {
        let target = start.handles[cursor];
        let next = start.settle(outcomes.first());
        let later = outcomes.drop_first();
        lemma_fan_out_from(next, later);
        let written = targets(start, outcomes);
        let written_later = targets(next, later);
        assert(written == seq![target] + written_later);
        assert(written.drop_first() =~= written_later);
        assert(written =~= written_later.insert(0, target));
        to_multiset_insert(written_later, 0, target);
        if outcomes.first() {
            let unwritten = start.handles.skip(cursor + 1);
            assert(start.handles.skip(cursor) =~= unwritten.insert(0, target));
            to_multiset_insert(unwritten, 0, target);
            assert(start.handles.take(cursor + 1) =~= start.handles.take(cursor) + seq![target]);
            assert(fan_out(start, outcomes).handles =~= start.handles.take(cursor) + chosen(
                written,
                outcomes,
                true,
            ));
        } else {
            lemma_evict_takes_target(start.handles, cursor);
            assert(next.handles.take(cursor) =~= start.handles.take(cursor));
            assert(written.to_multiset() =~= start.handles.skip(cursor).to_multiset());
        }
    }
}

/// A whole fan-out: with one outcome for each registered consumer, every
/// consumer is written to exactly once. Registered afterwards are exactly
/// the consumers that took the whole frame, in the order of the writes;
/// evicted are exactly the others. Not before the last outcome is the
/// fan-out at its end.
pub proof fn lemma_fan_out_reaches_every_consumer<H>(handles: Seq<H>, outcomes: Seq<bool>)
    requires
        outcomes.len() == handles.len(),
    ensures
        ({
            let start = FanoutState { handles, cursor: 0 };
            let written = targets(start, outcomes);
            &&& fan_out(start, outcomes).target() is None
            &&& written.len() == handles.len()
            &&& written.to_multiset() == handles.to_multiset()
            &&& fan_out(start, outcomes).handles == chosen(written, outcomes, true)
            &&& evictions(start, outcomes) == chosen(written, outcomes, false)
            &&& forall|k: int|
                0 <= k < outcomes.len() ==> (#[trigger] fan_out(
                    start,
                    outcomes.take(k),
                )).target() is Some
        }),
{
    let start = FanoutState { handles, cursor: 0 };
    lemma_fan_out_from(start, outcomes);
    assert(handles.skip(0) =~= handles);
    assert(handles.take(0) + chosen(targets(start, outcomes), outcomes, true) =~= chosen(
        targets(start, outcomes),
        outcomes,
        true,
    ));
    assert forall|k: int| 0 <= k < outcomes.len() implies (#[trigger] fan_out(
        start,
        outcomes.take(k),
    )).target() is Some by {
        lemma_fan_out_length(start, outcomes.take(k));
    }
}

} // verus!
