//! What a relay does next.
use vstd::prelude::*;

use crate::relay::{
    awaits, expects, handed, is_io, is_io_event, last_action, next_relay, orderly, passed, ran,
    received_data, relay_run, requests, stop_checks, taken_data, RelayAction, RelayEvent,
    RelayState, RelayView,
};

verus! {

/// What makes a relay stop: a write that failed before it was told to stop, the end of
/// the server's data, a failed read, data that the session no longer takes, and, once it
/// was told to stop, that no client data is left. Nothing else does.
pub proof fn law_what_stops_a_relay(state: RelayState, event: RelayEvent)
    requires
        expects(state, event),
    ensures
        ({
            let (next, action) = next_relay(state, event);
            &&& action is Stop <==> next == RelayState::Stopped
            &&& action is Stop <==> {
                ||| state == RelayState::Writing && event == (RelayEvent::Written { ok: false })
                ||| state == RelayState::Draining && event == (RelayEvent::DataTaken { data: None })
                ||| event matches RelayEvent::Received { bytes } && bytes@.len() == 0
                ||| event is ReadFailed
                ||| event == (RelayEvent::Handed { ok: false })
            }
        }),
{
}

/// Client data that is taken is written, that very data, and flushed unless the relay was
/// told to stop. Data from the server is handed to the session, that very data. Nothing
/// is written or handed over on any other event.
pub proof fn law_data_is_passed_unchanged(state: RelayState, event: RelayEvent)
    requires
        expects(state, event),
    ensures
        ({
            let (next, action) = next_relay(state, event);
            &&& event matches RelayEvent::DataTaken { data: Some(d) } ==> action
                == (RelayAction::Write { data: d, flush: state == RelayState::TakingData })
            &&& action is Write ==> event is DataTaken
            &&& event matches RelayEvent::Received { bytes } ==> bytes@.len() > 0 ==> action
                == (RelayAction::Hand { data: bytes })
            &&& action is Hand ==> event is Received
        }),
{
}

/// The order of a round: a signal to stop is looked for first; then client data is taken
/// and written until there is none; then the server is read, and what came is handed
/// over; and the next round begins. A relay that is told to stop takes and writes until
/// there is no client data left.
pub proof fn law_order_of_a_round(state: RelayState, event: RelayEvent)
    requires
        expects(state, event),
    ensures
        event is CloseChecked ==> next_relay(state, event).1 is TakeData,
        event == (RelayEvent::CloseChecked { signalled: false }) ==> next_relay(state, event).0
            == RelayState::TakingData,
        event == (RelayEvent::CloseChecked { signalled: true }) ==> next_relay(state, event).0
            == RelayState::Draining,
        state == RelayState::TakingData && event == (RelayEvent::DataTaken { data: None })
            ==> next_relay(state, event) == (RelayState::Reading, RelayAction::Read),
        state == RelayState::Writing && event == (RelayEvent::Written { ok: true }) ==> next_relay(
            state,
            event,
        ) == (RelayState::TakingData, RelayAction::TakeData),
        state == RelayState::DrainWriting ==> next_relay(state, event) == (
            RelayState::Draining,
            RelayAction::TakeData,
        ),
        event is ReadIdle ==> next_relay(state, event) == (
            RelayState::CheckingClose,
            RelayAction::CheckClose,
        ),
        event == (RelayEvent::Handed { ok: true }) ==> next_relay(state, event) == (
            RelayState::CheckingClose,
            RelayAction::CheckClose,
        ),
{
}

/// What the counts of a run of events say of one event more: only client data that is
/// there is taken, each look for client data counts, each look for a signal is kept with
/// its answer, and only what the server sent is received.
pub proof fn law_counts_of_a_run(events: Seq<RelayEvent>, e: RelayEvent)
    ensures
        taken_data(Seq::empty()).len() == 0,
        requests(Seq::empty()) == 0,
        stop_checks(Seq::empty()).len() == 0,
        received_data(Seq::empty()).len() == 0,
        taken_data(events.push(e)) == (match e {
            RelayEvent::DataTaken { data: Some(d) } => taken_data(events).push(d@),
            _ => taken_data(events),
        }),
        requests(events.push(e)) == requests(events) + (if e is DataTaken {
            1int
        } else {
            0int
        }),
        stop_checks(events.push(e)) == (match e {
            RelayEvent::CloseChecked { signalled } => stop_checks(events).push(signalled),
            _ => stop_checks(events),
        }),
        e matches RelayEvent::Received { bytes } ==> (bytes@.len() > 0 ==> received_data(
            events.push(e),
        ) == received_data(events).push(bytes@)),
        !(e is Received) ==> received_data(events.push(e)) == received_data(events),
{
    assert(events.push(e).drop_last() =~= events);
}

/// What is left to the caller: to write, to read and to stop, and what comes of writing
/// and reading.
pub proof fn law_the_callers_part(action: RelayAction, event: RelayEvent)
    ensures
        is_io(action) <==> !(action is CheckClose || action is TakeData || action is Hand),
        is_io_event(event) <==> !(event is CloseChecked || event is DataTaken || event is Handed),
{
}

/// Which event can come while the relay waits for what: an answer to each question, and
/// nothing once it has stopped.
pub proof fn law_expected_events(event: RelayEvent)
    ensures
        expects(RelayState::CheckingClose, event) <==> event is CloseChecked,
        expects(RelayState::TakingData, event) <==> event is DataTaken,
        expects(RelayState::Draining, event) <==> event is DataTaken,
        expects(RelayState::Writing, event) <==> event is Written,
        expects(RelayState::DrainWriting, event) <==> event is Written,
        expects(RelayState::Reading, event) <==> event is Received || event is ReadIdle
            || event is ReadFailed,
        expects(RelayState::Handing, event) <==> event is Handed,
        !expects(RelayState::Stopped, event),
{
}

/// One event more in a run leads on from where the run had come to, and is handed over or
/// passed as the step says.
pub proof fn law_run_goes_on(state: RelayState, events: Seq<RelayEvent>, e: RelayEvent)
    ensures
        relay_run(state, Seq::empty()) == state,
        relay_run(state, events.push(e)) == next_relay(relay_run(state, events), e).0,
        last_action(state, Seq::empty()) is CheckClose,
        last_action(state, events.push(e)) == next_relay(relay_run(state, events), e).1,
        orderly(state, Seq::empty()),
        orderly(state, events.push(e)) <==> orderly(state, events) && expects(
            relay_run(state, events),
            e,
        ),
        handed(state, Seq::empty()).len() == 0,
        handed(state, events.push(e)) == (match next_relay(relay_run(state, events), e).1 {
            RelayAction::Hand { data } => handed(state, events).push(data@),
            _ => handed(state, events),
        }),
        passed(state, Seq::empty()).len() == 0,
        e == (RelayEvent::Handed { ok: true }) ==> (last_action(state, events) matches
            RelayAction::Hand { data } ==> passed(state, events.push(e)) == passed(
            state,
            events,
        ).push(data@)),
        e != (RelayEvent::Handed { ok: true }) ==> passed(state, events.push(e)) == passed(
            state,
            events,
        ),
{
    assert(events.push(e).drop_last() =~= events);
}

/// What a run says of a relay, clause by clause.
pub proof fn law_ran(
    before: RelayView,
    after: RelayView,
    action: RelayAction,
    events: Seq<RelayEvent>,
    given: Seq<RelayEvent>,
    i: int,
)
    requires
        ran(before, after, action, events, given),
    ensures
        orderly(before.state, events),
        after.state == relay_run(before.state, events),
        action == last_action(before.state, events),
        after.taken == before.taken + taken_data(events),
        after.offered == before.offered + handed(before.state, events),
        after.accepted == before.accepted + passed(before.state, events),
        after.asked == before.asked + requests(events),
        after.stop_answers == before.stop_answers + stop_checks(events),
        given.len() <= events.len(),
        0 <= i < given.len() ==> events[i] == given[i],
        given.len() <= i < events.len() ==> events[i] is CloseChecked || events[i] is DataTaken
            || events[i] is Handed,
{
    if 0 <= i < given.len() {
        assert(events.take(given.len() as int)[i] == events[i]);
    }
    if given.len() <= i < events.len() {
        assert(!is_io_event(events[i]));
    }
}

/// The state in which the relay waits for what comes of each action.
pub proof fn law_awaited_states(state: RelayState, action: RelayAction)
    requires
        awaits(state, action),
    ensures
        action is CheckClose <==> state == RelayState::CheckingClose,
        action is TakeData <==> state == RelayState::TakingData || state == RelayState::Draining,
        action is Write <==> state == RelayState::Writing || state == RelayState::DrainWriting,
        action is Read <==> state == RelayState::Reading,
        action is Hand <==> state == RelayState::Handing,
        action is Stop <==> state == RelayState::Stopped,
{
}

} // verus!
