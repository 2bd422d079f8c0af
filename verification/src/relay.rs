//! The relay of a session: it carries data between the session's channels and the
//! connection to the SOCKS server. The steps are decided here, and what concerns the
//! channels is done here; the caller reads and writes, and reports what came of it.
use crossbeam::channel::{Receiver, Sender};
use vstd::prelude::*;

use crate::channel::{
    accepted, asked, hand_over, in_step, joined, offered, receives_in_order, sends_in_order,
    signal_joined, stop_answers, take_one, take_signal, taken,
};
use crate::session::{RelayEnds, TcpSession};

verus! {

/// What the relay waits for.
#[derive(Debug, Clone, Copy, PartialEq, Eq, Structural)]
pub enum RelayState {
    /// Whether it was told to stop.
    CheckingClose,
    /// The next piece of client data.
    TakingData,
    /// The end of a write.
    Writing,
    /// The next piece of client data that is left, after it was told to stop.
    Draining,
    /// The end of a write, after it was told to stop.
    DrainWriting,
    /// Data from the server.
    Reading,
    /// The end of the hand-over of data to the session.
    Handing,
    /// Nothing: it has stopped.
    Stopped,
}

/// What came of an action.
#[derive(Debug)]
pub enum RelayEvent {
    /// Whether there was a signal to stop.
    CloseChecked { signalled: bool },
    /// The next piece of client data, if there was one.
    DataTaken { data: Option<Vec<u8>> },
    /// Whether the write succeeded.
    Written { ok: bool },
    /// The server sent this; nothing, when it closed the connection.
    Received { bytes: Vec<u8> },
    /// The read timed out.
    ReadIdle,
    /// The read failed.
    ReadFailed,
    /// Whether the session took the data.
    Handed { ok: bool },
}

/// What is to be done next.
#[derive(Debug)]
pub enum RelayAction {
    /// See whether there is a signal to stop.
    CheckClose,
    /// Take the next piece of client data, if there is one.
    TakeData,
    /// Write all of `data` to the server and, if `flush`, flush it.
    Write { data: Vec<u8>, flush: bool },
    /// Read from the server, for a short time.
    Read,
    /// Hand `data` to the session.
    Hand { data: Vec<u8> },
    /// Stop.
    Stop,
}

/// The events that can come while the relay is in `state`.
pub open spec fn expects(state: RelayState, event: RelayEvent) -> bool {
    match state {
        RelayState::CheckingClose => event is CloseChecked,
        RelayState::TakingData => event is DataTaken,
        RelayState::Writing => event is Written,
        RelayState::Draining => event is DataTaken,
        RelayState::DrainWriting => event is Written,
        RelayState::Reading => event is Received || event is ReadIdle || event is ReadFailed,
        RelayState::Handing => event is Handed,
        RelayState::Stopped => false,
    }
}

/// The state in which the relay waits for what comes of `action`.
pub open spec fn awaits(state: RelayState, action: RelayAction) -> bool {
    match action {
        RelayAction::CheckClose => state == RelayState::CheckingClose,
        RelayAction::TakeData => state == RelayState::TakingData || state == RelayState::Draining,
        RelayAction::Write { flush, .. } => state == (if flush {
            RelayState::Writing
        } else {
            RelayState::DrainWriting
        }),
        RelayAction::Read => state == RelayState::Reading,
        RelayAction::Hand { .. } => state == RelayState::Handing,
        RelayAction::Stop => state == RelayState::Stopped,
    }
}

/// The next state and action of a relay.
pub open spec fn next_relay(state: RelayState, event: RelayEvent) -> (RelayState, RelayAction) {
    match (state, event) {
        (RelayState::CheckingClose, RelayEvent::CloseChecked { signalled: true }) => (
            RelayState::Draining,
            RelayAction::TakeData,
        ),
        (RelayState::CheckingClose, _) => (RelayState::TakingData, RelayAction::TakeData),
        (RelayState::Draining, RelayEvent::DataTaken { data: Some(data) }) => (
            RelayState::DrainWriting,
            RelayAction::Write { data, flush: false },
        ),
        (RelayState::DrainWriting, _) => (RelayState::Draining, RelayAction::TakeData),
        (RelayState::TakingData, RelayEvent::DataTaken { data: Some(data) }) => (
            RelayState::Writing,
            RelayAction::Write { data, flush: true },
        ),
        (RelayState::TakingData, _) => (RelayState::Reading, RelayAction::Read),
        (RelayState::Writing, RelayEvent::Written { ok: true }) => (
            RelayState::TakingData,
            RelayAction::TakeData,
        ),
        (RelayState::Reading, RelayEvent::Received { bytes }) => if bytes@.len() > 0 {
            (RelayState::Handing, RelayAction::Hand { data: bytes })
        } else {
            (RelayState::Stopped, RelayAction::Stop)
        },
        (RelayState::Reading, RelayEvent::ReadIdle) => (
            RelayState::CheckingClose,
            RelayAction::CheckClose,
        ),
        (RelayState::Handing, RelayEvent::Handed { ok: true }) => (
            RelayState::CheckingClose,
            RelayAction::CheckClose,
        ),
        _ => (RelayState::Stopped, RelayAction::Stop),
    }
}

/// The first state and action of a relay.
pub fn relay_start() -> (r: (RelayState, RelayAction))
    ensures
        r == (RelayState::CheckingClose, RelayAction::CheckClose),
{
    (RelayState::CheckingClose, RelayAction::CheckClose)
}

/// The next state and action after `event`.
pub fn relay_step(state: RelayState, event: RelayEvent) -> (r: (RelayState, RelayAction))
    requires
        expects(state, event),
    ensures
        r == next_relay(state, event),
        awaits(r.0, r.1),
{
    match state {
        RelayState::CheckingClose => match event {
            RelayEvent::CloseChecked { signalled } => if signalled {
                (RelayState::Draining, RelayAction::TakeData)
            } else {
                (RelayState::TakingData, RelayAction::TakeData)
            },
            _ => (RelayState::Stopped, RelayAction::Stop),
        },
        RelayState::TakingData => match event {
            RelayEvent::DataTaken { data: Some(data) } => (
                RelayState::Writing,
                RelayAction::Write { data, flush: true },
            ),
            _ => (RelayState::Reading, RelayAction::Read),
        },
        RelayState::Writing => match event {
            RelayEvent::Written { ok } => if ok {
                (RelayState::TakingData, RelayAction::TakeData)
            } else {
                (RelayState::Stopped, RelayAction::Stop)
            },
            _ => (RelayState::Stopped, RelayAction::Stop),
        },
        RelayState::Draining => match event {
            RelayEvent::DataTaken { data: Some(data) } => (
                RelayState::DrainWriting,
                RelayAction::Write { data, flush: false },
            ),
            _ => (RelayState::Stopped, RelayAction::Stop),
        },
        RelayState::DrainWriting => (RelayState::Draining, RelayAction::TakeData),
        RelayState::Reading => match event {
            RelayEvent::Received { bytes } => if bytes.len() > 0 {
                (RelayState::Handing, RelayAction::Hand { data: bytes })
            } else {
                (RelayState::Stopped, RelayAction::Stop)
            },
            RelayEvent::ReadIdle => (RelayState::CheckingClose, RelayAction::CheckClose),
            _ => (RelayState::Stopped, RelayAction::Stop),
        },
        RelayState::Handing => match event {
            RelayEvent::Handed { ok } => if ok {
                (RelayState::CheckingClose, RelayAction::CheckClose)
            } else {
                (RelayState::Stopped, RelayAction::Stop)
            },
            _ => (RelayState::Stopped, RelayAction::Stop),
        },
        RelayState::Stopped => (RelayState::Stopped, RelayAction::Stop),
    }
}

/// The state after a run of events.
pub open spec fn relay_run(state: RelayState, events: Seq<RelayEvent>) -> RelayState
    decreases events.len(),
{
    if events.len() == 0 {
        state
    } else {
        next_relay(relay_run(state, events.drop_last()), events.last()).0
    }
}

/// The data that the relay writes to the server in a run of events.
pub open spec fn written(state: RelayState, events: Seq<RelayEvent>) -> Seq<Seq<u8>>
    decreases events.len(),
{
    if events.len() == 0 {
        Seq::empty()
    } else {
        let before = relay_run(state, events.drop_last());
        match next_relay(before, events.last()).1 {
            RelayAction::Write { data, .. } => written(state, events.drop_last()).push(data@),
            _ => written(state, events.drop_last()),
        }
    }
}

/// The client data that the relay takes in a run of events.
pub open spec fn taken_data(events: Seq<RelayEvent>) -> Seq<Seq<u8>>
    decreases events.len(),
{
    if events.len() == 0 {
        Seq::empty()
    } else {
        match events.last() {
            RelayEvent::DataTaken { data: Some(data) } => taken_data(events.drop_last()).push(data@),
            _ => taken_data(events.drop_last()),
        }
    }
}

/// The data that the relay hands to the session in a run of events.
pub open spec fn handed(state: RelayState, events: Seq<RelayEvent>) -> Seq<Seq<u8>>
    decreases events.len(),
{
    if events.len() == 0 {
        Seq::empty()
    } else {
        let before = relay_run(state, events.drop_last());
        match next_relay(before, events.last()).1 {
            RelayAction::Hand { data } => handed(state, events.drop_last()).push(data@),
            _ => handed(state, events.drop_last()),
        }
    }
}

/// What the server sends in a run of events, as far as it is not the end.
pub open spec fn received_data(events: Seq<RelayEvent>) -> Seq<Seq<u8>>
    decreases events.len(),
{
    if events.len() == 0 {
        Seq::empty()
    } else {
        match events.last() {
            RelayEvent::Received { bytes } => if bytes@.len() > 0 {
                received_data(events.drop_last()).push(bytes@)
            } else {
                received_data(events.drop_last())
            },
            _ => received_data(events.drop_last()),
        }
    }
}

/// Every event of a run comes when it is expected.
pub open spec fn orderly(state: RelayState, events: Seq<RelayEvent>) -> bool
    decreases events.len(),
{
    events.len() > 0 ==> orderly(state, events.drop_last()) && expects(
        relay_run(state, events.drop_last()),
        events.last(),
    )
}

/// The relay writes exactly the client data that it takes, piece by piece and in
/// order, and hands the session exactly what the server sends.
pub proof fn lemma_relay_is_faithful(state: RelayState, events: Seq<RelayEvent>)
    requires
        orderly(state, events),
    ensures
        written(state, events) == taken_data(events),
        handed(state, events) == received_data(events),
    decreases events.len(),
{
    if events.len() > 0 {
        lemma_relay_is_faithful(state, events.drop_last());
    }
}

/// Once told to stop, the relay does nothing but write out the client data that is
/// left, and it stops when there is none.
pub proof fn lemma_drain_only(state: RelayState, event: RelayEvent)
    requires
        state == RelayState::Draining || state == RelayState::DrainWriting,
        expects(state, event),
    ensures
        ({
            let (next, action) = next_relay(state, event);
            &&& next == RelayState::Draining || next == RelayState::DrainWriting || next
                == RelayState::Stopped
            &&& action is TakeData || action is Write || action is Stop
            &&& action is Stop <==> event == RelayEvent::DataTaken { data: None }
        }),
{
}

/// The action that follows a run of events.
pub open spec fn last_action(state: RelayState, events: Seq<RelayEvent>) -> RelayAction {
    if events.len() == 0 {
        RelayAction::CheckClose
    } else {
        next_relay(relay_run(state, events.drop_last()), events.last()).1
    }
}

/// The data that the channel to the session takes in a run of events.
pub open spec fn passed(state: RelayState, events: Seq<RelayEvent>) -> Seq<Seq<u8>>
    decreases events.len(),
{
    if events.len() == 0 {
        Seq::empty()
    } else {
        match (last_action(state, events.drop_last()), events.last()) {
            (RelayAction::Hand { data }, RelayEvent::Handed { ok: true }) => passed(
                state,
                events.drop_last(),
            ).push(data@),
            _ => passed(state, events.drop_last()),
        }
    }
}

/// The channel takes all the data that the relay hands to the session, but for the
/// last piece if the relay still waits for it to be taken, or has stopped because it
/// was not.
pub proof fn lemma_all_passed(events: Seq<RelayEvent>)
    requires
        orderly(RelayState::CheckingClose, events),
    ensures
        ({
            let state = RelayState::CheckingClose;
            let all = handed(state, events);
            let end = relay_run(state, events);
            if end == RelayState::Handing || (end == RelayState::Stopped && events.last() == (
            RelayEvent::Handed { ok: false })) {
                all.len() > 0 && passed(state, events) == all.drop_last()
            } else {
                passed(state, events) == all
            }
        }),
    decreases events.len(),
{
    if events.len() > 0 {
        let state = RelayState::CheckingClose;
        let rest = events.drop_last();
        lemma_all_passed(rest);
        lemma_awaited(state, rest);
        let all = handed(state, rest);
        if relay_run(state, rest) == RelayState::Handing {
            assert(all.drop_last().push(all.last()) =~= all);
            assert(last_action(state, rest) matches RelayAction::Hand { data } && data@
                == all.last());
        }
        let now = handed(state, events);
        if relay_run(state, events) == RelayState::Handing {
            assert(now.drop_last() =~= all);
        }
    }
}

/// After an orderly run the relay waits for what comes of its last action.
proof fn lemma_awaited(state: RelayState, events: Seq<RelayEvent>)
    requires
        state == RelayState::CheckingClose,
        orderly(state, events),
    ensures
        awaits(relay_run(state, events), last_action(state, events)),
{
}

/// How often client data is asked for in a run of events.
pub open spec fn requests(events: Seq<RelayEvent>) -> nat
    decreases events.len(),
{
    if events.len() == 0 {
        0
    } else if events.last() is DataTaken {
        requests(events.drop_last()) + 1
    } else {
        requests(events.drop_last())
    }
}

/// The answers to whether there is a signal to stop, in a run of events.
pub open spec fn stop_checks(events: Seq<RelayEvent>) -> Seq<bool>
    decreases events.len(),
{
    if events.len() == 0 {
        Seq::empty()
    } else {
        match events.last() {
            RelayEvent::CloseChecked { signalled } => stop_checks(events.drop_last()).push(
                signalled,
            ),
            _ => stop_checks(events.drop_last()),
        }
    }
}

/// A relay that has found a signal to stop drains what is left or has stopped, and it
/// drains only when it has found one: at its last look.
pub proof fn lemma_signal_is_heeded(events: Seq<RelayEvent>)
    requires
        orderly(RelayState::CheckingClose, events),
    ensures
        ({
            let end = relay_run(RelayState::CheckingClose, events);
            let found = stop_checks(events);
            let draining = end == RelayState::Draining || end == RelayState::DrainWriting;
            &&& draining ==> found.len() > 0 && found.last()
            &&& found.contains(true) ==> draining || end == RelayState::Stopped
        }),
    decreases events.len(),
{
    if events.len() > 0 {
        let rest = events.drop_last();
        lemma_signal_is_heeded(rest);
        let before = stop_checks(rest);
        if let RelayEvent::CloseChecked { signalled } = events.last() {
            let found = before.push(signalled);
            if found.contains(true) && !signalled {
                let i = choose|i: int| 0 <= i < found.len() && found[i];
                assert(before[i]);
                assert(before.contains(true));
            }
        }
    }
}

/// Whether `action` is left to the caller.
pub open spec fn is_io(action: RelayAction) -> bool {
    action is Write || action is Read || action is Stop
}

/// Whether `event` comes from the caller.
pub open spec fn is_io_event(event: RelayEvent) -> bool {
    event is Written || event is Received || event is ReadIdle || event is ReadFailed
}

/// A relay with its ends of the session's channels.
pub struct Relay {
    state: RelayState,
    app_to_proxy: Receiver<Vec<u8>>,
    proxy_to_app: Sender<Vec<u8>>,
    close: Receiver<()>,
}

/// What is known of a relay.
#[verifier::ext_equal]
pub struct RelayView {
    pub state: RelayState,
    /// The client data that it took.
    pub taken: Seq<Seq<u8>>,
    /// The data that it handed to the session.
    pub offered: Seq<Seq<u8>>,
    /// The data that the channel to the session took.
    pub accepted: Seq<Seq<u8>>,
    /// How often the channel from the session was asked for client data.
    pub asked: nat,
    /// What the channel that tells it to stop answered, each time it was asked.
    pub stop_answers: Seq<bool>,
}

impl View for Relay {
    type V = RelayView;

    closed spec fn view(&self) -> RelayView {
        RelayView {
            state: self.state,
            taken: taken(self.app_to_proxy),
            offered: offered(self.proxy_to_app),
            accepted: accepted(self.proxy_to_app),
            asked: asked(self.app_to_proxy),
            stop_answers: stop_answers(self.close),
        }
    }
}

/// What the relay does in a run of events that starts in `before`: `events` comes
/// in order and leads to `after` and `action`; the client data taken, the data handed
/// over and the data passed are those of the events; the channels were asked for client
/// data and for signals as often as the events say, and answered what they say; and all
/// events but the first `given` come from the channels.
pub open spec fn ran(
    before: RelayView,
    after: RelayView,
    action: RelayAction,
    events: Seq<RelayEvent>,
    given: Seq<RelayEvent>,
) -> bool {
    &&& orderly(before.state, events)
    &&& after.state == relay_run(before.state, events)
    &&& action == last_action(before.state, events)
    &&& after.taken == before.taken + taken_data(events)
    &&& after.offered == before.offered + handed(before.state, events)
    &&& after.accepted == before.accepted + passed(before.state, events)
    &&& after.asked == before.asked + requests(events)
    &&& after.stop_answers == before.stop_answers + stop_checks(events)
    &&& given.len() <= events.len()
    &&& events.take(given.len() as int) == given
    &&& forall|i: int|
        given.len() <= i < events.len() ==> !is_io_event(#[trigger] events[i])
}

impl Relay {
    /// The end of the channel that brings client data.
    pub closed spec fn uplink(self) -> Receiver<Vec<u8>> {
        self.app_to_proxy
    }

    /// The end of the channel that takes data to the session.
    pub closed spec fn downlink(self) -> Sender<Vec<u8>> {
        self.proxy_to_app
    }

    /// The end of the channel that tells the relay to stop.
    pub closed spec fn stop_line(self) -> Receiver<()> {
        self.close
    }

    /// No message overtakes another on its way to or from the session.
    pub open spec fn wf(self) -> bool {
        receives_in_order(self.uplink()) && sends_in_order(self.downlink())
    }

    /// The two relays hold the ends of the same channels.
    pub open spec fn same_channels(self, other: Relay) -> bool {
        &&& forall|tx: Sender<Vec<u8>>| #[trigger]
            joined(tx, self.uplink()) == joined(tx, other.uplink())
        &&& forall|rx: Receiver<Vec<u8>>| #[trigger]
            joined(self.downlink(), rx) == joined(other.downlink(), rx)
        &&& forall|tx: Sender<()>| #[trigger]
            signal_joined(tx, self.stop_line()) == signal_joined(tx, other.stop_line())
    }

    /// A relay that has not started, with its ends of the session's channels.
    pub fn new(ends: RelayEnds) -> (r: Relay)
        requires
            ends.unused(),
        ensures
            r@ == (RelayView {
                state: RelayState::CheckingClose,
                taken: Seq::empty(),
                offered: Seq::empty(),
                accepted: Seq::empty(),
                asked: 0,
                stop_answers: Seq::empty(),
            }),
            r.wf(),
            r.uplink() == ends.uplink(),
            r.downlink() == ends.downlink(),
            r.stop_line() == ends.stop_line(),
    {
        let (app_to_proxy, proxy_to_app, close) = ends.channels();
        Relay { state: RelayState::CheckingClose, app_to_proxy, proxy_to_app, close }
    }

    /// Starts the relay: what the caller has to do first.
    pub fn start(&mut self) -> (action: RelayAction)
        requires
            old(self)@.state == RelayState::CheckingClose,
            old(self).wf(),
        ensures
            final(self).wf(),
            final(self).same_channels(*old(self)),
            is_io(action),
            awaits(final(self)@.state, action),
            exists|events: Seq<RelayEvent>| #[trigger]
                ran(old(self)@, final(self)@, action, events, Seq::empty()),
    {
        let (state, action) = relay_start();
        self.state = state;
        let ghost none = Seq::<RelayEvent>::empty();
        assert(self@.taken =~= self@.taken + taken_data(none));
        assert(self@.offered =~= self@.offered + handed(state, none));
        assert(self@.accepted =~= self@.accepted + passed(state, none));
        assert(self@.stop_answers =~= self@.stop_answers + stop_checks(none));
        assert(none.take(0) =~= none);
        self.settle(action, Ghost(self@), Ghost(none), Ghost(none))
    }

    /// Goes on after `event`, which came of the last action: what the caller has to
    /// do next.
    pub fn advance(&mut self, event: RelayEvent) -> (action: RelayAction)
        requires
            is_io_event(event),
            expects(old(self)@.state, event),
            old(self).wf(),
        ensures
            final(self).wf(),
            final(self).same_channels(*old(self)),
            is_io(action),
            awaits(final(self)@.state, action),
            exists|events: Seq<RelayEvent>| #[trigger]
                ran(old(self)@, final(self)@, action, events, seq![event]),
    {
        let ghost before = self@;
        let ghost one = seq![event];
        proof {
            reveal_with_fuel(relay_run, 2);
            reveal_with_fuel(orderly, 2);
            reveal_with_fuel(taken_data, 2);
            reveal_with_fuel(handed, 2);
            assert(one.drop_last() =~= Seq::empty());
            assert(one.take(1) =~= one);
            assert(taken_data(one) =~= Seq::<Seq<u8>>::empty());
            assert(handed(before.state, Seq::empty()) =~= Seq::<Seq<u8>>::empty());
            reveal_with_fuel(passed, 2);
            assert(passed(before.state, one) =~= Seq::<Seq<u8>>::empty());
            reveal_with_fuel(requests, 2);
            reveal_with_fuel(stop_checks, 2);
            assert(stop_checks(one) =~= Seq::<bool>::empty());
        }
        let (state, action) = relay_step(self.state, event);
        self.state = state;
        assert(self@.taken =~= before.taken + taken_data(one));
        assert(self@.accepted =~= before.accepted + passed(before.state, one));
        assert(self@.stop_answers =~= before.stop_answers + stop_checks(one));
        assert(pending(self@.offered, action) =~= before.offered + handed(before.state, one));
        self.settle(action, Ghost(before), Ghost(one), Ghost(one))
    }

    /// Does what concerns the channels, until the next action is the caller's.
    fn settle(
        &mut self,
        first: RelayAction,
        Ghost(before): Ghost<RelayView>,
        Ghost(so_far): Ghost<Seq<RelayEvent>>,
        Ghost(given): Ghost<Seq<RelayEvent>>,
    ) -> (action: RelayAction)
        requires
            awaits(old(self)@.state, first),
            orderly(before.state, so_far),
            old(self)@.state == relay_run(before.state, so_far),
            first == last_action(before.state, so_far),
            old(self)@.taken == before.taken + taken_data(so_far),
            old(self)@.accepted == before.accepted + passed(before.state, so_far),
            old(self)@.asked == before.asked + requests(so_far),
            old(self)@.stop_answers == before.stop_answers + stop_checks(so_far),
            pending(old(self)@.offered, first) == before.offered + handed(before.state, so_far),
            so_far == given,
            old(self).wf(),
        ensures
            final(self).wf(),
            final(self).same_channels(*old(self)),
            is_io(action),
            awaits(final(self)@.state, action),
            exists|events: Seq<RelayEvent>| #[trigger]
                ran(before, final(self)@, action, events, given),
    {
        let ghost mut events = so_far;
        let mut action = first;
        assert(events.take(given.len() as int) =~= given);
        loop
            invariant
                self.wf(),
                self.same_channels(*old(self)),
                awaits(self@.state, action),
                orderly(before.state, events),
                self@.state == relay_run(before.state, events),
                action == last_action(before.state, events),
                self@.taken == before.taken + taken_data(events),
                self@.accepted == before.accepted + passed(before.state, events),
                self@.asked == before.asked + requests(events),
                self@.stop_answers == before.stop_answers + stop_checks(events),
                pending(self@.offered, action) == before.offered + handed(before.state, events),
                given.len() <= events.len(),
                events.take(given.len() as int) == given,
                forall|i: int|
                    given.len() <= i < events.len() ==> !is_io_event(#[trigger] events[i]),
            decreases rank(action),
        {
            let ghost top = *self;
            let event = match action {
                RelayAction::CheckClose => {
                    let signalled: bool = take_signal(&mut self.close);
                    RelayEvent::CloseChecked { signalled }
                },
                RelayAction::TakeData => {
                    let data = take_one(&mut self.app_to_proxy);
                    RelayEvent::DataTaken { data }
                },
                RelayAction::Hand { data } => {
                    let ok: bool = hand_over(&mut self.proxy_to_app, data);
                    RelayEvent::Handed { ok }
                },
                _ => {
                    assert(ran(before, self@, action, events, given));
                    return action;
                },
            };
            let ghost last = event;
            let (state, next) = relay_step(self.state, event);
            self.state = state;
            action = next;
            proof {
                assert(self.same_channels(top));
                assert forall|tx: Sender<()>| #[trigger]
                    signal_joined(tx, self.stop_line()) == signal_joined(
                        tx,
                        old(self).stop_line(),
                    ) by {
                    assert(signal_joined(tx, top.stop_line()) == signal_joined(
                        tx,
                        old(self).stop_line(),
                    ));
                }
                let more = events.push(last);
                assert(more.drop_last() =~= events);
                assert(more.take(given.len() as int) =~= given);
                assert(self@.taken =~= before.taken + taken_data(more));
                assert(self@.accepted =~= before.accepted + passed(before.state, more));
                assert(self@.stop_answers =~= before.stop_answers + stop_checks(more));
                assert(pending(self@.offered, action) =~= before.offered + handed(
                    before.state,
                    more,
                ));
                assert forall|i: int| given.len() <= i < more.len() implies !is_io_event(
                    #[trigger] more[i],
                ) by {
                    if i < events.len() {
                        assert(more[i] == events[i]);
                    }
                }
                events = more;
            }
        }
    }
}

/// What a relay has taken from its session is in step with the client data that the
/// channel took from the session: the relay gets those pieces, in that order, and no
/// others. In the other direction, what the session has taken is in step with the
/// data that the channel took from the relay.
pub proof fn lemma_channels_keep_order(session: TcpSession, relay: Relay)
    requires
        session.wf(),
        relay.wf(),
        joined(session.uplink(), relay.uplink()),
        joined(relay.downlink(), session.downlink()),
    ensures
        in_step(accepted(session.uplink()), relay@.taken),
        in_step(accepted(relay.downlink()), session@.taken),
{
    session.lemma_view();
}

/// What will have been handed over once `action` is done.
spec fn pending(offered: Seq<Seq<u8>>, action: RelayAction) -> Seq<Seq<u8>> {
    match action {
        RelayAction::Hand { data } => offered.push(data@),
        _ => offered,
    }
}

/// How many actions on the channels can follow `action`.
spec fn rank(action: RelayAction) -> nat {
    match action {
        RelayAction::Hand { .. } => 3,
        RelayAction::CheckClose => 2,
        RelayAction::TakeData => 1,
        _ => 0,
    }
}

} // verus!
