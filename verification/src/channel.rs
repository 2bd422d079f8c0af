//! The channels between a session and its relay.
//!
//! The two ends of a channel are used from two threads, so what is in it at a
//! moment is not known here. What is known is what one end has done: which
//! messages a sender was handed, and which messages a receiver has given out.
use crossbeam::channel::{Receiver, Sender};
use vstd::prelude::*;

verus! {

/// `crossbeam::channel::Sender`, opaque.
#[verifier::external_type_specification]
#[verifier::external_body]
#[verifier::reject_recursive_types(T)]
pub struct ExSender<T>(crossbeam::channel::Sender<T>);

/// `crossbeam::channel::Receiver`, opaque.
#[verifier::external_type_specification]
#[verifier::external_body]
#[verifier::reject_recursive_types(T)]
pub struct ExReceiver<T>(crossbeam::channel::Receiver<T>);

/// The messages that were handed to a sender, in order, whether or not the
/// channel had room for them.
pub uninterp spec fn offered(tx: Sender<Vec<u8>>) -> Seq<Seq<u8>>;

/// The messages that the channel took from a sender, in order.
pub uninterp spec fn accepted(tx: Sender<Vec<u8>>) -> Seq<Seq<u8>>;

/// The messages that a receiver has given out, in order.
pub uninterp spec fn taken(rx: Receiver<Vec<u8>>) -> Seq<Seq<u8>>;

/// How often a receiver was asked for messages.
pub uninterp spec fn asked(rx: Receiver<Vec<u8>>) -> nat;

/// How often a receiver that was asked had no message, or no message more, to give.
pub uninterp spec fn emptied(rx: Receiver<Vec<u8>>) -> nat;

/// How many messages fit the channel that a sender leads to.
pub uninterp spec fn room(tx: Sender<Vec<u8>>) -> nat;

/// Whether a sender and a receiver are the two ends of one channel, and the only
/// ones: neither was cloned.
pub uninterp spec fn joined(tx: Sender<Vec<u8>>, rx: Receiver<Vec<u8>>) -> bool;

/// How many signals were handed to a sender.
pub uninterp spec fn signals(tx: Sender<()>) -> nat;

/// What a receiver answered, in order, each time it was asked for a signal: whether
/// there was one.
pub uninterp spec fn stop_answers(rx: Receiver<()>) -> Seq<bool>;

/// How many signals fit the channel that a sender leads to.
pub uninterp spec fn signal_room(tx: Sender<()>) -> nat;

/// Whether a sender and a receiver are the two ends of one signal channel.
pub uninterp spec fn signal_joined(tx: Sender<()>, rx: Receiver<()>) -> bool;

/// The contents of each message.
pub open spec fn contents(v: Seq<Vec<u8>>) -> Seq<Seq<u8>> {
    Seq::new(v.len(), |i: int| v[i]@)
}

/// Whether one of two sequences of messages starts with the other.
pub open spec fn in_step(a: Seq<Seq<u8>>, b: Seq<Seq<u8>>) -> bool {
    a.is_prefix_of(b) || b.is_prefix_of(a)
}

/// Whatever a receiver at the other end of the channel of `tx` has given out at some
/// time is in step with what the channel took from `tx`.
pub open spec fn sends_in_order(tx: Sender<Vec<u8>>) -> bool {
    forall|rx: Receiver<Vec<u8>>| #[trigger] joined(tx, rx) ==> in_step(accepted(tx), taken(rx))
}

/// Whatever the channel of `rx` took from a sender at some time is in step with what
/// `rx` has given out.
pub open spec fn receives_in_order(rx: Receiver<Vec<u8>>) -> bool {
    forall|tx: Sender<Vec<u8>>| #[trigger] joined(tx, rx) ==> in_step(accepted(tx), taken(rx))
}

/// Makes a channel with `crossbeam::channel::bounded`: the two ends belong
/// together, the channel holds up to `cap` messages, and no end has been used.
/// The outside function panics on a capacity that cannot be allocated.
#[verifier::external_body]
pub(crate) fn data_channel(cap: usize) -> (r: (Sender<Vec<u8>>, Receiver<Vec<u8>>))
    requires
        cap <= 4096,
    ensures
        joined(r.0, r.1),
        room(r.0) == cap,
        offered(r.0) == Seq::<Seq<u8>>::empty(),
        accepted(r.0) == Seq::<Seq<u8>>::empty(),
        taken(r.1) == Seq::<Seq<u8>>::empty(),
        asked(r.1) == 0,
        emptied(r.1) == 0,
{
    crossbeam::channel::bounded::<Vec<u8>>(cap)
}

/// Makes a signal channel with `crossbeam::channel::bounded`: the two ends belong
/// together, the channel holds up to `cap` signals, and no end has been used. The outside function panics on a capacity that cannot be allocated.
#[verifier::external_body]
pub(crate) fn signal_channel(cap: usize) -> (r: (Sender<()>, Receiver<()>))
    requires
        cap <= 4096,
    ensures
        signal_joined(r.0, r.1),
        signal_room(r.0) == cap,
        signals(r.0) == 0,
        stop_answers(r.1) == Seq::<bool>::empty(),
{
    crossbeam::channel::bounded::<()>(cap)
}

/// Hands `msg` to `crossbeam::channel::Sender::try_send`, which never blocks.
/// The sender has then been handed one message more, and leads to the same
/// channel. Whether the channel took the message (`true`) rests on the other end,
/// and nothing is claimed of it. A channel gives messages out in the order in which
/// it took them, so what the only receiver gives out is in step with what was taken
/// from the only sender.
#[verifier::external_body]
pub(crate) fn offer(tx: &mut Sender<Vec<u8>>, msg: Vec<u8>) -> (took: bool)
    ensures
        offered(*final(tx)) == offered(*old(tx)).push(msg@),
        accepted(*final(tx)) == (if took {
            accepted(*old(tx)).push(msg@)
        } else {
            accepted(*old(tx))
        }),
        sends_in_order(*final(tx)),
        room(*final(tx)) == room(*old(tx)),
        forall|rx: Receiver<Vec<u8>>|
            #[trigger] joined(*final(tx), rx) == joined(*old(tx), rx),
{
    tx.try_send(msg).is_ok()
}

/// Hands a signal to `crossbeam::channel::Sender::try_send`, which never blocks.
/// The sender has then been handed one signal more, and leads to the same
/// channel. Whether the channel took the signal (`true`) rests on the other end,
/// and nothing is claimed of it.
#[verifier::external_body]
pub(crate) fn signal(tx: &mut Sender<()>) -> (took: bool)
    ensures
        signals(*final(tx)) == signals(*old(tx)) + 1,
        signal_room(*final(tx)) == signal_room(*old(tx)),
        forall|rx: Receiver<()>|
            #[trigger] signal_joined(*final(tx), rx) == signal_joined(*old(tx), rx),
{
    tx.try_send(()).is_ok()
}

/// Takes the messages that are ready, in order, with
/// `crossbeam::channel::Receiver::try_iter`, which never blocks and stops when no
/// message is ready. The receiver has then been asked once more, has come to have
/// nothing more to give, has given out those messages more, and hangs on the same
/// channel. Which messages are ready rests on the other end, and
/// nothing is claimed of it but that a channel gives messages out in the order in
/// which it took them.
#[verifier::external_body]
pub(crate) fn take_ready(rx: &mut Receiver<Vec<u8>>) -> (msgs: Vec<Vec<u8>>)
    ensures
        asked(*final(rx)) == asked(*old(rx)) + 1,
        emptied(*final(rx)) == emptied(*old(rx)) + 1,
        taken(*final(rx)) == taken(*old(rx)) + contents(msgs@),
        receives_in_order(*final(rx)),
        forall|tx: Sender<Vec<u8>>|
            #[trigger] joined(tx, *final(rx)) == joined(tx, *old(rx)),
{
    rx.try_iter().collect()
}

/// Takes one message, if one is ready, with `crossbeam::channel::Receiver::try_recv`,
/// which never blocks. The receiver has then been asked once more, has given out that
/// message more or had none to give, and hangs on the same channel. Whether one is ready rests on the other
/// end, and nothing is claimed of it but that a channel gives messages out in the
/// order in which it took them.
#[verifier::external_body]
pub(crate) fn take_one(rx: &mut Receiver<Vec<u8>>) -> (msg: Option<Vec<u8>>)
    ensures
        asked(*final(rx)) == asked(*old(rx)) + 1,
        emptied(*final(rx)) == emptied(*old(rx)) + (if msg is None {
            1nat
        } else {
            0nat
        }),
        taken(*final(rx)) == (match msg {
            Some(m) => taken(*old(rx)).push(m@),
            None => taken(*old(rx)),
        }),
        receives_in_order(*final(rx)),
        forall|tx: Sender<Vec<u8>>|
            #[trigger] joined(tx, *final(rx)) == joined(tx, *old(rx)),
{
    rx.try_recv().ok()
}

/// Takes one signal, if one is ready, with `crossbeam::channel::Receiver::try_recv`,
/// which never blocks, and says whether there was one. The receiver has then given
/// that answer more, and hangs on the same channel. Whether a signal is ready rests on
/// the other end, and nothing is claimed of it.
#[verifier::external_body]
pub(crate) fn take_signal(rx: &mut Receiver<()>) -> (signalled: bool)
    ensures
        stop_answers(*final(rx)) == stop_answers(*old(rx)).push(signalled),
        forall|tx: Sender<()>|
            #[trigger] signal_joined(tx, *final(rx)) == signal_joined(tx, *old(rx)),
{
    rx.try_recv().is_ok()
}

/// Hands `msg` to `crossbeam::channel::Sender::send`, which waits while the channel
/// is full and fails when the receiver is gone. The sender has then been handed one
/// message more, and leads to the same channel. Whether the channel took the message
/// (`true`) rests on the other end, and nothing is claimed of it. A channel gives
/// messages out in the order in which it took them, so what the only receiver gives
/// out is in step with what was taken from the only sender.
#[verifier::external_body]
pub(crate) fn hand_over(tx: &mut Sender<Vec<u8>>, msg: Vec<u8>) -> (took: bool)
    ensures
        offered(*final(tx)) == offered(*old(tx)).push(msg@),
        accepted(*final(tx)) == (if took {
            accepted(*old(tx)).push(msg@)
        } else {
            accepted(*old(tx))
        }),
        sends_in_order(*final(tx)),
        room(*final(tx)) == room(*old(tx)),
        forall|rx: Receiver<Vec<u8>>|
            #[trigger] joined(*final(tx), rx) == joined(*old(tx), rx),
{
    tx.send(msg).is_ok()
}

} // verus!
