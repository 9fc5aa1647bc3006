//! The decisions of the background worker.
//!
//! The worker owns the receiving end of the queue and the datagram socket. It
//! waits for a message, tells [`Worker::step`] what happened, and performs the
//! action that comes back: transmit one datagram and wait again, or exit. A
//! worker that has stopped never asks for another transmission.
//!
//! A datagram that is lost on the way is nobody's concern. A datagram that the
//! local transport refuses stops the worker: it is not retried, not skipped,
//! and not reported to the producer, who learns of it only when the queue no
//! longer takes a write.

use vstd::prelude::*;

use crate::endpoint::Destination;
use crate::message::{contents, Message, WriteRequest};

verus! {

/// Why a worker stopped.
#[derive(Clone, Copy, Debug, PartialEq, Eq, Structural)]
pub enum StopReason {
    /// The end-of-stream sentinel was received.
    Done,
    /// The queue was closed: the producer is gone without having said so.
    ChannelClosed,
    /// A datagram could not be handed to the transport.
    TransmitFailed,
}

/// The state of a worker: it starts `Running` and `Stopped` is final.
#[derive(Clone, Copy, Debug, PartialEq, Eq, Structural)]
pub enum WorkerState {
    Running,
    Stopped(StopReason),
}

/// What the worker observed.
#[derive(Clone, Debug, PartialEq, Eq)]
pub enum WorkerEvent {
    /// The queue delivered a message.
    Received(WriteRequest),
    /// The queue reported that no producer is left.
    ChannelClosed,
    /// The transport refused the datagram of the preceding `Transmit`.
    TransmitFailed,
}

/// What the worker does next.
#[derive(Clone, Debug, PartialEq, Eq)]
pub enum WorkerAction {
    /// Send these bytes to the destination as one datagram, then wait for the
    /// next message.
    Transmit(Vec<u8>),
    /// Leave the loop.
    Exit,
}

/// The mathematical value of a [`WorkerEvent`].
pub enum Event {
    Received(Message),
    ChannelClosed,
    TransmitFailed,
}

/// The mathematical value of a [`WorkerAction`].
pub enum Action {
    Transmit(Seq<u8>),
    Exit,
}

impl View for WorkerEvent {
    type V = Event;

    open spec fn view(&self) -> Event {
        match self {
            WorkerEvent::Received(request) => Event::Received(request@),
            WorkerEvent::ChannelClosed => Event::ChannelClosed,
            WorkerEvent::TransmitFailed => Event::TransmitFailed,
        }
    }
}

impl View for WorkerAction {
    type V = Action;

    open spec fn view(&self) -> Action {
        match self {
            WorkerAction::Transmit(bytes) => Action::Transmit(bytes@),
            WorkerAction::Exit => Action::Exit,
        }
    }
}

/// The state that follows `state` when `event` is observed.
pub open spec fn next_state(state: WorkerState, event: Event) -> WorkerState {
    match state {
        WorkerState::Stopped(reason) => WorkerState::Stopped(reason),
        WorkerState::Running => match event {
            Event::Received(Message::Content(_)) => WorkerState::Running,
            Event::Received(Message::Done) => WorkerState::Stopped(StopReason::Done),
            Event::ChannelClosed => WorkerState::Stopped(StopReason::ChannelClosed),
            Event::TransmitFailed => WorkerState::Stopped(StopReason::TransmitFailed),
        },
    }
}

/// The action taken in `state` when `event` is observed: a running worker
/// transmits the payload it received, and in every other case the worker exits.
pub open spec fn action_for(state: WorkerState, event: Event) -> Action {
    match (state, event) {
        (WorkerState::Running, Event::Received(Message::Content(bytes))) => Action::Transmit(
            bytes,
        ),
        _ => Action::Exit,
    }
}

/// The state of a worker that started in `state` and observed `events` in order.
pub open spec fn state_after(state: WorkerState, events: Seq<Event>) -> WorkerState
    decreases events.len(),
{
    if events.len() == 0 {
        state
    } else {
        state_after(next_state(state, events[0]), events.drop_first())
    }
}

/// The datagrams, in order, that a worker asks to transmit when it starts in
/// `state` and observes `events` in order.
pub open spec fn transmitted(state: WorkerState, events: Seq<Event>) -> Seq<Seq<u8>>
    decreases events.len(),
{
    if events.len() == 0 {
        Seq::empty()
    } else {
        let rest = transmitted(next_state(state, events[0]), events.drop_first());
        match action_for(state, events[0]) {
            Action::Transmit(bytes) => seq![bytes] + rest,
            Action::Exit => rest,
        }
    }
}

/// The events of a worker that receives `queue` message by message.
pub open spec fn received(queue: Seq<Message>) -> Seq<Event> {
    Seq::new(queue.len(), |i: int| Event::Received(queue[i]))
}

/// The decision state of one background worker.
pub struct Worker {
    destination: Destination,
    state: WorkerState,
}

impl Worker {
    /// The destination that every datagram of this worker goes to.
    pub closed spec fn spec_destination(&self) -> Destination {
        self.destination
    }

    /// The state of the worker.
    pub closed spec fn spec_state(&self) -> WorkerState {
        self.state
    }

    /// The destination that every datagram of this worker goes to.
    #[verifier::when_used_as_spec(spec_destination)]
    pub fn destination(&self) -> (destination: Destination)
        ensures
            destination == self.spec_destination(),
    {
        self.destination
    }

    /// The state of the worker.
    #[verifier::when_used_as_spec(spec_state)]
    pub fn state(&self) -> (state: WorkerState)
        ensures
            state == self.spec_state(),
    {
        self.state
    }

    /// Whether the worker still waits for messages.
    pub fn is_running(&self) -> (running: bool)
        ensures
            running == (self.state() == WorkerState::Running),
    {
        match self.state {
            WorkerState::Running => true,
            WorkerState::Stopped(_) => false,
        }
    }

    /// Takes one observation and says what to do next.
    ///
    /// A running worker answers a payload with `Transmit` of the same bytes and
    /// keeps running. The sentinel, a closed queue and a failed transmission
    /// stop it. A stopped worker stays as it is and answers `Exit`, whatever it
    /// is told.
    pub fn step(&mut self, event: WorkerEvent) -> (action: WorkerAction)
        ensures
            final(self).state() == next_state(old(self).state(), event@),
            final(self).destination() == old(self).destination(),
            action@ == action_for(old(self).state(), event@),
    {
        match self.state {
            WorkerState::Stopped(_) => WorkerAction::Exit,
            WorkerState::Running => match event {
                WorkerEvent::Received(WriteRequest::Content(bytes)) => WorkerAction::Transmit(
                    bytes,
                ),
                WorkerEvent::Received(WriteRequest::Done) => {
                    self.state = WorkerState::Stopped(StopReason::Done);
                    WorkerAction::Exit
                },
                WorkerEvent::ChannelClosed => {
                    self.state = WorkerState::Stopped(StopReason::ChannelClosed);
                    WorkerAction::Exit
                },
                WorkerEvent::TransmitFailed => {
                    self.state = WorkerState::Stopped(StopReason::TransmitFailed);
                    WorkerAction::Exit
                },
            },
        }
    }
}

/// Starts the receiving side: a worker bound to `write_destination`, running.
pub fn start_rx(write_destination: Destination) -> (worker: Worker)
    ensures
        worker.destination() == write_destination,
        worker.state() == WorkerState::Running,
{
    Worker { destination: write_destination, state: WorkerState::Running }
}

/// A stopped worker transmits nothing and stays stopped with the same reason,
/// whatever it observes afterwards.
pub proof fn lemma_stopped_is_final(reason: StopReason, events: Seq<Event>)
    ensures
        transmitted(WorkerState::Stopped(reason), events) == Seq::<Seq<u8>>::empty(),
        state_after(WorkerState::Stopped(reason), events) == WorkerState::Stopped(reason),
    decreases events.len(),
{
    if events.len() > 0 {
        lemma_stopped_is_final(reason, events.drop_first());
    }
}

/// A running worker that receives one `Content` per payload and then observes
/// `last` and anything else transmits the payloads, each once, unchanged and in
/// order, and what remains is decided by `last` and what follows it.
proof fn lemma_contents_are_transmitted(payloads: Seq<Seq<u8>>, tail: Seq<Event>)
    ensures
        transmitted(WorkerState::Running, received(contents(payloads)) + tail) == payloads
            + transmitted(WorkerState::Running, tail),
        state_after(WorkerState::Running, received(contents(payloads)) + tail) == state_after(
            WorkerState::Running,
            tail,
        ),
    decreases payloads.len(),
{
    let events = received(contents(payloads)) + tail;
    if payloads.len() == 0 {
        assert(events =~= tail);
        assert(payloads + transmitted(WorkerState::Running, tail) =~= transmitted(
            WorkerState::Running,
            tail,
        ));
    } else {
        let rest = payloads.drop_first();
        assert(events[0] == Event::Received(Message::Content(payloads[0])));
        assert(events.drop_first() =~= received(contents(rest)) + tail);
        lemma_contents_are_transmitted(rest, tail);
        assert(seq![payloads[0]] + (rest + transmitted(WorkerState::Running, tail)) =~= payloads
            + transmitted(WorkerState::Running, tail));
    }
}

/// Payloads enqueued in front of the sentinel reach the transport exactly once
/// each, byte for byte and in the order of their enqueueing, and nothing that
/// follows the sentinel is transmitted: the worker is then stopped.
pub proof fn lemma_stream_is_delivered_in_order(payloads: Seq<Seq<u8>>, later: Seq<Event>)
    ensures
        transmitted(
            WorkerState::Running,
            received(contents(payloads).push(Message::Done)) + later,
        ) == payloads,
        state_after(
            WorkerState::Running,
            received(contents(payloads).push(Message::Done)) + later,
        ) == WorkerState::Stopped(StopReason::Done),
{
    let tail = seq![Event::Received(Message::Done)] + later;
    assert(received(contents(payloads).push(Message::Done)) + later =~= received(
        contents(payloads),
    ) + tail);
    lemma_contents_are_transmitted(payloads, tail);
    assert(tail.drop_first() =~= later);
    lemma_stopped_is_final(StopReason::Done, later);
    assert(payloads + Seq::<Seq<u8>>::empty() =~= payloads);
}

/// When the queue closes without a sentinel, the payloads received until then
/// have been transmitted in order, and the worker stops without transmitting
/// anything more.
pub proof fn lemma_closed_channel_stops_worker(payloads: Seq<Seq<u8>>, later: Seq<Event>)
    ensures
        transmitted(
            WorkerState::Running,
            received(contents(payloads)).push(Event::ChannelClosed) + later,
        ) == payloads,
        state_after(
            WorkerState::Running,
            received(contents(payloads)).push(Event::ChannelClosed) + later,
        ) == WorkerState::Stopped(StopReason::ChannelClosed),
{
    let tail = seq![Event::ChannelClosed] + later;
    assert(received(contents(payloads)).push(Event::ChannelClosed) + later =~= received(
        contents(payloads),
    ) + tail);
    lemma_contents_are_transmitted(payloads, tail);
    assert(tail.drop_first() =~= later);
    lemma_stopped_is_final(StopReason::ChannelClosed, later);
    assert(payloads + Seq::<Seq<u8>>::empty() =~= payloads);
}

} // verus!
