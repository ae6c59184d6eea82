//! The decisions of a bridging task: the task that stands between one socket
//! and the queues of the simulation. The task waits for whichever comes
//! first, a message on its outbound queue or a frame on its socket, hands the
//! event to `bridge_step` and does what the step answers.

use vstd::prelude::*;

verus! {

/// The life of one connection.
#[derive(Clone, Copy, Debug, PartialEq, Eq, Structural)]
pub enum ConnectionState {
    /// The socket is there, the handshake is not done.
    Connecting,
    /// Messages flow both ways.
    Open,
    /// The task has ended; the queues of the connection are dropped.
    Closed,
}

/// What a bridging task can meet. `O` is the type of the messages it writes
/// to the socket, `I` the type of those it reads from it.
#[derive(Debug, PartialEq, Eq)]
pub enum BridgeEvent<O, I> {
    /// The handshake succeeded.
    Connected,
    /// The handshake failed.
    ConnectFailed,
    /// The outbound queue gave its next message.
    Outbound(O),
    /// The outbound queue has ended: its sending half was dropped.
    OutboundClosed,
    /// A frame arrived and was decoded as a message.
    Inbound(I),
    /// A frame arrived that does not decode as a message.
    Malformed,
    /// Reading from the socket failed.
    ReadFailed,
    /// Writing to the socket failed.
    WriteFailed,
    /// The inbound queue took no message: its receiving half is gone.
    ForwardFailed,
    /// The peer closed the socket.
    SocketClosed,
}

/// What a bridging task does next.
#[derive(Debug, PartialEq, Eq)]
pub enum BridgeAction<O, I> {
    /// Wait for the next event.
    Continue,
    /// Encode the message and write it to the socket as one frame.
    Write(O),
    /// Push the message onto the inbound queue, waiting while the queue is full.
    Forward(I),
    /// Drop the frame and report it; the connection stays open.
    DropFrame,
    /// End the task and drop the connection's queues.
    Exit,
}

/// The state after an event, and what the task does. An open connection
/// writes what its queue gives and forwards what its socket gives; a frame
/// that does not decode is dropped; the end of the socket or of a queue, and
/// a failure of the transport, close the connection. A connecting
/// one opens on the handshake and closes on anything else. A closed one
/// stays closed.
pub open spec fn step<O, I>(state: ConnectionState, event: BridgeEvent<O, I>) -> (
    ConnectionState,
    BridgeAction<O, I>,
) {
    match state {
        ConnectionState::Closed => (ConnectionState::Closed, BridgeAction::Exit),
        ConnectionState::Connecting => match event {
            BridgeEvent::Connected => (ConnectionState::Open, BridgeAction::Continue),
            _ => (ConnectionState::Closed, BridgeAction::Exit),
        },
        ConnectionState::Open => match event {
            BridgeEvent::Connected => (ConnectionState::Open, BridgeAction::Continue),
            BridgeEvent::Outbound(message) => (ConnectionState::Open, BridgeAction::Write(message)),
            BridgeEvent::Inbound(message) => (
                ConnectionState::Open,
                BridgeAction::Forward(message),
            ),
            BridgeEvent::Malformed => (ConnectionState::Open, BridgeAction::DropFrame),
            _ => (ConnectionState::Closed, BridgeAction::Exit),
        },
    }
}

/// The state of a connection after the events, met in order.
pub open spec fn state_after<O, I>(
    state: ConnectionState,
    events: Seq<BridgeEvent<O, I>>,
) -> ConnectionState
    decreases events.len(),
{
    if events.len() == 0 {
        state
    } else {
        step(state_after(state, events.drop_last()), events.last()).0
    }
}

/// What the task does on each of the events, met in order.
pub open spec fn actions<O, I>(state: ConnectionState, events: Seq<BridgeEvent<O, I>>) -> Seq<
    BridgeAction<O, I>,
>
    decreases events.len(),
{
    if events.len() == 0 {
        Seq::empty()
    } else {
        actions(state, events.drop_last()).push(
            step(state_after(state, events.drop_last()), events.last()).1,
        )
    }
}

/// The messages that the outbound queue gave among the events, in order.
pub open spec fn taken<O, I>(events: Seq<BridgeEvent<O, I>>) -> Seq<O> {
    events.filter_map(
        |e: BridgeEvent<O, I>|
            match e {
                BridgeEvent::Outbound(message) => Some(message),
                _ => None,
            },
    )
}

/// The messages written to the socket among the actions, in order.
pub open spec fn written<O, I>(done: Seq<BridgeAction<O, I>>) -> Seq<O> {
    done.filter_map(
        |a: BridgeAction<O, I>|
            match a {
                BridgeAction::Write(message) => Some(message),
                _ => None,
            },
    )
}

/// Decides what a bridging task does on an event.
pub fn bridge_step<O, I>(state: ConnectionState, event: BridgeEvent<O, I>) -> (r: (
    ConnectionState,
    BridgeAction<O, I>,
))
    ensures
        r == step(state, event),
{
    match state {
        ConnectionState::Closed => (ConnectionState::Closed, BridgeAction::Exit),
        ConnectionState::Connecting => match event {
            BridgeEvent::Connected => (ConnectionState::Open, BridgeAction::Continue),
            _ => (ConnectionState::Closed, BridgeAction::Exit),
        },
        ConnectionState::Open => match event {
            BridgeEvent::Connected => (ConnectionState::Open, BridgeAction::Continue),
            BridgeEvent::Outbound(message) => (ConnectionState::Open, BridgeAction::Write(message)),
            BridgeEvent::Inbound(message) => (ConnectionState::Open, BridgeAction::Forward(message)),
            BridgeEvent::Malformed => (ConnectionState::Open, BridgeAction::DropFrame),
            BridgeEvent::ConnectFailed
            | BridgeEvent::OutboundClosed
            | BridgeEvent::ReadFailed
            | BridgeEvent::WriteFailed
            | BridgeEvent::ForwardFailed
            | BridgeEvent::SocketClosed => (ConnectionState::Closed, BridgeAction::Exit),
        },
    }
}

/// A task ends exactly when its connection closes, and a closed connection stays closed.
pub proof fn lemma_exit_means_closed<O, I>(state: ConnectionState, event: BridgeEvent<O, I>)
    ensures
        step(state, event).1 is Exit <==> step(state, event).0 is Closed,
        state is Closed ==> step(state, event).0 is Closed,
        !(step(state, event).0 is Connecting),
{
}

/// A frame that does not decode costs the frame, not the connection.
pub proof fn lemma_malformed_frame_keeps_connection<O, I>()
    ensures
        step::<O, I>(ConnectionState::Open, BridgeEvent::Malformed) == (
            ConnectionState::Open,
            BridgeAction::<O, I>::DropFrame,
        ),
{
}

/// A connection that is open after the events was open before each of them.
pub proof fn lemma_open_throughout<O, I>(events: Seq<BridgeEvent<O, I>>, n: int)
    requires
        state_after(ConnectionState::Open, events) is Open,
        0 <= n <= events.len(),
    ensures
        state_after(ConnectionState::Open, events.take(n)) is Open,
    decreases events.len() - n,
{
    if n == events.len() {
        assert(events.take(n) =~= events);
    } else {
        lemma_open_throughout(events, n + 1);
        assert(events.take(n + 1).drop_last() =~= events.take(n));
    }
}

/// While a connection stays open, the messages written to its socket are the
/// messages that its outbound queue gave, in the order in which it gave them.
pub proof fn lemma_bridge_keeps_order<O, I>(events: Seq<BridgeEvent<O, I>>)
    requires
        state_after(ConnectionState::Open, events) is Open,
    ensures
        written(actions(ConnectionState::Open, events)) == taken(events),
    decreases events.len(),
{
    if events.len() == 0 {
        assert(actions(ConnectionState::Open, events) =~= Seq::empty());
    } else {
        let earlier = events.drop_last();
        lemma_open_throughout(events, events.len() - 1);
        assert(events.take(events.len() - 1) =~= earlier);
        lemma_bridge_keeps_order(earlier);
        let done = actions(ConnectionState::Open, events);
        assert(done.drop_last() =~= actions(ConnectionState::Open, earlier));
    }
}

} // verus!
