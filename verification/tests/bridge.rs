use replication::bridge::{bridge_step, BridgeAction, BridgeEvent, ConnectionState};
use replication::ids::PlayerId;
use replication::messages::{PlayerMessage, ServerMessage};

type Event = BridgeEvent<ServerMessage, PlayerMessage>;
type Action = BridgeAction<ServerMessage, PlayerMessage>;

fn hello() -> PlayerMessage {
    PlayerMessage::Hello { my_id: PlayerId(7) }
}

fn welcome() -> ServerMessage {
    ServerMessage::Welcome { players: vec![PlayerId(7)] }
}

#[test]
fn handshake_opens_the_connection() {
    assert_eq!(
        bridge_step(ConnectionState::Connecting, Event::Connected),
        (ConnectionState::Open, Action::Continue)
    );
}

#[test]
fn failed_handshake_closes_the_connection() {
    assert_eq!(
        bridge_step(ConnectionState::Connecting, Event::ConnectFailed),
        (ConnectionState::Closed, Action::Exit)
    );
    assert_eq!(
        bridge_step(ConnectionState::Connecting, Event::SocketClosed),
        (ConnectionState::Closed, Action::Exit)
    );
}

#[test]
fn open_connection_writes_what_its_queue_gives() {
    assert_eq!(
        bridge_step(ConnectionState::Open, Event::Outbound(welcome())),
        (ConnectionState::Open, Action::Write(welcome()))
    );
}

#[test]
fn open_connection_forwards_what_its_socket_gives() {
    assert_eq!(
        bridge_step(ConnectionState::Open, Event::Inbound(hello())),
        (ConnectionState::Open, Action::Forward(hello()))
    );
}

#[test]
fn malformed_frame_is_dropped_and_the_connection_stays_open() {
    assert_eq!(
        bridge_step(ConnectionState::Open, Event::Malformed),
        (ConnectionState::Open, Action::DropFrame)
    );
}

#[test]
fn transport_errors_and_closure_end_the_task() {
    let endings: Vec<Event> = vec![
        Event::SocketClosed,
        Event::ReadFailed,
        Event::WriteFailed,
        Event::ForwardFailed,
        Event::OutboundClosed,
        Event::ConnectFailed,
    ];
    for e in endings {
        assert_eq!(bridge_step(ConnectionState::Open, e), (ConnectionState::Closed, Action::Exit));
    }
}

#[test]
fn closed_connection_stays_closed() {
    let events: Vec<Event> = vec![
        Event::Connected,
        Event::Outbound(welcome()),
        Event::Inbound(hello()),
        Event::Malformed,
        Event::SocketClosed,
    ];
    for e in events {
        assert_eq!(bridge_step(ConnectionState::Closed, e), (ConnectionState::Closed, Action::Exit));
    }
}

#[test]
fn writes_follow_the_order_of_the_queue() {
    let m1 = ServerMessage::Welcome { players: vec![PlayerId(1)] };
    let m2 = ServerMessage::Welcome { players: vec![PlayerId(2)] };
    let m3 = ServerMessage::Welcome { players: vec![PlayerId(3)] };
    let events: Vec<Event> = vec![
        Event::Outbound(m1.clone()),
        Event::Inbound(hello()),
        Event::Outbound(m2.clone()),
        Event::Malformed,
        Event::Outbound(m3.clone()),
    ];
    let mut state = ConnectionState::Open;
    let mut written = Vec::new();
    for e in events {
        let (next, action) = bridge_step(state, e);
        state = next;
        if let Action::Write(m) = action {
            written.push(m);
        }
    }
    assert_eq!(state, ConnectionState::Open);
    assert_eq!(written, vec![m1, m2, m3]);
}
