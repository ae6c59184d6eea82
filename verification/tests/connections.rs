use futures::channel::mpsc::Receiver;
use replication::broadcast::Broadcast;
use replication::connections::{
    host_queues, Closed, ConnectionManager, SendFailure, ServerSettings, SettingsError,
};
use replication::ids::{Entity, NetworkEntity};
use replication::messages::ServerMessage;

fn settings(channel_size: usize) -> ServerSettings {
    ServerSettings { ip_address: "127.0.0.1:13037".to_string(), channel_size, tick_rate: 30 }
}

fn changed(index: u32, byte: u8) -> Broadcast {
    Broadcast::ComponentChanged {
        entity: Entity { generation: 0, index },
        component: 100,
        data: vec![byte],
    }
}

fn message(index: u32, byte: u8) -> ServerMessage {
    ServerMessage::ComponentChanged {
        entity: NetworkEntity(index as u64),
        component: 100,
        data: vec![byte],
    }
}

fn drain(receiver: &mut Receiver<ServerMessage>) -> Vec<ServerMessage> {
    let mut out = Vec::new();
    while let Ok(m) = receiver.try_recv() {
        out.push(m);
    }
    out
}

#[test]
fn default_settings() {
    let s = ServerSettings::default();
    assert_eq!(s.ip_address, "127.0.0.1:13037");
    assert_eq!(s.channel_size, 1024);
    assert_eq!(s.tick_rate, 30);
    assert_eq!(s.check(), Ok(()));
    assert_eq!(s.tick_nanos(), Some(33_333_333));
}

#[test]
fn settings_without_ticks_are_refused() {
    let mut s = ServerSettings::default();
    s.tick_rate = 0;
    assert_eq!(s.check(), Err(SettingsError::NoTicks));
    assert_eq!(s.tick_nanos(), None);
    assert_eq!(ConnectionManager::new(&s).err(), Some(SettingsError::NoTicks));
    assert_eq!(host_queues(&s).err(), Some(SettingsError::NoTicks));
    s.channel_size = usize::MAX;
    assert_eq!(s.check(), Err(SettingsError::ChannelTooLarge));
}

#[test]
fn tick_interval_is_the_rounded_down_share_of_a_second() {
    let mut s = ServerSettings::default();
    s.tick_rate = 1;
    assert_eq!(s.tick_nanos(), Some(1_000_000_000));
    s.tick_rate = 60;
    assert_eq!(s.tick_nanos(), Some(16_666_666));
    s.tick_rate = u32::MAX;
    assert_eq!(s.tick_nanos(), Some(0));
}

#[test]
fn manager_refuses_a_buffer_that_no_queue_can_have() {
    assert_eq!(
        ConnectionManager::new(&settings(usize::MAX)).err(),
        Some(SettingsError::ChannelTooLarge)
    );
    assert!(ConnectionManager::new(&settings(usize::MAX / 4 - 1)).is_ok());
    assert_eq!(
        ConnectionManager::new(&settings(usize::MAX / 4)).err(),
        Some(SettingsError::ChannelTooLarge)
    );
    assert!(ConnectionManager::new(&settings(0)).is_ok());
    assert!(host_queues(&settings(usize::MAX / 4)).is_err());
    assert!(host_queues(&settings(1024)).is_ok());
}

#[test]
fn connection_ids_count_up_from_zero() {
    let mut manager = ConnectionManager::new(&ServerSettings::default()).unwrap();
    assert_eq!(manager.len(), 0);
    let (a, _ra) = manager.accept().unwrap();
    let (b, _rb) = manager.accept().unwrap();
    let (c, _rc) = manager.accept().unwrap();
    assert_eq!((a, b, c), (0, 1, 2));
    assert_eq!(manager.len(), 3);
    assert!(manager.is_open(0));
    assert!(manager.is_open(2));
    assert!(!manager.is_open(3));
}

#[test]
fn closed_connection_id_is_not_reused() {
    let mut manager = ConnectionManager::new(&ServerSettings::default()).unwrap();
    let (a, _ra) = manager.accept().unwrap();
    assert!(manager.close(a));
    assert!(!manager.close(a));
    assert_eq!(manager.len(), 0);
    let (b, _rb) = manager.accept().unwrap();
    assert_eq!(b, 1);
}

#[test]
fn queue_hands_out_messages_in_the_order_pushed() {
    let mut manager = ConnectionManager::new(&ServerSettings::default()).unwrap();
    let (_id, mut receiver) = manager.accept().unwrap();
    let closed = manager.broadcast_messages(&vec![changed(1, 1), changed(2, 2), changed(3, 3)]);
    assert!(closed.is_empty());
    assert_eq!(drain(&mut receiver), vec![message(1, 1), message(2, 2), message(3, 3)]);
}

#[test]
fn order_holds_across_fan_outs() {
    let mut manager = ConnectionManager::new(&ServerSettings::default()).unwrap();
    let (_id, mut receiver) = manager.accept().unwrap();
    assert!(manager.broadcast_messages(&vec![changed(1, 1)]).is_empty());
    assert!(manager.broadcast_messages(&vec![changed(1, 2), changed(1, 3)]).is_empty());
    assert_eq!(drain(&mut receiver), vec![message(1, 1), message(1, 2), message(1, 3)]);
}

#[test]
fn every_open_connection_gets_every_message() {
    let mut manager = ConnectionManager::new(&ServerSettings::default()).unwrap();
    let (_a, mut ra) = manager.accept().unwrap();
    let (_b, mut rb) = manager.accept().unwrap();
    let closed = manager.broadcast_messages(&vec![changed(1, 1), changed(2, 2)]);
    assert!(closed.is_empty());
    assert_eq!(drain(&mut ra), vec![message(1, 1), message(2, 2)]);
    assert_eq!(drain(&mut rb), vec![message(1, 1), message(2, 2)]);
}

#[test]
fn empty_fan_out_closes_nobody() {
    let mut manager = ConnectionManager::new(&settings(0)).unwrap();
    let (_a, ra) = manager.accept().unwrap();
    drop(ra);
    assert!(manager.broadcast_messages(&Vec::new()).is_empty());
    assert_eq!(manager.len(), 1);
}

#[test]
fn full_queue_closes_only_its_own_connection() {
    let mut manager = ConnectionManager::new(&settings(1)).unwrap();
    let (a, mut ra) = manager.accept().unwrap();
    let (b, mut rb) = manager.accept().unwrap();
    assert!(manager.broadcast_messages(&vec![changed(1, 1), changed(1, 2)]).is_empty());
    assert_eq!(drain(&mut rb), vec![message(1, 1), message(1, 2)]);
    let closed = manager.broadcast_messages(&vec![changed(1, 3), changed(1, 4)]);
    assert_eq!(closed, vec![Closed { connection_id: a, reason: SendFailure::Full }]);
    assert!(!manager.is_open(a));
    assert!(manager.is_open(b));
    assert_eq!(manager.len(), 1);
    assert_eq!(drain(&mut rb), vec![message(1, 3), message(1, 4)]);
    assert_eq!(drain(&mut ra), vec![message(1, 1), message(1, 2)]);
}

#[test]
fn dropped_receiver_closes_its_connection_at_the_next_fan_out() {
    let mut manager = ConnectionManager::new(&ServerSettings::default()).unwrap();
    let (a, ra) = manager.accept().unwrap();
    let (b, mut rb) = manager.accept().unwrap();
    let (c, rc) = manager.accept().unwrap();
    drop(ra);
    drop(rc);
    let closed = manager.broadcast_messages(&vec![changed(7, 7)]);
    assert_eq!(
        closed,
        vec![
            Closed { connection_id: a, reason: SendFailure::Disconnected },
            Closed { connection_id: c, reason: SendFailure::Disconnected },
        ]
    );
    assert!(manager.is_open(b));
    assert_eq!(manager.len(), 1);
    assert_eq!(drain(&mut rb), vec![message(7, 7)]);
    assert!(manager.broadcast_messages(&vec![changed(8, 8)]).is_empty());
    assert_eq!(drain(&mut rb), vec![message(8, 8)]);
}

#[test]
fn closing_a_connection_ends_its_queue() {
    let mut manager = ConnectionManager::new(&ServerSettings::default()).unwrap();
    let (a, mut ra) = manager.accept().unwrap();
    assert!(manager.broadcast_messages(&vec![changed(1, 1)]).is_empty());
    assert!(manager.close(a));
    assert_eq!(ra.try_recv().ok(), Some(message(1, 1)));
    assert!(ra.try_recv().unwrap_err().is_closed());
}

#[test]
fn host_queues_start_without_connections() {
    let mut queues = host_queues(&ServerSettings::default()).unwrap();
    assert_eq!(queues.server_message_senders.len(), 0);
    assert!(queues.player_message_receiver.try_recv().unwrap_err().is_empty());
    let (first, _r) = queues.server_message_senders.accept().unwrap();
    assert_eq!(first, 0);
}
