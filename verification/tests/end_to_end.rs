use replication::broadcast::{networked, Broadcast, ChangeTrackers, Observed};
use replication::client::{handle_server_message, ClientState, Received, Resolution};
use replication::components::{kind_to_type_id_mappings, NSprite, NTransform, Replicated};
use replication::connections::{ConnectionManager, ServerSettings};
use replication::ids::{Entity, KindId, NetworkEntity};
use replication::messages::ServerMessage;

fn encode_sprite(sprite: &NSprite) -> Vec<u8> {
    postcard::to_allocvec(&sprite.sprite_index).unwrap()
}

fn decode_sprite(bytes: &[u8]) -> NSprite {
    NSprite { sprite_index: postcard::from_bytes::<u32>(bytes).unwrap() }
}

#[test]
fn sprite_travels_from_host_to_client() {
    let registry = kind_to_type_id_mappings();
    assert_eq!(registry.resolve_kind(NSprite::type_key()), Some(NSprite::KIND_ID));
    assert_eq!(registry.resolve_kind(NTransform::type_key()), Some(NTransform::KIND_ID));
    let mut manager = ConnectionManager::new(&ServerSettings::default()).unwrap();
    let (_connection, mut socket) = manager.accept().unwrap();
    let mut client = ClientState::new();
    let host_entity = Entity { generation: 0, index: 1 };

    // tick 1: the host creates the entity with its sprite
    let query = vec![Observed {
        entity: host_entity,
        data: encode_sprite(&NSprite { sprite_index: 0 }),
        trackers: ChangeTrackers { added: true, changed: true },
    }];
    let mut broadcasts = Vec::new();
    networked::<NSprite>(&query, &registry, &mut broadcasts);
    assert_eq!(
        broadcasts,
        vec![Broadcast::ComponentAdded {
            entity: host_entity,
            component: 100,
            data: encode_sprite(&NSprite { sprite_index: 0 }),
        }]
    );
    assert!(manager.broadcast_messages(&broadcasts).is_empty());
    let received = handle_server_message(&mut client, &registry, &mut socket);
    assert_eq!(client.known_entities(), 1);
    let local = client.lookup(NetworkEntity(1)).unwrap();
    assert_eq!(
        received,
        vec![Received {
            message: ServerMessage::ComponentAdded {
                entity: NetworkEntity(1),
                component: 100,
                data: encode_sprite(&NSprite { sprite_index: 0 }),
            },
            resolution: Resolution::Applied { entity: local, ty: NSprite::type_key() },
        }]
    );
    let stored = client.world().get(local, NSprite::type_key()).unwrap();
    assert_eq!(decode_sprite(stored), NSprite { sprite_index: 0 });

    // tick 2: the host replaces the sprite
    let query = vec![Observed {
        entity: host_entity,
        data: encode_sprite(&NSprite { sprite_index: 1 }),
        trackers: ChangeTrackers { added: false, changed: true },
    }];
    let mut broadcasts = Vec::new();
    networked::<NSprite>(&query, &registry, &mut broadcasts);
    assert_eq!(
        broadcasts,
        vec![Broadcast::ComponentChanged {
            entity: host_entity,
            component: 100,
            data: encode_sprite(&NSprite { sprite_index: 1 }),
        }]
    );
    assert!(manager.broadcast_messages(&broadcasts).is_empty());
    let received = handle_server_message(&mut client, &registry, &mut socket);
    assert_eq!(received.len(), 1);
    assert_eq!(client.known_entities(), 1);
    assert_eq!(client.world().len(), 1);
    assert_eq!(client.lookup(NetworkEntity(1)), Some(local));
    let stored = client.world().get(local, NSprite::type_key()).unwrap();
    assert_eq!(decode_sprite(stored).sprite_index, 1);
}

#[test]
fn quiet_tick_sends_nothing() {
    let registry = kind_to_type_id_mappings();
    let mut manager = ConnectionManager::new(&ServerSettings::default()).unwrap();
    let (_connection, mut socket) = manager.accept().unwrap();
    let mut client = ClientState::new();
    let query = vec![Observed {
        entity: Entity { generation: 0, index: 1 },
        data: encode_sprite(&NSprite { sprite_index: 3 }),
        trackers: ChangeTrackers { added: false, changed: false },
    }];
    let mut broadcasts = Vec::new();
    networked::<NSprite>(&query, &registry, &mut broadcasts);
    assert!(manager.broadcast_messages(&broadcasts).is_empty());
    assert!(handle_server_message(&mut client, &registry, &mut socket).is_empty());
    assert_eq!(client.known_entities(), 0);
}
