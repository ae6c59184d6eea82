use replication::broadcast::{networked, Broadcast, ChangeTrackers, Observed};
use replication::components::{kind_to_type_id_mappings, NSprite, NTransform};
use replication::ids::{Entity, NetworkEntity};
use replication::messages::ServerMessage;

fn observed(index: u32, data: Vec<u8>, added: bool, changed: bool) -> Observed {
    Observed {
        entity: Entity { generation: 0, index },
        data,
        trackers: ChangeTrackers { added, changed },
    }
}

#[test]
fn added_value_is_broadcast_as_added() {
    let registry = kind_to_type_id_mappings();
    let query = vec![observed(1, vec![0], true, true)];
    let mut broadcasts = Vec::new();
    networked::<NSprite>(&query, &registry, &mut broadcasts);
    assert_eq!(
        broadcasts,
        vec![Broadcast::ComponentAdded {
            entity: Entity { generation: 0, index: 1 },
            component: 100,
            data: vec![0],
        }]
    );
}

#[test]
fn replaced_value_is_broadcast_as_changed() {
    let registry = kind_to_type_id_mappings();
    let query = vec![observed(1, vec![1], false, true)];
    let mut broadcasts = Vec::new();
    networked::<NSprite>(&query, &registry, &mut broadcasts);
    assert_eq!(
        broadcasts,
        vec![Broadcast::ComponentChanged {
            entity: Entity { generation: 0, index: 1 },
            component: 100,
            data: vec![1],
        }]
    );
}

#[test]
fn untouched_value_is_not_broadcast() {
    let registry = kind_to_type_id_mappings();
    let query = vec![observed(1, vec![1], false, false), observed(2, vec![2], false, false)];
    let mut broadcasts = Vec::new();
    networked::<NSprite>(&query, &registry, &mut broadcasts);
    assert!(broadcasts.is_empty());
}

#[test]
fn empty_query_broadcasts_nothing() {
    let registry = kind_to_type_id_mappings();
    let mut broadcasts = Vec::new();
    networked::<NTransform>(&Vec::new(), &registry, &mut broadcasts);
    assert!(broadcasts.is_empty());
}

#[test]
fn events_follow_the_query_and_what_was_there() {
    let registry = kind_to_type_id_mappings();
    let mut broadcasts = Vec::new();
    networked::<NSprite>(
        &vec![observed(1, vec![1], true, false), observed(2, vec![2], false, false)],
        &registry,
        &mut broadcasts,
    );
    networked::<NTransform>(
        &vec![
            observed(1, vec![9; 16], false, true),
            observed(2, vec![8; 16], false, false),
            observed(3, vec![7; 16], true, true),
        ],
        &registry,
        &mut broadcasts,
    );
    assert_eq!(
        broadcasts,
        vec![
            Broadcast::ComponentAdded {
                entity: Entity { generation: 0, index: 1 },
                component: 100,
                data: vec![1],
            },
            Broadcast::ComponentChanged {
                entity: Entity { generation: 0, index: 1 },
                component: 200,
                data: vec![9; 16],
            },
            Broadcast::ComponentAdded {
                entity: Entity { generation: 0, index: 3 },
                component: 200,
                data: vec![7; 16],
            },
        ]
    );
}

#[test]
fn event_becomes_the_message_of_its_kind() {
    let changed = Broadcast::ComponentChanged {
        entity: Entity { generation: 2, index: 5 },
        component: 200,
        data: vec![1, 2, 3],
    };
    assert_eq!(
        changed.to_message(),
        ServerMessage::ComponentChanged {
            entity: NetworkEntity((2u64 << 32) | 5),
            component: 200,
            data: vec![1, 2, 3],
        }
    );
    let added = Broadcast::ComponentAdded {
        entity: Entity { generation: 0, index: 1 },
        component: 100,
        data: vec![],
    };
    assert_eq!(
        added.to_message(),
        ServerMessage::ComponentAdded { entity: NetworkEntity(1), component: 100, data: vec![] }
    );
}
