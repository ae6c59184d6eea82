use replication::ids::{Entity, NetworkEntity, PlayerId};

#[test]
fn network_entity_packs_generation_above_index() {
    let e = Entity { generation: 3, index: 7 };
    let ne = NetworkEntity::from(&e);
    assert_eq!(ne.0, (3u64 << 32) | 7);
    assert_eq!(ne.0, 0x0000_0003_0000_0007);
    assert_eq!(ne.generation(), 3);
    assert_eq!(ne.index(), 7);
}

#[test]
fn network_entity_of_first_generation_is_the_index() {
    let ne = NetworkEntity::from(&Entity { generation: 0, index: 1 });
    assert_eq!(ne, NetworkEntity(1));
}

#[test]
fn network_entity_keeps_extreme_halves_apart() {
    let high = NetworkEntity::from(&Entity { generation: u32::MAX, index: 0 });
    let low = NetworkEntity::from(&Entity { generation: 0, index: u32::MAX });
    assert_eq!(high.0, 0xffff_ffff_0000_0000);
    assert_eq!(low.0, 0x0000_0000_ffff_ffff);
    assert_eq!(high.generation(), u32::MAX);
    assert_eq!(high.index(), 0);
    assert_eq!(low.generation(), 0);
    assert_eq!(low.index(), u32::MAX);
    let all = NetworkEntity::from(&Entity { generation: u32::MAX, index: u32::MAX });
    assert_eq!(all.0, u64::MAX);
}

#[test]
fn distinct_entities_get_distinct_wire_names() {
    let a = NetworkEntity::from(&Entity { generation: 1, index: 2 });
    let b = NetworkEntity::from(&Entity { generation: 2, index: 1 });
    let c = NetworkEntity::from(&Entity { generation: 1, index: 3 });
    assert_ne!(a, b);
    assert_ne!(a, c);
    assert_ne!(b, c);
}

#[test]
fn new_player_id_is_a_random_uuid() {
    for _ in 0..64 {
        let id = PlayerId::new();
        assert_eq!((id.0 >> 76) & 0xf, 4);
        assert_eq!((id.0 >> 62) & 0x3, 2);
        assert_eq!(id.0 & 0xF000_C000_0000_0000_0000, 0x4000_8000_0000_0000_0000);
    }
}

#[test]
fn new_player_ids_differ() {
    let a = PlayerId::new();
    let b = PlayerId::new();
    assert_ne!(a, b);
}

#[test]
fn player_id_is_compared_by_value() {
    assert_eq!(PlayerId(42), PlayerId(42));
    assert_ne!(PlayerId(42), PlayerId(43));
}

#[test]
fn player_id_text_is_the_hyphenated_uuid() {
    let id = PlayerId(0x0123_4567_89ab_cdef_0123_4567_89ab_cdef);
    assert_eq!(id.to_string(), "01234567-89ab-cdef-0123-456789abcdef");
    assert_eq!(PlayerId(0).to_string(), "00000000-0000-0000-0000-000000000000");
}

#[test]
fn player_id_text_is_what_the_uuid_crate_prints() {
    let id = PlayerId::new();
    assert_eq!(id.to_string(), format!("{}", uuid::Uuid::from_u128(id.0)));
}
