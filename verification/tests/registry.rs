use replication::components::{kind_to_type_id_mappings, NSprite, NTransform, Replicated};
use replication::ids::KindId;
use replication::registry::{Registry, RegistryError, TypeKey};

#[test]
fn empty_registry_resolves_nothing() {
    let r = Registry::new();
    assert_eq!(r.len(), 0);
    assert_eq!(r.resolve_type(100), None);
    assert_eq!(r.resolve_kind(TypeKey(1)), None);
}

#[test]
fn registered_pair_resolves_both_ways() {
    let mut r = Registry::new();
    assert_eq!(r.register(100, TypeKey(7)), Ok(()));
    assert_eq!(r.register(200, TypeKey(9)), Ok(()));
    assert_eq!(r.len(), 2);
    assert_eq!(r.resolve_type(100), Some(TypeKey(7)));
    assert_eq!(r.resolve_type(200), Some(TypeKey(9)));
    assert_eq!(r.resolve_kind(TypeKey(7)), Some(100));
    assert_eq!(r.resolve_kind(TypeKey(9)), Some(200));
}

#[test]
fn registry_round_trips() {
    let mut r = Registry::new();
    let pairs: Vec<(u16, TypeKey)> = vec![(1, TypeKey(10)), (2, TypeKey(20)), (65535, TypeKey(u64::MAX))];
    for (kind, ty) in pairs.iter() {
        assert_eq!(r.register(*kind, *ty), Ok(()));
    }
    for (kind, ty) in pairs.iter() {
        let resolved_kind = r.resolve_kind(*ty).unwrap();
        assert_eq!(r.resolve_type(resolved_kind), Some(*ty));
        let resolved_type = r.resolve_type(*kind).unwrap();
        assert_eq!(r.resolve_kind(resolved_type), Some(*kind));
    }
}

#[test]
fn duplicate_kind_is_refused() {
    let mut r = Registry::new();
    assert_eq!(r.register(100, TypeKey(1)), Ok(()));
    assert_eq!(r.register(100, TypeKey(2)), Err(RegistryError::DuplicateKind));
    assert_eq!(r.len(), 1);
    assert_eq!(r.resolve_type(100), Some(TypeKey(1)));
    assert_eq!(r.resolve_kind(TypeKey(2)), None);
}

#[test]
fn duplicate_type_is_refused() {
    let mut r = Registry::new();
    assert_eq!(r.register(100, TypeKey(1)), Ok(()));
    assert_eq!(r.register(200, TypeKey(1)), Err(RegistryError::DuplicateType));
    assert_eq!(r.len(), 1);
    assert_eq!(r.resolve_type(200), None);
    assert_eq!(r.resolve_kind(TypeKey(1)), Some(100));
}

#[test]
fn same_pair_twice_is_a_duplicate_kind() {
    let mut r = Registry::new();
    assert_eq!(r.register(100, TypeKey(1)), Ok(()));
    assert_eq!(r.register(100, TypeKey(1)), Err(RegistryError::DuplicateKind));
}

#[test]
fn unregistered_kind_and_type_resolve_to_nothing() {
    let mut r = Registry::new();
    assert_eq!(r.register(100, TypeKey(1)), Ok(()));
    assert_eq!(r.resolve_type(101), None);
    assert_eq!(r.resolve_kind(TypeKey(100)), None);
}

#[test]
fn shared_components_have_their_kinds() {
    assert_eq!(NSprite::KIND_ID, 100);
    assert_eq!(NTransform::KIND_ID, 200);
    assert_ne!(NSprite::type_key(), NTransform::type_key());
}

#[test]
fn shared_component_registry_maps_sprite_and_transform() {
    let r = kind_to_type_id_mappings();
    assert_eq!(r.len(), 2);
    assert_eq!(r.resolve_type(100), Some(NSprite::type_key()));
    assert_eq!(r.resolve_type(200), Some(NTransform::type_key()));
    assert_eq!(r.resolve_kind(NSprite::type_key()), Some(100));
    assert_eq!(r.resolve_kind(NTransform::type_key()), Some(200));
    assert_eq!(r.resolve_type(300), None);
}

#[test]
fn component_defaults_are_zero() {
    assert_eq!(NSprite::default().sprite_index, 0);
    let t = NTransform::default();
    assert_eq!(t.translation.x, 0.0f32.to_bits());
    assert_eq!(t.translation.y, 0.0f32.to_bits());
    assert_eq!(t.scale.x, 0);
    assert_eq!(t.scale.y, 0);
}

#[test]
fn sprite_cycles_through_its_frames() {
    let mut sprite = NSprite::default();
    let mut shown = Vec::new();
    for _ in 0..9 {
        sprite.advance();
        shown.push(sprite.sprite_index);
    }
    assert_eq!(shown, vec![1, 2, 3, 0, 1, 2, 3, 0, 1]);
    let mut last = NSprite { sprite_index: u32::MAX };
    last.advance();
    assert_eq!(last.sprite_index, 0);
    let mut odd = NSprite { sprite_index: 6 };
    odd.advance();
    assert_eq!(odd.sprite_index, 3);
}
