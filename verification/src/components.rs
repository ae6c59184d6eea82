//! The component types that the host replicates, and the registry built from them.

use crate::ids::KindId;
use crate::registry::{Registry, TypeKey};
use vstd::prelude::*;

verus! {

/// A component type that the registry can name.
pub trait Replicated: KindId {
    /// The identity of the type.
    spec fn type_key_spec() -> TypeKey;

    /// The identity of the type.
    fn type_key() -> (key: TypeKey)
        ensures
            key == Self::type_key_spec(),
    ;
}

/// Which frame of its sheet a sprite shows.
#[derive(Clone, Copy, Debug, PartialEq, Eq, Structural)]
pub struct NSprite {
    pub sprite_index: u32,
}

/// Two coordinates, each held as the bit pattern of a 32-bit float.
#[derive(Clone, Copy, Debug, PartialEq, Eq, Structural)]
pub struct Vec2Bits {
    pub x: u32,
    pub y: u32,
}

/// Where an entity stands and how it is scaled, in the plane.
#[derive(Clone, Copy, Debug, PartialEq, Eq, Structural)]
pub struct NTransform {
    pub translation: Vec2Bits,
    pub scale: Vec2Bits,
}

/// The number of frames that a sprite cycles through.
pub const SPRITE_FRAMES: u32 = 4;

impl NSprite {
    /// Moves the sprite to the frame after the one it shows; after the last
    /// frame comes the first.
    pub fn advance(&mut self)
        ensures
            final(self).sprite_index == (old(self).sprite_index + 1) % (SPRITE_FRAMES as int),
    {
        let shown = self.sprite_index;
        assert(shown.wrapping_add(1) % 4 == (shown + 1) % 4) by {
            if shown == u32::MAX {
                assert(shown.wrapping_add(1) == 0);
            }
        }
        self.sprite_index = shown.wrapping_add(1) % SPRITE_FRAMES;
    }
}

impl KindId for NSprite {
    const KIND_ID: u16 = 100;
}

impl KindId for NTransform {
    const KIND_ID: u16 = 200;
}

impl Replicated for NSprite {
    open spec fn type_key_spec() -> TypeKey {
        TypeKey(1)
    }

    fn type_key() -> (key: TypeKey) {
        TypeKey(1)
    }
}

impl Replicated for NTransform {
    open spec fn type_key_spec() -> TypeKey {
        TypeKey(2)
    }

    fn type_key() -> (key: TypeKey) {
        TypeKey(2)
    }
}

impl Default for NSprite {
    fn default() -> (s: NSprite)
        ensures
            s.sprite_index == 0,
    {
        NSprite { sprite_index: 0 }
    }
}

impl Default for NTransform {
    fn default() -> (t: NTransform)
        ensures
            t == (NTransform {
                translation: Vec2Bits { x: 0, y: 0 },
                scale: Vec2Bits { x: 0, y: 0 },
            }),
    {
        NTransform { translation: Vec2Bits { x: 0, y: 0 }, scale: Vec2Bits { x: 0, y: 0 } }
    }
}

/// The registry of the replicated component types: sprites have the kind id
/// 100, transforms the kind id 200.
pub fn kind_to_type_id_mappings() -> (r: Registry)
    ensures
        r.wf(),
        r@ == Map::<u16, TypeKey>::empty().insert(100, NSprite::type_key_spec()).insert(
            200,
            NTransform::type_key_spec(),
        ),
        r.kind_of(NSprite::type_key_spec()) == Some(100u16),
        r.kind_of(NTransform::type_key_spec()) == Some(200u16),
{
    let mut r = Registry::new();
    let _ = r.register(NSprite::KIND_ID, NSprite::type_key());
    let _ = r.register(NTransform::KIND_ID, NTransform::type_key());
    r
}

} // verus!
