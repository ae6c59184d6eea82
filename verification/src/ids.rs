//! Identifiers that cross the wire: entities, players and component kinds.

use vstd::prelude::*;

verus! {

/// A handle of the local simulation: a slot index and the reuse counter of that slot.
#[derive(Clone, Copy, Debug, PartialEq, Eq, Hash, Structural)]
pub struct Entity {
    pub generation: u32,
    pub index: u32,
}

/// The wire name of an entity: the generation in the high 32 bits, the index in the low 32.
#[derive(Clone, Copy, Debug, PartialEq, Eq, Hash, Structural)]
pub struct NetworkEntity(pub u64);

/// The 64-bit value that packs `generation` above `index`.
pub open spec fn pack(generation: u32, index: u32) -> u64 {
    (generation as u64 * 0x1_0000_0000 + index as u64) as u64
}

impl View for NetworkEntity {
    type V = u64;

    open spec fn view(&self) -> u64 {
        self.0
    }
}

impl NetworkEntity {
    /// The wire name of a local handle.
    pub open spec fn of(e: Entity) -> NetworkEntity {
        NetworkEntity(pack(e.generation, e.index))
    }

    /// The reuse counter packed into the high half.
    pub fn generation(&self) -> (g: u32)
        ensures
            g == self@ / 0x1_0000_0000,
    {
        let bits: u64 = self.0;
        assert(bits >> 32 == bits / 0x1_0000_0000) by (bit_vector);
        assert(bits >> 32 <= 0xffff_ffff) by (bit_vector);
        (bits >> 32) as u32
    }

    /// The slot index packed into the low half.
    pub fn index(&self) -> (i: u32)
        ensures
            i == self@ % 0x1_0000_0000,
    {
        let bits: u64 = self.0;
        assert(bits & 0xffff_ffff == bits % 0x1_0000_0000) by (bit_vector);
        assert(bits & 0xffff_ffff <= 0xffff_ffff) by (bit_vector);
        (bits & 0xffff_ffff) as u32
    }
}

impl From<&Entity> for NetworkEntity {
    fn from(e: &Entity) -> (ne: NetworkEntity)
        ensures
            ne@ == pack(e.generation, e.index),
    {
        let g: u64 = e.generation as u64;
        let i: u64 = e.index as u64;
        assert((g << 32) | i == g * 0x1_0000_0000 + i) by (bit_vector)
            requires
                g <= 0xffff_ffff,
                i <= 0xffff_ffff,
        ;
        NetworkEntity((g << 32) | i)
    }
}

impl vstd::std_specs::convert::FromSpecImpl<&Entity> for NetworkEntity {
    open spec fn obeys_from_spec() -> bool {
        true
    }

    open spec fn from_spec(e: &Entity) -> NetworkEntity {
        NetworkEntity::of(*e)
    }
}

/// Two handles share a wire name only if they are the same handle.
pub proof fn lemma_wire_name_is_injective(a: Entity, b: Entity)
    requires
        NetworkEntity::of(a) == NetworkEntity::of(b),
    ensures
        a == b,
{
}

/// The wire name gives back the generation and the index it was packed from.
pub proof fn lemma_wire_name_unpacks(e: Entity)
    ensures
        NetworkEntity::of(e)@ / 0x1_0000_0000 == e.generation,
        NetworkEntity::of(e)@ % 0x1_0000_0000 == e.index,
{
}

/// A replicable component type names its wire kind.
pub trait KindId {
    const KIND_ID: u16;
}

/// The name of one player: 128 bits, compared by value.
#[derive(Clone, Copy, Debug, PartialEq, Eq, Hash, Structural)]
pub struct PlayerId(pub u128);

impl View for PlayerId {
    type V = u128;

    open spec fn view(&self) -> u128 {
        self.0
    }
}

/// The textual form of the UUID with the given 128 bits: its 32 hexadecimal
/// digits in lower case, the most significant first, in groups of 8, 4, 4, 4
/// and 12 with a hyphen between the groups.
pub open spec fn uuid_text(bits: u128) -> Seq<char> {
    Seq::new(
        36,
        |i: int|
            if i == 8 || i == 13 || i == 18 || i == 23 {
                '-'
            } else {
                let hyphens: int = if i > 23 {
                    4
                } else if i > 18 {
                    3
                } else if i > 13 {
                    2
                } else if i > 8 {
                    1
                } else {
                    0
                };
                let digit = i - hyphens;
                "0123456789abcdef"@[((bits >> (((31 - digit) * 4) as u128)) & 0xf) as int]
            },
    )
}

/// Whether the 128 bits carry the version and variant marks of a random (version 4) UUID.
pub open spec fn is_random_uuid(bits: u128) -> bool {
    bits & 0xF000_C000_0000_0000_0000 == 0x4000_8000_0000_0000_0000
}

/// Calls `uuid::Uuid::new_v4` and hands out the 128 bits of the UUID it made.
/// Trusted: the bits are random except for the version nibble, which is 4, and
/// the two variant bits, which are `10`. The call panics if the operating
/// system cannot supply random bytes.
#[verifier::external_body]
fn random_uuid() -> (bits: u128)
    ensures
        is_random_uuid(bits),
{
    uuid::Uuid::new_v4().as_u128()
}

/// Calls `uuid::Uuid::from_u128` and formats the UUID with its `Display` impl.
/// Trusted: the text is the hyphenated lower-case form of the 128 bits.
#[verifier::external_body]
fn format_uuid(bits: u128) -> (text: String)
    ensures
        text@ == uuid_text(bits),
{
    uuid::Uuid::from_u128(bits).to_string()
}

impl PlayerId {
    /// A fresh random player name.
    pub fn new() -> (id: PlayerId)
        ensures
            is_random_uuid(id@),
    {
        PlayerId(random_uuid())
    }

    /// The player name as text.
    pub fn to_string(&self) -> (text: String)
        ensures
            text@ == uuid_text(self@),
    {
        format_uuid(self.0)
    }
}

} // verus!
