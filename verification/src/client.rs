//! The client's resolver: it turns the host's messages into entities and
//! component values of the local store.

use crate::ids::{is_random_uuid, Entity, NetworkEntity, PlayerId};
use crate::messages::{PlayerMessage, ServerMessage, ServerMessageView};
use crate::registry::{Registry, TypeKey};
use crate::world::{first_named, handle, is_handle, lemma_first_named, EntityView, World};
use futures::channel::mpsc::{channel, Receiver, Sender};
use std::collections::HashMap;
use vstd::prelude::*;

verus! {

broadcast use vstd::std_specs::hash::group_hash_axioms;

/// What the resolver did with one message.
#[derive(Clone, Copy, Debug, PartialEq, Eq, Structural)]
pub enum Resolution {
    /// The message carries no component value; nothing was done.
    Ignored,
    /// The kind id names no registered type; the message was dropped.
    UnknownKind { kind: u16 },
    /// The store cannot hold another entity; the message was dropped.
    StoreFull,
    /// The value was stored as the component of type `ty` of `entity`.
    Applied { entity: Entity, ty: TypeKey },
}

/// The state of a client as a mathematical value.
pub struct ClientView {
    /// The local entity that stands for each wire name seen so far.
    pub lookup: Map<NetworkEntity, Entity>,
    /// The local store.
    pub world: Seq<EntityView>,
}

impl ClientView {
    /// The store fits its handles, and every wire name seen leads to an entity of the store.
    pub open spec fn wf(self) -> bool {
        &&& self.world.len() <= 0x1_0000_0000
        &&& forall|ne: NetworkEntity| #[trigger]
            self.lookup.contains_key(ne) ==> is_handle(self.lookup[ne], self.world.len())
    }

    /// The local entity for the wire name `ne`, and the state once it is
    /// known: the one seen before; else the first entity of the store that
    /// carries the name; else a new entity that carries it. `None`, and the
    /// state as it was, when a new entity is needed and the store is full.
    pub open spec fn find_entity(self, ne: NetworkEntity) -> (ClientView, Option<Entity>) {
        if self.lookup.contains_key(ne) {
            (self, Some(self.lookup[ne]))
        } else {
            match first_named(self.world, ne, 0) {
                Some(i) => (
                    ClientView { lookup: self.lookup.insert(ne, handle(i)), world: self.world },
                    Some(handle(i)),
                ),
                None => if self.world.len() < 0x1_0000_0000 {
                    (
                        ClientView {
                            lookup: self.lookup.insert(ne, handle(self.world.len() as int)),
                            world: self.world.push(
                                EntityView { network: Some(ne), components: Map::empty() },
                            ),
                        },
                        Some(handle(self.world.len() as int)),
                    )
                } else {
                    (self, None)
                },
            }
        }
    }

    /// The state in which the component of type `ty` of entity `e` is `data`.
    pub open spec fn set(self, e: Entity, ty: TypeKey, data: Seq<u8>) -> ClientView {
        ClientView {
            lookup: self.lookup,
            world: self.world.update(
                e.index as int,
                EntityView {
                    network: self.world[e.index as int].network,
                    components: self.world[e.index as int].components.insert(ty, data),
                },
            ),
        }
    }

    /// What the resolver does with the message `m`.
    pub open spec fn resolution(self, registry: Map<u16, TypeKey>, m: ServerMessageView) -> Resolution {
        if !m.is_update() {
            Resolution::Ignored
        } else if !registry.contains_key(m.update_kind()) {
            Resolution::UnknownKind { kind: m.update_kind() }
        } else {
            match self.find_entity(m.update_entity()).1 {
                Some(entity) => Resolution::Applied { entity, ty: registry[m.update_kind()] },
                None => Resolution::StoreFull,
            }
        }
    }

    /// The state after the message `m`: an update of a registered kind is
    /// stored with the entity that stands for its wire name; every other
    /// message leaves the state as it is.
    pub open spec fn apply(self, registry: Map<u16, TypeKey>, m: ServerMessageView) -> ClientView {
        match self.resolution(registry, m) {
            Resolution::Applied { entity, ty } => self.find_entity(m.update_entity()).0.set(
                entity,
                ty,
                m.update_data(),
            ),
            _ => self,
        }
    }

    /// The state after the messages `ms`, applied oldest first.
    pub open spec fn apply_all(self, registry: Map<u16, TypeKey>, ms: Seq<ServerMessageView>) -> ClientView
        decreases ms.len(),
    {
        if ms.len() == 0 {
            self
        } else {
            self.apply_all(registry, ms.drop_last()).apply(registry, ms.last())
        }
    }
}

/// Finding the entity for a wire name keeps the state well formed, and the
/// entity it gives is one of the store.
pub proof fn lemma_find_entity_wf(s: ClientView, ne: NetworkEntity)
    requires
        s.wf(),
    ensures
        s.find_entity(ne).0.wf(),
        s.find_entity(ne).1 matches Some(e) ==> is_handle(e, s.find_entity(ne).0.world.len())
            && s.find_entity(ne).0.lookup.contains_key(ne) && s.find_entity(ne).0.lookup[ne] == e,
{
    lemma_first_named(s.world, ne, 0);
}

/// Every message leaves a well-formed state well formed.
pub proof fn lemma_apply_wf(s: ClientView, registry: Map<u16, TypeKey>, m: ServerMessageView)
    requires
        s.wf(),
    ensures
        s.apply(registry, m).wf(),
{
    lemma_find_entity_wf(s, m.update_entity());
}

/// Applying one update twice leaves the state that applying it once leaves.
pub proof fn lemma_apply_is_idempotent(s: ClientView, registry: Map<u16, TypeKey>, m: ServerMessageView)
    requires
        s.wf(),
    ensures
        s.apply(registry, m).apply(registry, m) == s.apply(registry, m),
{
    let once = s.apply(registry, m);
    lemma_find_entity_wf(s, m.update_entity());
    if let Resolution::Applied { entity, ty } = s.resolution(registry, m) {
        let i = entity.index as int;
        let again = once.set(entity, ty, m.update_data());
        assert(once.find_entity(m.update_entity()) == (once, Some(entity)));
        assert(once.world[i].components.insert(ty, m.update_data()) =~= once.world[i].components);
        assert(again.world =~= once.world);
    }
}

/// A message whose kind id is not registered changes nothing.
pub proof fn lemma_unregistered_kind_is_dropped(
    s: ClientView,
    registry: Map<u16, TypeKey>,
    m: ServerMessageView,
)
    requires
        m.is_update(),
        !registry.contains_key(m.update_kind()),
    ensures
        s.apply(registry, m) == s,
        s.resolution(registry, m) == (Resolution::UnknownKind { kind: m.update_kind() }),
{
}

/// A wire name that has a local entity keeps that entity, whatever message follows.
pub proof fn lemma_mapping_survives_a_message(
    s: ClientView,
    registry: Map<u16, TypeKey>,
    m: ServerMessageView,
    ne: NetworkEntity,
)
    requires
        s.wf(),
        s.lookup.contains_key(ne),
    ensures
        s.apply(registry, m).lookup.contains_key(ne),
        s.apply(registry, m).lookup[ne] == s.lookup[ne],
{
}

/// A wire name that has a local entity keeps that entity through any run of messages.
pub proof fn lemma_mapping_survives(
    s: ClientView,
    registry: Map<u16, TypeKey>,
    ms: Seq<ServerMessageView>,
    ne: NetworkEntity,
)
    requires
        s.wf(),
        s.lookup.contains_key(ne),
    ensures
        s.apply_all(registry, ms).wf(),
        s.apply_all(registry, ms).lookup.contains_key(ne),
        s.apply_all(registry, ms).lookup[ne] == s.lookup[ne],
    decreases ms.len(),
{
    if ms.len() > 0 {
        lemma_mapping_survives(s, registry, ms.drop_last(), ne);
        let before = s.apply_all(registry, ms.drop_last());
        lemma_apply_wf(before, registry, ms.last());
        lemma_mapping_survives_a_message(before, registry, ms.last(), ne);
    }
}

/// Two updates that speak of one wire name are stored with one local entity,
/// whatever messages arrive between them.
pub proof fn lemma_entity_mapping_is_stable(
    s: ClientView,
    registry: Map<u16, TypeKey>,
    first: ServerMessageView,
    between: Seq<ServerMessageView>,
    second: ServerMessageView,
)
    requires
        s.wf(),
        first.is_update(),
        second.is_update(),
        first.update_entity() == second.update_entity(),
        registry.contains_key(second.update_kind()),
        s.resolution(registry, first) is Applied,
    ensures
        s.apply(registry, first).apply_all(registry, between).resolution(registry, second)
            matches Resolution::Applied { entity, .. } && entity == s.resolution(
            registry,
            first,
        )->entity,
{
    let ne = first.update_entity();
    lemma_find_entity_wf(s, ne);
    lemma_apply_wf(s, registry, first);
    lemma_mapping_survives(s.apply(registry, first), registry, between, ne);
}

/// The state of a client: the local entity of each wire name seen, and the store.
pub struct ClientState {
    entity_lookup: HashMap<u64, Entity>,
    world: World,
}

impl View for ClientState {
    type V = ClientView;

    closed spec fn view(&self) -> ClientView {
        ClientView {
            lookup: Map::new(
                |ne: NetworkEntity| self.entity_lookup@.contains_key(ne.0),
                |ne: NetworkEntity| self.entity_lookup@[ne.0],
            ),
            world: self.world@,
        }
    }
}

impl ClientState {
    /// The invariant of the state.
    pub closed spec fn wf(&self) -> bool {
        self.world.wf() && self@.wf()
    }

    /// A client that has seen no wire name and holds no entity.
    pub fn new() -> (state: ClientState)
        ensures
            state.wf(),
            state@.lookup == Map::<NetworkEntity, Entity>::empty(),
            state@.world == Seq::<EntityView>::empty(),
    {
        let state = ClientState { entity_lookup: HashMap::new(), world: World::new() };
        assert(state@.lookup =~= Map::<NetworkEntity, Entity>::empty());
        state
    }

    /// The store.
    pub fn world(&self) -> (world: &World)
        ensures
            world@ == self@.world,
    {
        &self.world
    }

    /// The local entity that stands for the wire name `ne`, if the name was seen.
    pub fn lookup(&self, ne: NetworkEntity) -> (r: Option<Entity>)
        ensures
            r == if self@.lookup.contains_key(ne) {
                Some(self@.lookup[ne])
            } else {
                None
            },
    {
        match self.entity_lookup.get(&ne.0) {
            Some(e) => Some(*e),
            None => None,
        }
    }

    /// The number of wire names seen.
    pub fn known_entities(&self) -> (n: usize)
        ensures
            n == self@.lookup.len(),
    {
        proof {
            assert(self@.lookup.dom() =~= self.entity_lookup@.dom().map(|k: u64| NetworkEntity(k))) by {
                assert forall|ne: NetworkEntity|
                    self.entity_lookup@.dom().map(|k: u64| NetworkEntity(k)).contains(ne)
                        implies self@.lookup.dom().contains(ne) by {
                    let k = choose|k: u64|
                        self.entity_lookup@.dom().contains(k) && NetworkEntity(k) == ne;
                    assert(ne.0 == k);
                }
                assert forall|ne: NetworkEntity| self@.lookup.dom().contains(ne) implies
                    self.entity_lookup@.dom().map(|k: u64| NetworkEntity(k)).contains(ne) by {
                    assert(self.entity_lookup@.dom().contains(ne.0));
                    assert(NetworkEntity(ne.0) == ne);
                }
            }
            vstd::set_lib::lemma_map_size(
                self.entity_lookup@.dom(),
                self@.lookup.dom(),
                |k: u64| NetworkEntity(k),
            );
        }
        self.entity_lookup.len()
    }

    /// Adds an entity to the store that no message asked for, with the wire
    /// name `network` if one is given. Nothing is added when the store is full.
    pub fn spawn(&mut self, network: Option<NetworkEntity>) -> (r: Option<Entity>)
        requires
            old(self).wf(),
        ensures
            final(self).wf(),
            final(self)@.lookup == old(self)@.lookup,
            old(self)@.world.len() < 0x1_0000_0000 ==> r == Some(
                handle(old(self)@.world.len() as int),
            ) && final(self)@.world == old(self)@.world.push(
                EntityView { network, components: Map::empty() },
            ),
            old(self)@.world.len() >= 0x1_0000_0000 ==> r is None && final(self)@ == old(self)@,
    {
        let r = self.world.spawn(network);
        assert(self@.lookup =~= old(self)@.lookup);
        r
    }

    /// Finds the local entity for the wire name `ne`, making one if there is none.
    pub fn find_entity(&mut self, ne: NetworkEntity) -> (r: Option<Entity>)
        requires
            old(self).wf(),
        ensures
            final(self).wf(),
            (final(self)@, r) == old(self)@.find_entity(ne),
    {
        proof {
            lemma_find_entity_wf(self@, ne);
            lemma_first_named(self@.world, ne, 0);
        }
        match self.entity_lookup.get(&ne.0) {
            Some(e) => {
                return Some(*e);
            },
            None => {},
        }
        let entity = match self.world.find(ne) {
            Some(e) => e,
            None => match self.world.spawn(Some(ne)) {
                Some(e) => e,
                None => {
                    return None;
                },
            },
        };
        self.entity_lookup.insert(ne.0, entity);
        assert(self@.lookup =~= old(self)@.find_entity(ne).0.lookup);
        Some(entity)
    }

    /// Resolves one message of the host into the store.
    pub fn apply(&mut self, registry: &Registry, message: &ServerMessage) -> (r: Resolution)
        requires
            old(self).wf(),
            registry.wf(),
        ensures
            final(self).wf(),
            final(self)@ == old(self)@.apply(registry@, message@),
            r == old(self)@.resolution(registry@, message@),
    {
        proof {
            lemma_apply_wf(self@, registry@, message@);
            lemma_find_entity_wf(self@, message@.update_entity());
        }
        let (entity, component, data) = match message {
            ServerMessage::ComponentAdded { entity, component, data } => (*entity, *component, data),
            ServerMessage::ComponentChanged { entity, component, data } => (
                *entity,
                *component,
                data,
            ),
            _ => {
                return Resolution::Ignored;
            },
        };
        let ty = match registry.resolve_type(component) {
            Some(ty) => ty,
            None => {
                return Resolution::UnknownKind { kind: component };
            },
        };
        let local = match self.find_entity(entity) {
            Some(local) => local,
            None => {
                return Resolution::StoreFull;
            },
        };
        let stored = self.world.insert(local, ty, data.clone());
        assert(stored);
        Resolution::Applied { entity: local, ty }
    }
}

/// How many messages each queue of a client buffers.
pub const CLIENT_CHANNEL_SIZE: usize = 512;

/// What a client starts with: a name of its own, the queue of the messages
/// it will send and the queue of the messages it receives.
pub struct ClientQueues {
    pub player_id: PlayerId,
    pub player_message_sender: Sender<PlayerMessage>,
    pub player_message_receiver: Receiver<PlayerMessage>,
    pub server_message_sender: Sender<ServerMessage>,
    pub server_message_receiver: Receiver<ServerMessage>,
}

/// Makes the queues of a client and draws its name.
pub fn client_queues() -> (queues: ClientQueues)
    ensures
        is_random_uuid(queues.player_id@),
{
    let (player_message_sender, player_message_receiver) = channel::<PlayerMessage>(
        CLIENT_CHANNEL_SIZE,
    );
    let (server_message_sender, server_message_receiver) = channel::<ServerMessage>(
        CLIENT_CHANNEL_SIZE,
    );
    let player_id = PlayerId::new();
    ClientQueues {
        player_id,
        player_message_sender,
        player_message_receiver,
        server_message_sender,
        server_message_receiver,
    }
}

/// A message taken from the inbound queue, and what the resolver did with it.
#[derive(Debug, PartialEq, Eq)]
pub struct Received {
    pub message: ServerMessage,
    pub resolution: Resolution,
}

/// The messages of what was taken from the inbound queue, in order.
pub open spec fn received_messages(received: Seq<Received>) -> Seq<ServerMessageView> {
    received.map_values(|r: Received| r.message@)
}

/// Takes messages off the inbound queue until it gives none and resolves each
/// into the store, oldest first. Hands out exactly the messages taken off, each
/// with what was done with it. A message that is dropped does not stop the others.
pub fn handle_server_message(
    state: &mut ClientState,
    registry: &Registry,
    receiver: &mut Receiver<ServerMessage>,
) -> (received: Vec<Received>)
    requires
        old(state).wf(),
        registry.wf(),
    ensures
        final(state).wf(),
        crate::channel::taken(*final(receiver)) == crate::channel::taken(*old(receiver))
            + received_messages(received@),
        final(state)@ == old(state)@.apply_all(registry@, received_messages(received@)),
        forall|i: int|
            0 <= i < received@.len() ==> (#[trigger] received@[i]).resolution == old(
                state,
            )@.apply_all(registry@, received_messages(received@).take(i)).resolution(
                registry@,
                received@[i].message@,
            ),
{
    let mut received: Vec<Received> = Vec::new();
    assert(crate::channel::taken(*receiver) + received_messages(received@)
        =~= crate::channel::taken(*receiver));
    while received.len() < usize::MAX
        invariant
            state.wf(),
            registry.wf(),
            crate::channel::taken(*receiver) == crate::channel::taken(*old(receiver))
                + received_messages(received@),
            state@ == old(state)@.apply_all(registry@, received_messages(received@)),
            forall|i: int|
                0 <= i < received@.len() ==> (#[trigger] received@[i]).resolution == old(
                    state,
                )@.apply_all(registry@, received_messages(received@).take(i)).resolution(
                    registry@,
                    received@[i].message@,
                ),
        decreases usize::MAX - received.len(),
    {
        match crate::channel::try_recv(receiver) {
            Ok(message) => {
                let resolution = state.apply(registry, &message);
                let ghost before = received@;
                received.push(Received { message, resolution });
                proof {
                    let now = received_messages(received@);
                    assert(now =~= received_messages(before).push(received@.last().message@));
                    assert(now.drop_last() =~= received_messages(before));
                    assert(now.take(before.len() as int) =~= received_messages(before));
                    assert forall|i: int| 0 <= i < before.len() implies now.take(i)
                        =~= received_messages(before).take(i) by {}
                }
            },
            Err(_) => {
                break ;
            },
        }
    }
    received
}

} // verus!
