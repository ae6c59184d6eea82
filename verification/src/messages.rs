//! The messages that travel between the host and its clients, one per frame.

use crate::ids::{NetworkEntity, PlayerId};
use vstd::prelude::*;

verus! {

/// What a client tells the host.
#[derive(Clone, Copy, Debug, PartialEq, Eq, Structural)]
pub enum PlayerMessage {
    /// The first message of a session: the player names itself.
    Hello { my_id: PlayerId },
}

/// What the host tells a client.
#[derive(Debug, PartialEq, Eq)]
pub enum ServerMessage {
    /// The players present when the client joined.
    Welcome { players: Vec<PlayerId> },
    /// A snapshot of the world as bytes, and the players present.
    Refresh { world: Vec<u8>, players: Vec<PlayerId> },
    /// A component of kind `component` was added to `entity`; `data` is its encoded value.
    ComponentAdded { entity: NetworkEntity, component: u16, data: Vec<u8> },
    /// The component of kind `component` of `entity` was replaced; `data` is its encoded value.
    ComponentChanged { entity: NetworkEntity, component: u16, data: Vec<u8> },
}

/// A host message as a mathematical value.
pub enum ServerMessageView {
    Welcome { players: Seq<PlayerId> },
    Refresh { world: Seq<u8>, players: Seq<PlayerId> },
    ComponentAdded { entity: NetworkEntity, component: u16, data: Seq<u8> },
    ComponentChanged { entity: NetworkEntity, component: u16, data: Seq<u8> },
}

impl View for ServerMessage {
    type V = ServerMessageView;

    open spec fn view(&self) -> ServerMessageView {
        match *self {
            ServerMessage::Welcome { players } => ServerMessageView::Welcome { players: players@ },
            ServerMessage::Refresh { world, players } => ServerMessageView::Refresh {
                world: world@,
                players: players@,
            },
            ServerMessage::ComponentAdded { entity, component, data } => {
                ServerMessageView::ComponentAdded { entity, component, data: data@ }
            },
            ServerMessage::ComponentChanged { entity, component, data } => {
                ServerMessageView::ComponentChanged { entity, component, data: data@ }
            },
        }
    }
}

impl Clone for ServerMessage {
    fn clone(&self) -> (copy: ServerMessage)
        ensures
            copy@ == self@,
    {
        match self {
            ServerMessage::Welcome { players } => {
                let copy = ServerMessage::Welcome { players: players.clone() };
                assert(copy@ =~= self@);
                copy
            },
            ServerMessage::Refresh { world, players } => {
                let copy = ServerMessage::Refresh { world: world.clone(), players: players.clone() };
                assert(copy@ =~= self@);
                copy
            },
            ServerMessage::ComponentAdded { entity, component, data } => {
                let copy = ServerMessage::ComponentAdded {
                    entity: *entity,
                    component: *component,
                    data: data.clone(),
                };
                assert(copy@ =~= self@);
                copy
            },
            ServerMessage::ComponentChanged { entity, component, data } => {
                let copy = ServerMessage::ComponentChanged {
                    entity: *entity,
                    component: *component,
                    data: data.clone(),
                };
                assert(copy@ =~= self@);
                copy
            },
        }
    }
}

impl ServerMessageView {
    /// Whether the message carries a component value for an entity.
    pub open spec fn is_update(self) -> bool {
        self is ComponentAdded || self is ComponentChanged
    }

    /// The entity that an update speaks of.
    pub open spec fn update_entity(self) -> NetworkEntity {
        match self {
            ServerMessageView::ComponentAdded { entity, .. } => entity,
            ServerMessageView::ComponentChanged { entity, .. } => entity,
            _ => NetworkEntity(0),
        }
    }

    /// The kind id that an update carries.
    pub open spec fn update_kind(self) -> u16 {
        match self {
            ServerMessageView::ComponentAdded { component, .. } => component,
            ServerMessageView::ComponentChanged { component, .. } => component,
            _ => 0,
        }
    }

    /// The encoded value that an update carries.
    pub open spec fn update_data(self) -> Seq<u8> {
        match self {
            ServerMessageView::ComponentAdded { data, .. } => data,
            ServerMessageView::ComponentChanged { data, .. } => data,
            _ => Seq::empty(),
        }
    }
}

} // verus!
