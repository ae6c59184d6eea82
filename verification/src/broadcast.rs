//! The host's change detection: which component values are told to the
//! clients in a tick, and as which message.

use crate::components::Replicated;
use crate::ids::{Entity, NetworkEntity};
use crate::messages::{ServerMessage, ServerMessageView};
use crate::registry::Registry;
use vstd::prelude::*;

verus! {

/// Whether a component value is new to its entity or was replaced, since the last tick.
#[derive(Clone, Copy, Debug, PartialEq, Eq, Structural)]
pub struct ChangeTrackers {
    pub added: bool,
    pub changed: bool,
}

/// One component value of the host's state: its owner, its encoded value and
/// what happened to it since the last tick.
#[derive(Debug, PartialEq, Eq)]
pub struct Observed {
    pub entity: Entity,
    pub data: Vec<u8>,
    pub trackers: ChangeTrackers,
}

/// A observed component value as a mathematical value.
pub struct ObservedView {
    pub entity: Entity,
    pub data: Seq<u8>,
    pub trackers: ChangeTrackers,
}

impl View for Observed {
    type V = ObservedView;

    open spec fn view(&self) -> ObservedView {
        ObservedView { entity: self.entity, data: self.data@, trackers: self.trackers }
    }
}

/// One change of the host's state that every client is told of.
#[derive(Debug, PartialEq, Eq)]
pub enum Broadcast {
    /// The component of kind `component` of `entity` was replaced by the value that `data` encodes.
    ComponentChanged { entity: Entity, component: u16, data: Vec<u8> },
    /// A component of kind `component`, whose value `data` encodes, was added to `entity`.
    ComponentAdded { entity: Entity, component: u16, data: Vec<u8> },
}

/// A broadcast event as a mathematical value.
pub enum BroadcastView {
    ComponentChanged { entity: Entity, component: u16, data: Seq<u8> },
    ComponentAdded { entity: Entity, component: u16, data: Seq<u8> },
}

impl View for Broadcast {
    type V = BroadcastView;

    open spec fn view(&self) -> BroadcastView {
        match *self {
            Broadcast::ComponentChanged { entity, component, data } => {
                BroadcastView::ComponentChanged { entity, component, data: data@ }
            },
            Broadcast::ComponentAdded { entity, component, data } => BroadcastView::ComponentAdded {
                entity,
                component,
                data: data@,
            },
        }
    }
}

impl BroadcastView {
    /// The message that tells a client of the event: the same kind of event,
    /// with the entity under its wire name.
    pub open spec fn message(self) -> ServerMessageView {
        match self {
            BroadcastView::ComponentChanged { entity, component, data } => {
                ServerMessageView::ComponentChanged {
                    entity: NetworkEntity::of(entity),
                    component,
                    data,
                }
            },
            BroadcastView::ComponentAdded { entity, component, data } => {
                ServerMessageView::ComponentAdded {
                    entity: NetworkEntity::of(entity),
                    component,
                    data,
                }
            },
        }
    }
}

impl ObservedView {
    /// The event that a observed value of kind `component` gives rise to: an
    /// addition if it is new, a change if it was replaced, none otherwise.
    pub open spec fn event(self, component: u16) -> Option<BroadcastView> {
        if self.trackers.added {
            Some(BroadcastView::ComponentAdded { entity: self.entity, component, data: self.data })
        } else if self.trackers.changed {
            Some(
                BroadcastView::ComponentChanged { entity: self.entity, component, data: self.data },
            )
        } else {
            None
        }
    }
}

/// The views of a sequence of observed values, in order.
pub open spec fn observed_views(query: Seq<Observed>) -> Seq<ObservedView> {
    query.map_values(|t: Observed| t@)
}

/// The views of a sequence of broadcast events, in order.
pub open spec fn broadcast_views(broadcasts: Seq<Broadcast>) -> Seq<BroadcastView> {
    broadcasts.map_values(|b: Broadcast| b@)
}

/// The events of one tick for the values `query` of kind `component`: one per
/// value that is new or was replaced, in the order of `query`.
pub open spec fn detect(query: Seq<ObservedView>, component: u16) -> Seq<BroadcastView> {
    query.filter_map(|t: ObservedView| t.event(component))
}

/// The messages that tell of the events `broadcasts`, in order.
pub open spec fn messages(broadcasts: Seq<BroadcastView>) -> Seq<ServerMessageView> {
    broadcasts.map_values(|b: BroadcastView| b.message())
}

impl Broadcast {
    /// The message that tells a client of this event.
    pub fn to_message(&self) -> (message: ServerMessage)
        ensures
            message@ == self@.message(),
    {
        match self {
            Broadcast::ComponentChanged { entity, component, data } => {
                ServerMessage::ComponentChanged {
                    entity: NetworkEntity::from(entity),
                    component: *component,
                    data: data.clone(),
                }
            },
            Broadcast::ComponentAdded { entity, component, data } => ServerMessage::ComponentAdded {
                entity: NetworkEntity::from(entity),
                component: *component,
                data: data.clone(),
            },
        }
    }
}

/// Scans the values of component type `T` and appends to `broadcasts` one
/// event for each that is new or was replaced since the last tick. The type
/// must be registered.
pub fn networked<T: Replicated>(
    query: &Vec<Observed>,
    registry: &Registry,
    broadcasts: &mut Vec<Broadcast>,
)
    requires
        registry.wf(),
        registry.kind_of(T::type_key_spec()) is Some,
    ensures
        broadcast_views(final(broadcasts)@) == broadcast_views(old(broadcasts)@) + detect(
            observed_views(query@),
            registry.kind_of(T::type_key_spec()).unwrap(),
        ),
{
    let component = match registry.resolve_kind(T::type_key()) {
        Some(component) => component,
        None => {
            return ;
        },
    };
    let ghost all = observed_views(query@);
    let ghost event = |t: ObservedView| t.event(component);
    let mut i: usize = 0;
    assert(all.take(0).filter_map(event) =~= Seq::<BroadcastView>::empty());
    while i < query.len()
        invariant
            i <= query.len(),
            all == observed_views(query@),
            event == |t: ObservedView| t.event(component),
            broadcast_views(broadcasts@) == broadcast_views(old(broadcasts)@) + all.take(
                i as int,
            ).filter_map(event),
        decreases query.len() - i,
    {
        let observed = &query[i];
        let ghost sent = broadcast_views(broadcasts@);
        proof {
            all.lemma_filter_map_take_succ(event, i as int);
            assert(all[i as int] == observed@);
        }
        if observed.trackers.added {
            broadcasts.push(
                Broadcast::ComponentAdded {
                    entity: observed.entity,
                    component,
                    data: observed.data.clone(),
                },
            );
        } else if observed.trackers.changed {
            broadcasts.push(
                Broadcast::ComponentChanged {
                    entity: observed.entity,
                    component,
                    data: observed.data.clone(),
                },
            );
        }
        assert(broadcast_views(broadcasts@) =~= sent + match event(observed@) {
            Some(b) => seq![b],
            None => Seq::empty(),
        });
        i += 1;
    }
    assert(all.take(query.len() as int) =~= all);
}

} // verus!
