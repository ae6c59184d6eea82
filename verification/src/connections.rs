//! The host's connection manager: one bounded outbound queue per open
//! connection, and the fan-out of a tick's events to all of them.

use crate::broadcast::{broadcast_views, messages, Broadcast};
use crate::channel::{accepted, max_buffer, try_send};
use crate::messages::{PlayerMessage, ServerMessage, ServerMessageView};
use futures::channel::mpsc::{channel, Receiver, Sender};
use vstd::prelude::*;

verus! {

/// Where the host listens, how many messages each of its queues buffers and
/// how many ticks its simulation makes in a second.
#[derive(Debug)]
pub struct ServerSettings {
    pub ip_address: String,
    pub channel_size: usize,
    pub tick_rate: u32,
}

impl Default for ServerSettings {
    fn default() -> (settings: ServerSettings)
        ensures
            settings.ip_address@ == "127.0.0.1:13037"@,
            settings.channel_size == 1024,
            settings.tick_rate == 30,
    {
        ServerSettings {
            ip_address: "127.0.0.1:13037".to_string(),
            channel_size: 1024,
            tick_rate: 30,
        }
    }
}

/// The settings that no host can run with.
#[derive(Clone, Copy, Debug, PartialEq, Eq, Structural)]
pub enum SettingsError {
    /// The queues cannot buffer as many messages as `channel_size` asks for.
    ChannelTooLarge,
    /// A simulation that makes no tick in a second never runs.
    NoTicks,
}

impl ServerSettings {
    /// What is wrong with the settings, if anything: the buffer size first.
    pub open spec fn fault(&self) -> Option<SettingsError> {
        if self.channel_size >= max_buffer() {
            Some(SettingsError::ChannelTooLarge)
        } else if self.tick_rate == 0 {
            Some(SettingsError::NoTicks)
        } else {
            None
        }
    }

    /// Checks that a host can run with the settings.
    pub fn check(&self) -> (r: Result<(), SettingsError>)
        ensures
            r == match self.fault() {
                Some(e) => Err::<(), SettingsError>(e),
                None => Ok(()),
            },
    {
        if self.channel_size >= usize::MAX / 4 {
            Err(SettingsError::ChannelTooLarge)
        } else if self.tick_rate == 0 {
            Err(SettingsError::NoTicks)
        } else {
            Ok(())
        }
    }

    /// The time from one tick to the next, in nanoseconds, rounded down.
    /// `None` if the simulation makes no tick.
    pub fn tick_nanos(&self) -> (r: Option<u64>)
        ensures
            r == if self.tick_rate == 0 {
                None
            } else {
                Some((1_000_000_000int / self.tick_rate as int) as u64)
            },
    {
        if self.tick_rate == 0 {
            None
        } else {
            Some(1_000_000_000u64 / (self.tick_rate as u64))
        }
    }
}

/// Why a connection's queue took no message.
#[derive(Clone, Copy, Debug, PartialEq, Eq, Structural)]
pub enum SendFailure {
    /// The queue was at capacity.
    Full,
    /// The task that reads the queue is gone.
    Disconnected,
}

/// A connection that a fan-out tore down.
#[derive(Clone, Copy, Debug, PartialEq, Eq, Structural)]
pub struct Closed {
    pub connection_id: u64,
    pub reason: SendFailure,
}

/// The ids of the connections that a fan-out tore down, in the order in which it did.
pub open spec fn closed_ids(closed: Seq<Closed>) -> Seq<u64> {
    closed.map_values(|c: Closed| c.connection_id)
}

/// The queues after a fan-out of `sent` in which the connections `torn_down`
/// were closed: every other connection is still open, and its queue has
/// accepted all of `sent`, in order, behind what it had accepted before.
pub open spec fn fan_out(
    queues: Map<u64, Seq<ServerMessageView>>,
    sent: Seq<ServerMessageView>,
    torn_down: Set<u64>,
) -> Map<u64, Seq<ServerMessageView>> {
    Map::new(
        |id: u64| queues.contains_key(id) && !torn_down.contains(id),
        |id: u64| queues[id] + sent,
    )
}

/// What a fan-out does to one connection does not depend on which other
/// connections it tears down: a connection that is not torn down gets every
/// message, whatever happens to the rest.
pub proof fn lemma_fan_out_isolates(
    queues: Map<u64, Seq<ServerMessageView>>,
    sent: Seq<ServerMessageView>,
    torn_down: Set<u64>,
    others: Set<u64>,
    id: u64,
)
    requires
        queues.contains_key(id),
        !torn_down.contains(id),
        !others.contains(id),
    ensures
        fan_out(queues, sent, torn_down).contains_key(id),
        fan_out(queues, sent, torn_down)[id] == queues[id] + sent,
        fan_out(queues, sent, torn_down)[id] == fan_out(queues, sent, others)[id],
{
}

/// One open connection: its id and the sending half of its outbound queue.
struct Connection {
    id: u64,
    sender: Sender<ServerMessage>,
}

/// Whether a connection with the id is among `connections`.
spec fn holds(connections: Seq<Connection>, id: u64) -> bool {
    exists|j: int| 0 <= j < connections.len() && #[trigger] connections[j].id == id
}

/// The position of the connection with the id.
spec fn slot(connections: Seq<Connection>, id: u64) -> int {
    choose|j: int| 0 <= j < connections.len() && #[trigger] connections[j].id == id
}

/// No two connections share an id.
spec fn distinct(connections: Seq<Connection>) -> bool {
    forall|i: int, j: int|
        0 <= i < connections.len() && 0 <= j < connections.len() && i != j ==> #[trigger]
            connections[i].id != #[trigger] connections[j].id
}

/// What each connection's queue has accepted, by connection id.
spec fn queues(connections: Seq<Connection>) -> Map<u64, Seq<ServerMessageView>> {
    Map::new(
        |id: u64| holds(connections, id),
        |id: u64| accepted(connections[slot(connections, id)].sender),
    )
}

proof fn lemma_slot(connections: Seq<Connection>, j: int)
    requires
        distinct(connections),
        0 <= j < connections.len(),
    ensures
        holds(connections, connections[j].id),
        slot(connections, connections[j].id) == j,
        queues(connections).contains_key(connections[j].id),
        queues(connections)[connections[j].id] == accepted(connections[j].sender),
{
}

proof fn lemma_without(connections: Seq<Connection>, j: int)
    requires
        distinct(connections),
        0 <= j < connections.len(),
    ensures
        distinct(connections.remove(j)),
        !holds(connections.remove(j), connections[j].id),
        forall|id: u64|
            id != connections[j].id ==> (holds(connections.remove(j), id) <==> holds(connections, id)),
        queues(connections.remove(j)) == queues(connections).remove(connections[j].id),
{
    let rest = connections.remove(j);
    assert forall|id: u64| id != connections[j].id && holds(connections, id) implies holds(
        rest,
        id,
    ) by {
        let k = slot(connections, id);
        if k < j {
            assert(rest[k].id == id);
        } else {
            assert(rest[k - 1].id == id);
        }
    }
    assert forall|id: u64| holds(rest, id) implies holds(connections, id) && id != connections[j].id by {
        let k = slot(rest, id);
        if k < j {
            assert(connections[k].id == id);
        } else {
            assert(connections[k + 1].id == id);
        }
    }
    assert forall|id: u64| holds(rest, id) implies queues(rest)[id] == queues(connections)[id] by {
        let k = slot(rest, id);
        if k < j {
            lemma_slot(connections, k);
        } else {
            lemma_slot(connections, k + 1);
        }
    }
    assert(queues(rest) =~= queues(connections).remove(connections[j].id));
}

/// The open connections of the host, each with its outbound queue, and the
/// id that the next connection gets.
pub struct ConnectionManager {
    connections: Vec<Connection>,
    next_connection_id: u64,
    channel_size: usize,
}

impl View for ConnectionManager {
    type V = Map<u64, Seq<ServerMessageView>>;

    /// What the queue of each open connection has accepted, by connection id.
    closed spec fn view(&self) -> Map<u64, Seq<ServerMessageView>> {
        queues(self.connections@)
    }
}

impl ConnectionManager {
    /// The id that the next connection gets.
    pub closed spec fn next_id(&self) -> u64 {
        self.next_connection_id
    }

    /// How many messages each outbound queue buffers.
    pub closed spec fn buffer(&self) -> usize {
        self.channel_size
    }

    /// Connection ids are unique and below the next id; the buffer size is one a queue can have.
    pub closed spec fn wf(&self) -> bool {
        &&& distinct(self.connections@)
        &&& forall|j: int|
            0 <= j < self.connections@.len() ==> #[trigger] self.connections@[j].id
                < self.next_connection_id
        &&& self.channel_size < max_buffer()
    }

    /// Every open connection has an id below the next id.
    pub proof fn lemma_ids_are_below_next(&self, id: u64)
        requires
            self.wf(),
            self@.contains_key(id),
        ensures
            id < self.next_id(),
    {
        let j = slot(self.connections@, id);
        assert(self.connections@[j].id == id);
    }

    /// A manager without connections, whose first connection gets the id 0.
    /// Settings with a fault are refused.
    pub fn new(settings: &ServerSettings) -> (r: Result<ConnectionManager, SettingsError>)
        ensures
            r is Ok <==> settings.fault() is None,
            r matches Ok(manager) ==> manager.wf() && manager@ == Map::<
                u64,
                Seq<ServerMessageView>,
            >::empty() && manager.next_id() == 0 && manager.buffer() == settings.channel_size,
            r matches Err(e) ==> settings.fault() == Some(e),
    {
        match settings.check() {
            Ok(()) => {},
            Err(e) => {
                return Err(e);
            },
        }
        let manager = ConnectionManager {
            connections: Vec::new(),
            next_connection_id: 0,
            channel_size: settings.channel_size,
        };
        assert(manager@ =~= Map::<u64, Seq<ServerMessageView>>::empty());
        Ok(manager)
    }

    /// The number of open connections.
    pub fn len(&self) -> (n: usize)
        requires
            self.wf(),
        ensures
            n == self@.len(),
    {
        proof {
            self.lemma_len(self.connections@.len() as int);
            assert(self.connections@.take(self.connections@.len() as int) =~= self.connections@);
        }
        self.connections.len()
    }

    proof fn lemma_len(&self, n: int)
        requires
            self.wf(),
            0 <= n <= self.connections@.len(),
        ensures
            queues(self.connections@.take(n)).dom().finite(),
            queues(self.connections@.take(n)).dom().len() == n,
        decreases n,
    {
        let part = self.connections@.take(n);
        if n == 0 {
            assert(queues(part).dom() =~= Set::<u64>::empty());
        } else {
            self.lemma_len(n - 1);
            let less = self.connections@.take(n - 1);
            let id = self.connections@[n - 1].id;
            assert(part[n - 1].id == id);
            assert forall|x: u64| holds(less, x) implies holds(part, x) && x != id by {
                let k = slot(less, x);
                assert(part[k].id == x);
            }
            assert forall|x: u64| holds(part, x) && x != id implies holds(less, x) by {
                let k = slot(part, x);
                assert(less[k].id == x);
            }
            assert(queues(part).dom() =~= queues(less).dom().insert(id));
        }
    }

    /// Whether the connection with the id is open.
    pub fn is_open(&self, id: u64) -> (open: bool)
        ensures
            open == self@.contains_key(id),
    {
        let mut i: usize = 0;
        while i < self.connections.len()
            invariant
                i <= self.connections.len(),
                forall|j: int| 0 <= j < i ==> self.connections@[j].id != id,
            decreases self.connections.len() - i,
        {
            if self.connections[i].id == id {
                return true;
            }
            i += 1;
        }
        false
    }

    /// Opens a connection: it gets the next id and a new outbound queue, whose
    /// receiving half is handed out with the id. No connection is opened once
    /// the ids are used up.
    pub fn accept(&mut self) -> (r: Option<(u64, Receiver<ServerMessage>)>)
        requires
            old(self).wf(),
        ensures
            final(self).wf(),
            final(self).buffer() == old(self).buffer(),
            r is Some <==> old(self).next_id() < u64::MAX,
            r matches Some((id, _)) ==> id == old(self).next_id() && final(self).next_id() == id + 1
                && !old(self)@.contains_key(id) && final(self)@.contains_key(id)
                && final(self)@.remove(id) == old(self)@,
            r is None ==> final(self)@ == old(self)@ && final(self).next_id() == old(self).next_id(),
    {
        if self.next_connection_id == u64::MAX {
            return None;
        }
        let connection_id = self.next_connection_id;
        self.next_connection_id = connection_id + 1;
        let (sender, receiver) = channel::<ServerMessage>(self.channel_size);
        self.connections.push(Connection { id: connection_id, sender });
        proof {
            let before = old(self).connections@;
            let after = self.connections@;
            let last = before.len() as int;
            assert(after[last].id == connection_id);
            assert(!holds(before, connection_id));
            assert(after.remove(last) =~= before);
            lemma_slot(after, last);
            lemma_without(after, last);
        }
        Some((connection_id, receiver))
    }

    /// Tears down the connection with the id, if it is open, and drops its queue.
    pub fn close(&mut self, id: u64) -> (was_open: bool)
        requires
            old(self).wf(),
        ensures
            final(self).wf(),
            final(self).next_id() == old(self).next_id(),
            final(self).buffer() == old(self).buffer(),
            was_open == old(self)@.contains_key(id),
            final(self)@ == old(self)@.remove(id),
    {
        let mut i: usize = 0;
        while i < self.connections.len()
            invariant
                i <= self.connections.len(),
                self.wf(),
                *self == *old(self),
                forall|j: int| 0 <= j < i ==> self.connections@[j].id != id,
            decreases self.connections.len() - i,
        {
            if self.connections[i].id == id {
                proof {
                    lemma_without(self.connections@, i as int);
                }
                let _ = self.connections.remove(i);
                return true;
            }
            i += 1;
        }
        assert(self@.remove(id) =~= self@);
        false
    }

    /// Puts the message of every event on the queue of every open connection,
    /// event by event in the order of `broadcasts`. A connection whose queue
    /// takes no message is torn down, it alone: the others still get every
    /// message. Hands out the connections torn down.
    pub fn broadcast_messages(&mut self, broadcasts: &Vec<Broadcast>) -> (closed: Vec<Closed>)
        requires
            old(self).wf(),
        ensures
            final(self).wf(),
            final(self).next_id() == old(self).next_id(),
            final(self).buffer() == old(self).buffer(),
            final(self)@ == fan_out(
                old(self)@,
                messages(broadcast_views(broadcasts@)),
                closed_ids(closed@).to_set(),
            ),
            forall|i: int|
                0 <= i < closed@.len() ==> old(self)@.contains_key(
                    #[trigger] closed_ids(closed@)[i],
                ),
            closed_ids(closed@).no_duplicates(),
            broadcasts@.len() == 0 ==> closed@.len() == 0,
    {
        let ghost before = self@;
        let ghost all = messages(broadcast_views(broadcasts@));
        let mut closed: Vec<Closed> = Vec::new();
        proof {
            assert forall|j: int| 0 <= j < self.connections@.len() implies before.contains_key(
                #[trigger] self.connections@[j].id,
            ) && accepted(self.connections@[j].sender) == before[self.connections@[j].id] + all.take(
                0,
            ) by {
                lemma_slot(self.connections@, j);
                assert(before[self.connections@[j].id] + all.take(0) =~= before[self.connections@[j].id]);
            }
        }
        let mut k: usize = 0;
        while k < broadcasts.len()
            invariant
                k <= broadcasts.len(),
                self.wf(),
                self.next_id() == old(self).next_id(),
                self.buffer() == old(self).buffer(),
                all == messages(broadcast_views(broadcasts@)),
                forall|j: int|
                    0 <= j < self.connections@.len() ==> before.contains_key(
                        #[trigger] self.connections@[j].id,
                    ) && accepted(self.connections@[j].sender) == before[self.connections@[j].id]
                        + all.take(k as int),
                forall|id: u64| #[trigger]
                    before.contains_key(id) <==> holds(self.connections@, id) || closed_ids(
                        closed@,
                    ).contains(id),
                forall|id: u64|
                    !(holds(self.connections@, id) && #[trigger] closed_ids(closed@).contains(id)),
                closed_ids(closed@).no_duplicates(),
                k == 0 ==> closed@.len() == 0,
            decreases broadcasts.len() - k,
        {
            let mut i: usize = 0;
            while i < self.connections.len()
                invariant
                    k < broadcasts.len(),
                    i <= self.connections.len(),
                    self.wf(),
                    self.next_id() == old(self).next_id(),
                    self.buffer() == old(self).buffer(),
                    all == messages(broadcast_views(broadcasts@)),
                    forall|j: int|
                        0 <= j < self.connections@.len() ==> before.contains_key(
                            #[trigger] self.connections@[j].id,
                        ) && accepted(self.connections@[j].sender) == before[self.connections@[j].id]
                            + all.take(
                            if j < i {
                                k + 1
                            } else {
                                k as int
                            },
                        ),
                    forall|id: u64| #[trigger]
                        before.contains_key(id) <==> holds(self.connections@, id) || closed_ids(
                            closed@,
                        ).contains(id),
                    forall|id: u64|
                        !(holds(self.connections@, id) && #[trigger] closed_ids(closed@).contains(
                            id,
                        )),
                    closed_ids(closed@).no_duplicates(),
                decreases self.connections.len() - i,
            {
                let message = broadcasts[k].to_message();
                let ghost here = self.connections@;
                let ghost gone = closed_ids(closed@);
                proof {
                    assert(all[k as int] == message@);
                    assert(all.take(k + 1) =~= all.take(k as int).push(message@));
                }
                match try_send(&mut self.connections[i].sender, message) {
                    Ok(()) => {
                        proof {
                            let now = self.connections@;
                            assert(now.len() == here.len());
                            assert forall|j: int| 0 <= j < now.len() implies #[trigger] now[j].id
                                == here[j].id by {}
                            assert forall|id: u64| holds(now, id) <==> holds(here, id) by {
                                if holds(now, id) {
                                    let j = slot(now, id);
                                    assert(here[j].id == id);
                                }
                                if holds(here, id) {
                                    let j = slot(here, id);
                                    assert(now[j].id == id);
                                }
                            }
                            assert(before[now[i as int].id] + all.take(k as int).push(message@)
                                =~= (before[now[i as int].id] + all.take(k as int)).push(message@));
                        }
                        i += 1;
                    },
                    Err(error) => {
                        let reason = if error.is_full() {
                            SendFailure::Full
                        } else {
                            SendFailure::Disconnected
                        };
                        let ghost failed = self.connections@;
                        proof {
                            assert(failed.len() == here.len());
                            assert forall|j: int| 0 <= j < failed.len() implies #[trigger]
                                failed[j].id == here[j].id by {}
                            assert forall|id: u64| holds(failed, id) <==> holds(here, id) by {
                                if holds(failed, id) {
                                    let j = slot(failed, id);
                                    assert(here[j].id == id);
                                }
                                if holds(here, id) {
                                    let j = slot(here, id);
                                    assert(failed[j].id == id);
                                }
                            }
                            lemma_without(failed, i as int);
                            lemma_slot(failed, i as int);
                        }
                        let connection = self.connections.remove(i);
                        closed.push(Closed { connection_id: connection.id, reason });
                        proof {
                            let now = self.connections@;
                            let id = connection.id;
                            assert(now == failed.remove(i as int));
                            assert(closed_ids(closed@) =~= gone.push(id));
                            assert(!gone.contains(id));
                            assert forall|x: u64| closed_ids(closed@).contains(x) <==> gone.contains(
                                x,
                            ) || x == id by {
                                if gone.contains(x) {
                                    let j = choose|j: int| 0 <= j < gone.len() && gone[j] == x;
                                    assert(closed_ids(closed@)[j] == x);
                                }
                                if x == id {
                                    assert(closed_ids(closed@)[gone.len() as int] == x);
                                }
                            }
                            assert(id == failed[i as int].id);
                            assert forall|x: u64|
                                !(holds(now, x) && #[trigger] closed_ids(closed@).contains(x)) by {
                                if holds(now, x) && closed_ids(closed@).contains(x) {
                                    assert(x != id);
                                    assert(gone.contains(x));
                                    assert(holds(failed, x));
                                    assert(holds(here, x));
                                }
                            }
                        }
                    },
                }
            }
            k += 1;
        }
        proof {
            assert(all.take(broadcasts@.len() as int) =~= all);
            assert forall|id: u64| #[trigger] self@.contains_key(id) implies before.contains_key(id)
                && self@[id] == before[id] + all by {
                let j = slot(self.connections@, id);
                lemma_slot(self.connections@, j);
            }
            assert forall|i: int| 0 <= i < closed@.len() implies before.contains_key(
                #[trigger] closed_ids(closed@)[i],
            ) by {
                assert(closed_ids(closed@).contains(closed_ids(closed@)[i]));
            }
            assert(self@ =~= fan_out(before, all, closed_ids(closed@).to_set()));
        }
        closed
    }
}

/// The queues of a host before its first connection: the manager of the
/// outbound queues, and the two halves of the one inbound queue that all
/// connections share.
pub struct HostQueues {
    pub server_message_senders: ConnectionManager,
    pub player_message_sender: Sender<(u64, PlayerMessage)>,
    pub player_message_receiver: Receiver<(u64, PlayerMessage)>,
}

/// Makes the queues of a host: no connection is open, the first one gets the
/// id 0, and every queue buffers `channel_size` messages. Settings with a
/// fault are refused.
pub fn host_queues(settings: &ServerSettings) -> (r: Result<HostQueues, SettingsError>)
    ensures
        r is Ok <==> settings.fault() is None,
        r matches Ok(queues) ==> queues.server_message_senders.wf()
            && queues.server_message_senders@ == Map::<u64, Seq<ServerMessageView>>::empty()
            && queues.server_message_senders.next_id() == 0
            && queues.server_message_senders.buffer() == settings.channel_size,
        r matches Err(e) ==> settings.fault() == Some(e),
{
    let server_message_senders = match ConnectionManager::new(settings) {
        Ok(manager) => manager,
        Err(e) => {
            return Err(e);
        },
    };
    let (player_message_sender, player_message_receiver) = channel::<(u64, PlayerMessage)>(
        settings.channel_size,
    );
    Ok(HostQueues { server_message_senders, player_message_sender, player_message_receiver })
}

} // verus!
