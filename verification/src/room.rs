//! One game session: its roster of connected players and the fan-out of
//! room-level notifications. A room is owned by the game-server host task
//! that spawned it; every state change also says what must be sent where, so
//! the transport layer only performs the sends.

use vstd::prelude::*;

use crate::idmap::distinct_keys;
use crate::idmap::seq_to_map;
use crate::idmap::IdMap;
use crate::ids::Id;
use crate::messages::GSToMM;
use crate::messages::ServerToClient;

verus! {

/// A registered player: identity plus the handle of the outbound channel the
/// transport layer keeps for that player's socket.
#[derive(PartialEq, Eq, Debug)]
pub struct PlayerInfo {
    pub player_id: Id,
    pub player_name: String,
    pub sender: u64,
}

/// One message owed to one player's outbound channel.
#[derive(PartialEq, Eq, Debug)]
pub struct Delivery {
    pub to: u64,
    pub message: ServerToClient,
}

/// What a registration attempt decided.
#[derive(PartialEq, Eq, Debug)]
pub enum RegisterOutcome {
    /// The player id was already on the roster: the reply goes back on the
    /// same socket and the room is unchanged.
    Rejected { reply: ServerToClient },
    /// The player joined: the reply goes to the new player, the broadcasts to
    /// every other player, and the notification up the control link.
    Accepted { reply: ServerToClient, broadcasts: Vec<Delivery>, notify: GSToMM },
}

/// What removing a player decided.
#[derive(PartialEq, Eq, Debug)]
pub enum RemoveOutcome {
    /// The player was not on the roster; nothing is owed to anyone.
    NotPresent,
    /// The player left: the broadcasts go to every remaining player and the
    /// notification up the control link.
    Removed { broadcasts: Vec<Delivery>, notify: GSToMM },
}

/// An isolated game session bound to its own listener.
pub struct Room {
    room_id: Id,
    room_name: String,
    room_code: String,
    players: IdMap<PlayerInfo>,
    spectators: Vec<Id>,
    has_started: bool,
}

impl Room {
    /// The room's identifier.
    pub closed spec fn spec_id(self) -> Id {
        self.room_id
    }

    /// The room's display name.
    pub closed spec fn spec_name(self) -> Seq<char> {
        self.room_name@
    }

    /// The room's join code.
    pub closed spec fn spec_code(self) -> Seq<char> {
        self.room_code@
    }

    /// The roster in registration order.
    pub closed spec fn players_pairs(self) -> Seq<(Id, PlayerInfo)> {
        self.players.pairs()
    }

    /// The roster as a map from player id to player record.
    pub open spec fn players_map(self) -> Map<Id, PlayerInfo> {
        seq_to_map(self.players_pairs())
    }

    /// Whether the game has started.
    pub closed spec fn spec_has_started(self) -> bool {
        self.has_started
    }

    /// No player id appears twice on the roster.
    pub open spec fn wf(self) -> bool {
        distinct_keys(self.players_pairs())
    }

    /// Everything but the roster is the same in both rooms.
    pub closed spec fn same_meta(self, other: Room) -> bool {
        self.room_id == other.room_id && self.room_name == other.room_name
            && self.room_code == other.room_code && self.spectators == other.spectators
            && self.has_started == other.has_started
    }

    /// A freshly spawned room: the given identity, no players, no
    /// spectators, game not started.
    pub fn new(room_id: Id, room_name: String, room_code: String) -> (r: Room)
        ensures
            r.wf(),
            r.spec_id() == room_id,
            r.spec_name() == room_name@,
            r.spec_code() == room_code@,
            r.players_pairs() == Seq::<(Id, PlayerInfo)>::empty(),
            r.players_map() == Map::<Id, PlayerInfo>::empty(),
            !r.spec_has_started(),
    {
        Room {
            room_id,
            room_name,
            room_code,
            players: IdMap::new(),
            spectators: Vec::new(),
            has_started: false,
        }
    }

    /// The number of players on the roster.
    pub fn player_count(&self) -> (n: usize)
        ensures
            n == self.players_pairs().len(),
    {
        self.players.len()
    }

    /// The room's identifier.
    pub fn id(&self) -> (r: Id)
        ensures
            r == self.spec_id(),
    {
        self.room_id
    }

    /// One copy of the message for every player currently on the roster, in
    /// registration order.
    pub fn broadcast(&self, message: ServerToClient) -> (r: Vec<Delivery>)
        ensures
            r@.len() == self.players_pairs().len(),
            forall|i: int|
                0 <= i < r@.len() ==> r@[i] == (Delivery {
                    to: self.players_pairs()[i].1.sender,
                    message: message,
                }),
    {
        let n = self.players.len();
        let mut deliveries: Vec<Delivery> = Vec::new();
        let mut i: usize = 0;
        while i < n
            invariant
                i <= n,
                n == self.players_pairs().len(),
                deliveries@.len() == i,
                forall|j: int|
                    0 <= j < i ==> deliveries@[j] == (Delivery {
                        to: self.players_pairs()[j].1.sender,
                        message: message,
                    }),
            decreases n - i,
        {
            let entry = self.players.entry_at(i);
            deliveries.push(Delivery { to: entry.1.sender, message: message.clone() });
            i = i + 1;
        }
        deliveries
    }

    /// Handles `RegisterPlayer`: a duplicate id is softly rejected, a fresh
    /// id joins the roster, is announced to every other player, is
    /// acknowledged to the new player, and is reported up the control link.
    pub fn register_player(&mut self, player_id: Id, player_name: String, sender: u64) -> (r:
        RegisterOutcome)
        requires
            old(self).wf(),
        ensures
            final(self).wf(),
            final(self).same_meta(*old(self)),
            old(self).players_map().contains_key(player_id) ==> {
                &&& r matches RegisterOutcome::Rejected { reply }
                &&& reply matches ServerToClient::Error(m) && m@ == "Player already connected"@
                &&& final(self).players_pairs() == old(self).players_pairs()
                &&& final(self).players_map() == old(self).players_map()
            },
            !old(self).players_map().contains_key(player_id) ==> {
                &&& r matches RegisterOutcome::Accepted { reply, broadcasts, notify }
                &&& reply == (ServerToClient::PlayerRegistered { player_id })
                &&& notify == (GSToMM::ClientJoinedRoom { room_id: old(self).spec_id() })
                &&& final(self).players_pairs() == old(self).players_pairs().push(
                    (player_id, PlayerInfo { player_id, player_name, sender }),
                )
                &&& final(self).players_map() == old(self).players_map().insert(
                    player_id,
                    PlayerInfo { player_id, player_name, sender },
                )
                &&& broadcasts@.len() == old(self).players_pairs().len()
                &&& forall|i: int|
                    0 <= i < broadcasts@.len() ==> broadcasts@[i] == (Delivery {
                        to: old(self).players_pairs()[i].1.sender,
                        message: ServerToClient::PlayerJoined { player_id, player_name },
                    })
            },
    {
        if self.players.contains_key(player_id) {
            RegisterOutcome::Rejected {
                reply: ServerToClient::Error(String::from_str("Player already connected")),
            }
        } else {
            let announcement = ServerToClient::PlayerJoined {
                player_id,
                player_name: player_name.clone(),
            };
            let broadcasts = self.broadcast(announcement);
            self.players.insert(player_id, PlayerInfo { player_id, player_name, sender });
            RegisterOutcome::Accepted {
                reply: ServerToClient::PlayerRegistered { player_id },
                broadcasts,
                notify: GSToMM::ClientJoinedRoom { room_id: self.room_id },
            }
        }
    }

    /// Handles a player leaving, whether by an explicit `Disconnect` or by
    /// the transport dropping: the player comes off the roster, every
    /// remaining player is told exactly once, and the control link is
    /// notified. Removing an absent player does nothing, so a disconnect
    /// that races a transport error is applied only once.
    pub fn remove_player(&mut self, player_id: Id) -> (r: RemoveOutcome)
        requires
            old(self).wf(),
        ensures
            final(self).wf(),
            final(self).same_meta(*old(self)),
            !old(self).players_map().contains_key(player_id) ==> {
                &&& r is NotPresent
                &&& final(self).players_pairs() == old(self).players_pairs()
                &&& final(self).players_map() == old(self).players_map()
            },
            old(self).players_map().contains_key(player_id) ==> {
                &&& r matches RemoveOutcome::Removed { broadcasts, notify }
                &&& notify == (GSToMM::ClientDisconnectRoom { room_id: old(self).spec_id() })
                &&& final(self).players_map() == old(self).players_map().remove(player_id)
                &&& !final(self).players_map().contains_key(player_id)
                &&& exists|i: int|
                    0 <= i < old(self).players_pairs().len() && old(self).players_pairs()[i].0
                        == player_id && final(self).players_pairs() == old(
                        self,
                    ).players_pairs().remove(i)
                &&& broadcasts@.len() == final(self).players_pairs().len()
                &&& forall|i: int|
                    0 <= i < broadcasts@.len() ==> broadcasts@[i] == (Delivery {
                        to: final(self).players_pairs()[i].1.sender,
                        message: ServerToClient::PlayerDisconnect { player_id },
                    })
            },
    {
        let ghost pairs0 = self.players.pairs();
        let result = match self.players.remove(player_id) {
            None => RemoveOutcome::NotPresent,
            Some(_info) => {
                let broadcasts = self.broadcast(ServerToClient::PlayerDisconnect { player_id });
                RemoveOutcome::Removed {
                    broadcasts,
                    notify: GSToMM::ClientDisconnectRoom { room_id: self.room_id },
                }
            },
        };
        proof {
            if old(self).players_map().contains_key(player_id) {
                let i = choose|i: int|
                    0 <= i < pairs0.len() && pairs0[i].0 == player_id && self.players.pairs()
                        =~= pairs0.remove(i);
                assert(0 <= i < old(self).players_pairs().len());
                assert(old(self).players_pairs()[i].0 == player_id);
                assert(self.players.pairs() == old(self).players_pairs().remove(i));
            }
        }
        result
    }
}

/// Registering a fresh player and then removing that player leaves the
/// roster exactly as it was: the removal takes out precisely the pair the
/// registration appended.
pub proof fn lemma_register_disconnect_round_trip(
    s: Seq<(Id, PlayerInfo)>,
    q: (Id, PlayerInfo),
    i: int,
)
    requires
        distinct_keys(s),
        forall|j: int| 0 <= j < s.len() ==> s[j].0 != q.0,
        0 <= i < s.push(q).len(),
        s.push(q)[i].0 == q.0,
    ensures
        s.push(q).remove(i) == s,
{
    assert(i == s.len());
    assert(s.push(q).remove(i) =~= s);
}

} // verus!
