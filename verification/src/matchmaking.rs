//! The matchmaking server: the global room directory, the room address
//! table, the correlation table for in-flight creation requests, and the
//! handlers for both of its links. Client queries read the directory;
//! `CreateRoom` is delegated to the game-server host under a fresh request
//! id and answered only when the correlated result (or a timeout) arrives;
//! host notifications keep the directory's best-effort player counts.

use vstd::prelude::*;
use vstd::string::StringExecFns;

use crate::addr::room_address;
use crate::addr::spec_room_address;
use crate::idmap::distinct_keys;
use crate::idmap::seq_to_map;
use crate::idmap::IdMap;
use crate::ids::Id;
use crate::messages::ClientToMatchmakingServer;
use crate::messages::GSToMM;
use crate::messages::MMToGS;
use crate::messages::MatchmakingServerToClient;
use crate::messages::RoomInfo;

verus! {

/// A player count one higher, saturating at the top of `usize`.
pub open spec fn inc_count(n: usize) -> usize {
    if n == usize::MAX {
        n
    } else {
        (n + 1) as usize
    }
}

/// A player count one lower, with a floor of zero.
pub open spec fn dec_count(n: usize) -> usize {
    if n == 0 {
        0
    } else {
        (n - 1) as usize
    }
}

/// The same room metadata with another player count.
pub open spec fn with_count(info: RoomInfo, n: usize) -> RoomInfo {
    RoomInfo {
        id: info.id,
        name: info.name,
        max_players: info.max_players,
        player_count: n,
        is_private: info.is_private,
        has_started: info.has_started,
    }
}

/// The directory after a room gains a player: if the room is known its
/// count goes up by one (saturating), otherwise nothing changes.
pub open spec fn directory_after_join(dir: Map<Id, RoomInfo>, room_id: Id) -> Map<Id, RoomInfo> {
    if dir.contains_key(room_id) {
        dir.insert(room_id, with_count(dir[room_id], inc_count(dir[room_id].player_count)))
    } else {
        dir
    }
}

/// The directory after a room loses a player: if the room is known its
/// count goes down by one (with a floor of zero), otherwise nothing changes.
pub open spec fn directory_after_leave(dir: Map<Id, RoomInfo>, room_id: Id) -> Map<Id, RoomInfo> {
    if dir.contains_key(room_id) {
        dir.insert(room_id, with_count(dir[room_id], dec_count(dir[room_id].player_count)))
    } else {
        dir
    }
}

/// The per-connection state of one client of the matchmaking server:
/// `client` is the transport layer's handle for the connection, `joined`
/// remembers the `JoinedRoom` report, as the pair (player id, room id), for
/// cleanup on disconnect.
pub struct ClientSession {
    pub client: u64,
    pub joined: Option<(Id, Id)>,
}

impl ClientSession {
    /// A session for a newly accepted connection: nothing joined yet.
    pub fn new(client: u64) -> (s: ClientSession)
        ensures
            s.client == client,
            s.joined is None,
    {
        ClientSession { client, joined: None }
    }
}

/// What the transport layer owes after a client message was handled.
#[derive(PartialEq, Eq, Debug)]
pub struct ClientHandling {
    /// The reply to send back on this client's connection, if any.
    pub reply: Option<MatchmakingServerToClient>,
    /// The command to forward down the host control link, if any.
    pub to_host: Option<MMToGS>,
    /// Whether this client's connection is to be closed.
    pub close: bool,
}

/// The matchmaking server's shared state.
pub struct MatchmakingServer {
    rooms: IdMap<RoomInfo>,
    room_paths: IdMap<String>,
    room_creation_requests: IdMap<u64>,
    joined_players: IdMap<Id>,
}

impl MatchmakingServer {
    /// The directory entries in insertion order.
    pub closed spec fn directory_pairs(self) -> Seq<(Id, RoomInfo)> {
        self.rooms.pairs()
    }

    /// The address table entries in insertion order.
    pub closed spec fn paths_pairs(self) -> Seq<(Id, String)> {
        self.room_paths.pairs()
    }

    /// The pending-request entries in insertion order.
    pub closed spec fn pending_pairs(self) -> Seq<(Id, u64)> {
        self.room_creation_requests.pairs()
    }

    /// The joined-player entries in insertion order.
    pub closed spec fn joined_pairs(self) -> Seq<(Id, Id)> {
        self.joined_players.pairs()
    }

    /// The room directory: public metadata keyed by room id.
    pub open spec fn directory(self) -> Map<Id, RoomInfo> {
        seq_to_map(self.directory_pairs())
    }

    /// The room address table: where each room can be reached.
    pub open spec fn paths(self) -> Map<Id, String> {
        seq_to_map(self.paths_pairs())
    }

    /// The in-flight creation requests: for each outstanding request id, the
    /// handle of the client connection waiting on it. The map holds at most
    /// one slot per request id.
    pub open spec fn pending(self) -> Map<Id, u64> {
        seq_to_map(self.pending_pairs())
    }

    /// The reverse mapping recorded by `JoinedRoom`: which room each
    /// reported player is in.
    pub open spec fn joined(self) -> Map<Id, Id> {
        seq_to_map(self.joined_pairs())
    }

    /// All four tables have distinct keys, and every directory entry is
    /// keyed by its own room id.
    pub open spec fn wf(self) -> bool {
        &&& distinct_keys(self.directory_pairs())
        &&& distinct_keys(self.paths_pairs())
        &&& distinct_keys(self.pending_pairs())
        &&& distinct_keys(self.joined_pairs())
        &&& forall|i: int|
            0 <= i < self.directory_pairs().len() ==> self.directory_pairs()[i].1.id
                == self.directory_pairs()[i].0
    }

    /// The directory is unchanged between two states.
    pub open spec fn same_directory(self, other: Self) -> bool {
        self.directory_pairs() == other.directory_pairs()
    }

    /// The address table is unchanged between two states.
    pub open spec fn same_paths(self, other: Self) -> bool {
        self.paths_pairs() == other.paths_pairs()
    }

    /// The pending-request table is unchanged between two states.
    pub open spec fn same_pending(self, other: Self) -> bool {
        self.pending_pairs() == other.pending_pairs()
    }

    /// The joined-player table is unchanged between two states.
    pub open spec fn same_joined(self, other: Self) -> bool {
        self.joined_pairs() == other.joined_pairs()
    }

    /// A server that knows of no room, no address, no pending request and
    /// no joined player.
    pub fn new() -> (s: MatchmakingServer)
        ensures
            s.wf(),
            s.directory() == Map::<Id, RoomInfo>::empty(),
            s.directory_pairs() == Seq::<(Id, RoomInfo)>::empty(),
            s.paths() == Map::<Id, String>::empty(),
            s.pending() == Map::<Id, u64>::empty(),
            s.joined() == Map::<Id, Id>::empty(),
    {
        MatchmakingServer {
            rooms: IdMap::new(),
            room_paths: IdMap::new(),
            room_creation_requests: IdMap::new(),
            joined_players: IdMap::new(),
        }
    }

    /// Handles `GetRooms`: the full directory snapshot, in insertion order,
    /// with no side effect. It always succeeds, even when empty.
    pub fn get_rooms(&self) -> (r: MatchmakingServerToClient)
        requires
            self.wf(),
        ensures
            r matches MatchmakingServerToClient::RoomDirectory(list) && {
                &&& list@.len() == self.directory_pairs().len()
                &&& forall|i: int|
                    0 <= i < list@.len() ==> list@[i] == self.directory_pairs()[i].1
            },
    {
        let n = self.rooms.len();
        let mut list: Vec<RoomInfo> = Vec::new();
        let mut i: usize = 0;
        while i < n
            invariant
                i <= n,
                n == self.directory_pairs().len(),
                self.wf(),
                list@.len() == i,
                forall|j: int| 0 <= j < i ==> list@[j] == self.directory_pairs()[j].1,
            decreases n - i,
        {
            let entry = self.rooms.entry_at(i);
            list.push(entry.1.clone());
            i = i + 1;
        }
        MatchmakingServerToClient::RoomDirectory(list)
    }

    /// Handles `GetRoomInfo`: the stored address for a known room id, or a
    /// "room not found" error; the connection stays open either way.
    pub fn get_room_info(&self, room_id: Id) -> (r: MatchmakingServerToClient)
        requires
            self.wf(),
        ensures
            self.paths().contains_key(room_id) ==> {
                &&& r matches MatchmakingServerToClient::RoomInfo { server_address }
                &&& server_address@ == self.paths()[room_id]@
            },
            !self.paths().contains_key(room_id) ==> {
                &&& r matches MatchmakingServerToClient::Error(m)
                &&& m@ == "Room not found"@
            },
    {
        match self.room_paths.get(room_id) {
            Some(path) => MatchmakingServerToClient::RoomInfo { server_address: path.clone() },
            None => MatchmakingServerToClient::Error(String::from_str("Room not found")),
        }
    }

    /// Handles `CreateRoom` up to the send: a fresh request id is drawn, a
    /// pending slot is recorded for the requesting connection, and the
    /// command for the host link is returned. The reply to the client comes
    /// only when the correlated result, or a timeout, resolves the slot.
    pub fn create_room_request(
        &mut self,
        client: u64,
        room_name: String,
        is_private: bool,
        max_players: usize,
    ) -> (cmd: MMToGS)
        requires
            old(self).wf(),
        ensures
            final(self).wf(),
            final(self).same_directory(*old(self)),
            final(self).same_paths(*old(self)),
            final(self).same_joined(*old(self)),
            cmd matches MMToGS::CreateRoom {
                request_id,
                room_name: sent_name,
                is_private: sent_private,
                max_players: sent_max,
            } && {
                &&& sent_name@ == room_name@
                &&& sent_private == is_private
                &&& sent_max == max_players
                &&& !old(self).pending().contains_key(request_id)
                &&& final(self).pending() == old(self).pending().insert(request_id, client)
            },
    {
        let request_id = self.room_creation_requests.fresh_key();
        self.room_creation_requests.insert(request_id, client);
        MMToGS::CreateRoom { request_id, room_name, is_private, max_players }
    }

    /// Resolves a pending creation request whose wait ran out: the stale
    /// slot is removed and the waiting client, if any, is owed an error
    /// instead of hanging forever.
    pub fn expire_create_request(&mut self, request_id: Id) -> (r: Option<
        (u64, MatchmakingServerToClient),
    >)
        requires
            old(self).wf(),
        ensures
            final(self).wf(),
            final(self).same_directory(*old(self)),
            final(self).same_paths(*old(self)),
            final(self).same_joined(*old(self)),
            final(self).pending() == old(self).pending().remove(request_id),
            old(self).pending().contains_key(request_id) ==> {
                &&& r matches Some((client, reply))
                &&& client == old(self).pending()[request_id]
                &&& reply matches MatchmakingServerToClient::Error(m)
                &&& m@ == "Room creation failed"@
            },
            !old(self).pending().contains_key(request_id) ==> r is None,
    {
        match self.room_creation_requests.remove(request_id) {
            Some(client) => Some(
                (
                    client,
                    MatchmakingServerToClient::Error(String::from_str("Room creation failed")),
                ),
            ),
            None => None,
        }
    }

    /// Adjusts the directory's player count for a room, if the room is
    /// known: up by one (saturating) or down by one (floor zero).
    fn adjust_player_count(&mut self, room_id: Id, up: bool)
        requires
            old(self).wf(),
        ensures
            final(self).wf(),
            final(self).same_paths(*old(self)),
            final(self).same_pending(*old(self)),
            final(self).same_joined(*old(self)),
            up ==> final(self).directory() == directory_after_join(old(self).directory(), room_id),
            !up ==> final(self).directory() == directory_after_leave(
                old(self).directory(),
                room_id,
            ),
    {
        let updated: Option<RoomInfo> = match self.rooms.get(room_id) {
            Some(info) => {
                let mut fresh = info.clone();
                if up {
                    if fresh.player_count < usize::MAX {
                        fresh.player_count = fresh.player_count + 1;
                    }
                } else {
                    if fresh.player_count > 0 {
                        fresh.player_count = fresh.player_count - 1;
                    }
                }
                Some(fresh)
            },
            None => None,
        };
        match updated {
            Some(fresh) => {
                proof {
                    let q0 = self.rooms.pairs();
                    self.rooms.lemma_view_domain(room_id);
                    let i = choose|i: int| 0 <= i < q0.len() && q0[i].0 == room_id;
                    self.rooms.lemma_view_pairs(i);
                    assert(fresh.id == room_id);
                }
                self.rooms.insert(room_id, fresh);
                proof {
                    let q0 = old(self).rooms.pairs();
                    let q1 = self.rooms.pairs();
                    assert forall|j: int| 0 <= j < q1.len() implies q1[j].1.id == q1[j].0 by {
                        assert(q0[j].1.id == q0[j].0);
                    }
                }
            },
            None => {},
        }
    }

    /// Dispatches one message from the game-server host link; returns the
    /// resolution owed to a waiting client, if this message resolves one.
    /// Host errors unrelated to a pending request are ignored, never fatal.
    pub fn handle_host_message(&mut self, msg: GSToMM) -> (r: Option<
        (u64, MatchmakingServerToClient),
    >)
        requires
            old(self).wf(),
        ensures
            final(self).wf(),
            msg matches GSToMM::CreateRoomSuccess { request_id, room_info, port } ==> {
                &&& final(self).directory() == old(self).directory().insert(
                    room_info.id,
                    room_info,
                )
                &&& final(self).paths().dom() == old(self).paths().dom().insert(room_info.id)
                &&& final(self).paths()[room_info.id]@ == spec_room_address(port)
                &&& forall|k: Id|
                    k != room_info.id && old(self).paths().contains_key(k)
                        ==> final(self).paths()[k] == old(self).paths()[k]
                &&& final(self).pending() == old(self).pending().remove(request_id)
                &&& final(self).same_joined(*old(self))
                &&& old(self).pending().contains_key(request_id) ==> r == Some(
                    (
                        old(self).pending()[request_id],
                        MatchmakingServerToClient::RoomCreated { room_id: room_info.id },
                    ),
                )
                &&& !old(self).pending().contains_key(request_id) ==> r is None
            },
            msg matches GSToMM::CreateRoomFailure { request_id, message } ==> {
                &&& final(self).same_directory(*old(self))
                &&& final(self).same_paths(*old(self))
                &&& final(self).same_joined(*old(self))
                &&& final(self).pending() == old(self).pending().remove(request_id)
                &&& old(self).pending().contains_key(request_id) ==> {
                    &&& r matches Some((client, reply))
                    &&& client == old(self).pending()[request_id]
                    &&& reply matches MatchmakingServerToClient::Error(m)
                    &&& m@ == message@
                }
                &&& !old(self).pending().contains_key(request_id) ==> r is None
            },
            msg matches GSToMM::ClientJoinedRoom { room_id } ==> {
                &&& r is None
                &&& final(self).directory() == directory_after_join(
                    old(self).directory(),
                    room_id,
                )
                &&& final(self).same_paths(*old(self))
                &&& final(self).same_pending(*old(self))
                &&& final(self).same_joined(*old(self))
            },
            msg matches GSToMM::ClientDisconnectRoom { room_id } ==> {
                &&& r is None
                &&& final(self).directory() == directory_after_leave(
                    old(self).directory(),
                    room_id,
                )
                &&& final(self).same_paths(*old(self))
                &&& final(self).same_pending(*old(self))
                &&& final(self).same_joined(*old(self))
            },
            msg matches GSToMM::RoomDeleted { room_id } ==> {
                &&& r is None
                &&& final(self).directory() == old(self).directory().remove(room_id)
                &&& final(self).paths() == old(self).paths().remove(room_id)
                &&& final(self).same_pending(*old(self))
                &&& final(self).same_joined(*old(self))
            },
            msg matches GSToMM::Error(m) ==> {
                &&& r is None
                &&& final(self).same_directory(*old(self))
                &&& final(self).same_paths(*old(self))
                &&& final(self).same_pending(*old(self))
                &&& final(self).same_joined(*old(self))
            },
    {
        match msg {
            GSToMM::CreateRoomSuccess { request_id, room_info, port } => {
                let room_id = room_info.id;
                let ghost stored = room_info;
                let address = room_address(port);
                self.rooms.insert(room_id, room_info);
                self.room_paths.insert(room_id, address);
                proof {
                    let q0 = old(self).rooms.pairs();
                    let q1 = self.rooms.pairs();
                    assert forall|j: int| 0 <= j < q1.len() implies q1[j].1.id == q1[j].0 by {
                        if old(self).directory().contains_key(room_id) {
                            assert(q1[j].0 == q0[j].0);
                            assert(q1[j].1 == (if q0[j].0 == room_id {
                                stored
                            } else {
                                q0[j].1
                            }));
                            assert(q0[j].1.id == q0[j].0);
                        } else {
                            if j < q1.len() - 1 {
                                assert(q1[j] == q0[j]);
                            } else {
                                assert(q1[j] == (room_id, stored));
                            }
                        }
                    }
                }
                match self.room_creation_requests.remove(request_id) {
                    Some(client) => Some(
                        (client, MatchmakingServerToClient::RoomCreated { room_id }),
                    ),
                    None => None,
                }
            },
            GSToMM::CreateRoomFailure { request_id, message } => {
                match self.room_creation_requests.remove(request_id) {
                    Some(client) => Some((client, MatchmakingServerToClient::Error(message))),
                    None => None,
                }
            },
            GSToMM::ClientJoinedRoom { room_id } => {
                self.adjust_player_count(room_id, true);
                None
            },
            GSToMM::ClientDisconnectRoom { room_id } => {
                self.adjust_player_count(room_id, false);
                None
            },
            GSToMM::RoomDeleted { room_id } => {
                self.rooms.remove(room_id);
                self.room_paths.remove(room_id);
                proof {
                    let q0 = old(self).rooms.pairs();
                    let q1 = self.rooms.pairs();
                    if old(self).directory().contains_key(room_id) {
                        let i = choose|i: int|
                            0 <= i < q0.len() && q0[i].0 == room_id && q1 =~= q0.remove(i);
                        assert forall|j: int| 0 <= j < q1.len() implies q1[j].1.id == q1[j].0 by {
                            if j < i {
                                assert(q1[j] == q0[j]);
                            } else {
                                assert(q1[j] == q0[j + 1]);
                            }
                        }
                    }
                }
                None
            },
            GSToMM::Error(_m) => None,
        }
    }

    /// Dispatches one message from a client connection: directory queries
    /// are answered at once, creation is delegated to the host under a
    /// fresh pending slot, join reports adjust the directory's count and are
    /// remembered on the session, and a disconnect undoes the remembered
    /// join and closes the connection.
    pub fn handle_client_message(
        &mut self,
        session: &mut ClientSession,
        msg: ClientToMatchmakingServer,
    ) -> (r: ClientHandling)
        requires
            old(self).wf(),
        ensures
            final(self).wf(),
            final(session).client == old(session).client,
            msg matches ClientToMatchmakingServer::GetRooms ==> {
                &&& final(self).same_directory(*old(self))
                &&& final(self).same_paths(*old(self))
                &&& final(self).same_pending(*old(self))
                &&& final(self).same_joined(*old(self))
                &&& *final(session) == *old(session)
                &&& r.to_host is None
                &&& !r.close
                &&& r.reply matches Some(MatchmakingServerToClient::RoomDirectory(list)) && {
                    &&& list@.len() == old(self).directory_pairs().len()
                    &&& forall|i: int|
                        0 <= i < list@.len() ==> list@[i] == old(self).directory_pairs()[i].1
                }
            },
            msg matches ClientToMatchmakingServer::CreateRoom {
                room_name,
                is_private,
                max_players,
            } ==> {
                &&& final(self).same_directory(*old(self))
                &&& final(self).same_paths(*old(self))
                &&& final(self).same_joined(*old(self))
                &&& *final(session) == *old(session)
                &&& r.reply is None
                &&& !r.close
                &&& r.to_host matches Some(MMToGS::CreateRoom {
                    request_id,
                    room_name: sent_name,
                    is_private: sent_private,
                    max_players: sent_max,
                }) && {
                    &&& sent_name@ == room_name@
                    &&& sent_private == is_private
                    &&& sent_max == max_players
                    &&& !old(self).pending().contains_key(request_id)
                    &&& final(self).pending() == old(self).pending().insert(
                        request_id,
                        old(session).client,
                    )
                }
            },
            msg matches ClientToMatchmakingServer::GetRoomInfo { room_id } ==> {
                &&& final(self).same_directory(*old(self))
                &&& final(self).same_paths(*old(self))
                &&& final(self).same_pending(*old(self))
                &&& final(self).same_joined(*old(self))
                &&& *final(session) == *old(session)
                &&& r.to_host is None
                &&& !r.close
                &&& old(self).paths().contains_key(room_id) ==> {
                    &&& r.reply matches Some(MatchmakingServerToClient::RoomInfo {
                        server_address,
                    })
                    &&& server_address@ == old(self).paths()[room_id]@
                }
                &&& !old(self).paths().contains_key(room_id) ==> {
                    &&& r.reply matches Some(MatchmakingServerToClient::Error(m))
                    &&& m@ == "Room not found"@
                }
            },
            msg matches ClientToMatchmakingServer::JoinedRoom { room_id, player_id } ==> {
                &&& final(self).directory() == directory_after_join(
                    old(self).directory(),
                    room_id,
                )
                &&& final(self).same_paths(*old(self))
                &&& final(self).same_pending(*old(self))
                &&& final(self).joined() == old(self).joined().insert(player_id, room_id)
                &&& final(session).joined == Some((player_id, room_id))
                &&& r.reply is None
                &&& r.to_host is None
                &&& !r.close
            },
            msg matches ClientToMatchmakingServer::Disconnect ==> {
                &&& r.reply is None
                &&& r.to_host is None
                &&& r.close
                &&& final(self).same_paths(*old(self))
                &&& final(self).same_pending(*old(self))
                &&& final(session).joined is None
                &&& old(session).joined matches None ==> final(self).same_directory(*old(self))
                    && final(self).same_joined(*old(self))
                &&& old(session).joined matches Some((player_id, room_id)) ==> {
                    &&& final(self).directory() == directory_after_leave(
                        old(self).directory(),
                        room_id,
                    )
                    &&& final(self).joined() == old(self).joined().remove(player_id)
                }
            },
    {
        match msg {
            ClientToMatchmakingServer::GetRooms => {
                let reply = self.get_rooms();
                ClientHandling { reply: Some(reply), to_host: None, close: false }
            },
            ClientToMatchmakingServer::CreateRoom { room_name, is_private, max_players } => {
                let cmd = self.create_room_request(
                    session.client,
                    room_name,
                    is_private,
                    max_players,
                );
                ClientHandling { reply: None, to_host: Some(cmd), close: false }
            },
            ClientToMatchmakingServer::GetRoomInfo { room_id } => {
                let reply = self.get_room_info(room_id);
                ClientHandling { reply: Some(reply), to_host: None, close: false }
            },
            ClientToMatchmakingServer::JoinedRoom { room_id, player_id } => {
                self.adjust_player_count(room_id, true);
                self.joined_players.insert(player_id, room_id);
                session.joined = Some((player_id, room_id));
                ClientHandling { reply: None, to_host: None, close: false }
            },
            ClientToMatchmakingServer::Disconnect => {
                match session.joined {
                    Some((player_id, room_id)) => {
                        self.adjust_player_count(room_id, false);
                        self.joined_players.remove(player_id);
                        session.joined = None;
                    },
                    None => {},
                }
                ClientHandling { reply: None, to_host: None, close: true }
            },
        }
    }
}

/// Every directory entry is stored under its own room id, so the ids of the
/// entries a `GetRooms` snapshot hands out are exactly the directory's keys.
pub proof fn lemma_directory_keyed_by_id(s: MatchmakingServer, i: int)
    requires
        s.wf(),
        0 <= i < s.directory_pairs().len(),
    ensures
        s.directory_pairs()[i].1.id == s.directory_pairs()[i].0,
{
}

/// The directory built by a sequence of successful creations, applied in
/// order to the empty directory; each creation stores its metadata under its
/// own room id.
pub open spec fn directory_after_creations(infos: Seq<RoomInfo>) -> Map<Id, RoomInfo>
    decreases infos.len(),
{
    if infos.len() == 0 {
        Map::empty()
    } else {
        directory_after_creations(infos.drop_last()).insert(infos.last().id, infos.last())
    }
}

/// A directory that has seen nothing holds nothing, and after any sequence
/// of successful creations with pairwise-distinct room ids it holds exactly
/// one entry per creation, stored under that creation's room id.
pub proof fn lemma_directory_after_creations(infos: Seq<RoomInfo>)
    requires
        forall|i: int, j: int| 0 <= i < j < infos.len() ==> infos[i].id != infos[j].id,
    ensures
        directory_after_creations(infos).dom().finite(),
        directory_after_creations(infos).dom().len() == infos.len(),
        forall|k: Id|
            directory_after_creations(infos).contains_key(k) <==> exists|i: int|
                0 <= i < infos.len() && infos[i].id == k,
        forall|i: int|
            0 <= i < infos.len() ==> directory_after_creations(infos).contains_key(infos[i].id)
                && directory_after_creations(infos)[infos[i].id] == infos[i],
    decreases infos.len(),
{
    if infos.len() == 0 {
        assert(directory_after_creations(infos).dom() =~= Set::<Id>::empty());
    } else {
        let prefix = infos.drop_last();
        let last = infos.last();
        assert(forall|i: int| 0 <= i < prefix.len() ==> prefix[i] == infos[i]);
        lemma_directory_after_creations(prefix);
        assert forall|k: Id|
            directory_after_creations(infos).contains_key(k) implies exists|i: int|
            0 <= i < infos.len() && infos[i].id == k by {
            if k == last.id {
                assert(infos[infos.len() - 1].id == k);
            } else {
                let i = choose|i: int| 0 <= i < prefix.len() && prefix[i].id == k;
                assert(infos[i].id == k);
            }
        }
        assert forall|k: Id|
            exists|i: int|
                0 <= i < infos.len() && infos[i].id == k implies directory_after_creations(
            infos,
        ).contains_key(k) by {
            let i = choose|i: int| 0 <= i < infos.len() && infos[i].id == k;
            if i < infos.len() - 1 {
                assert(prefix[i].id == k);
                assert(directory_after_creations(prefix).contains_key(k));
            }
        }
        assert(!directory_after_creations(prefix).contains_key(last.id)) by {
            if directory_after_creations(prefix).contains_key(last.id) {
                let i = choose|i: int| 0 <= i < prefix.len() && prefix[i].id == last.id;
                assert(infos[i].id == infos[infos.len() - 1].id);
                assert(false);
            }
        }
        assert(directory_after_creations(infos).dom() =~= directory_after_creations(
            prefix,
        ).dom().insert(last.id));
        vstd::set::axiom_set_insert_len(directory_after_creations(prefix).dom(), last.id);
    }
}

/// A `JoinedRoom` immediately followed by the same client's `Disconnect`
/// leaves the directory exactly as it was: the increment and the decrement
/// of that room's player count cancel out, as long as the count was not
/// already saturated.
pub proof fn lemma_join_then_disconnect_restores(dir: Map<Id, RoomInfo>, room_id: Id)
    requires
        dir.contains_key(room_id) ==> dir[room_id].player_count < usize::MAX,
    ensures
        directory_after_leave(directory_after_join(dir, room_id), room_id) == dir,
{
    if dir.contains_key(room_id) {
        assert(directory_after_leave(directory_after_join(dir, room_id), room_id) =~= dir);
    }
}

} // verus!
