//! Typed message sets for the three logical links: client to matchmaking
//! server, client to room host, and matchmaking server to game-server host.
//! These are pure data contracts; the transport encodes them on the wire.

use vstd::prelude::*;

use crate::ids::Id;

verus! {

/// The public metadata of one room, as the matchmaking directory stores it.
/// `id` names the room; `player_count` is the directory's best-effort mirror
/// of the room's roster size.
#[derive(PartialEq, Eq, Debug)]
pub struct RoomInfo {
    pub id: Id,
    pub name: String,
    pub max_players: usize,
    pub player_count: usize,
    pub is_private: bool,
    pub has_started: bool,
}

impl Clone for RoomInfo {
    fn clone(&self) -> (r: Self)
        ensures
            r == *self,
    {
        RoomInfo {
            id: self.id,
            name: self.name.clone(),
            max_players: self.max_players,
            player_count: self.player_count,
            is_private: self.is_private,
            has_started: self.has_started,
        }
    }
}

/// Requests a client may send to the matchmaking server.
#[derive(PartialEq, Eq, Debug)]
pub enum ClientToMatchmakingServer {
    /// Ask for the current room directory.
    GetRooms,
    /// Ask for a new room; the reply arrives once the host has spawned it.
    CreateRoom { room_name: String, is_private: bool, max_players: usize },
    /// Ask where to reach a known room.
    GetRoomInfo { room_id: Id },
    /// Report that this client has connected directly to a room.
    JoinedRoom { room_id: Id, player_id: Id },
    /// Close this client's matchmaking connection.
    Disconnect,
}

/// Replies the matchmaking server sends to a client.
#[derive(PartialEq, Eq, Debug)]
pub enum MatchmakingServerToClient {
    /// The directory snapshot; each entry is keyed by its `id` field.
    RoomDirectory(Vec<RoomInfo>),
    /// A room requested by this client now exists.
    RoomCreated { room_id: Id },
    /// Where to reach the room asked about.
    RoomInfo { server_address: String },
    /// The request failed; the connection stays open.
    Error(String),
}

/// Requests a player may send to the room hosting its game.
#[derive(PartialEq, Eq, Debug)]
pub enum ClientToServer {
    /// Enter the room's roster under the given identity.
    RegisterPlayer { player_name: String, player_id: Id },
    /// Leave the room.
    Disconnect,
}

/// Messages a room sends to its players.
#[derive(PartialEq, Eq, Debug)]
pub enum ServerToClient {
    /// Acknowledges this player's successful registration.
    PlayerRegistered { player_id: Id },
    /// Another player has joined the room.
    PlayerJoined { player_id: Id, player_name: String },
    /// A player has left the room.
    PlayerDisconnect { player_id: Id },
    /// The request failed; the connection stays open.
    Error(String),
}

impl Clone for ServerToClient {
    fn clone(&self) -> (r: Self)
        ensures
            r == *self,
    {
        match self {
            ServerToClient::PlayerRegistered { player_id } => ServerToClient::PlayerRegistered {
                player_id: *player_id,
            },
            ServerToClient::PlayerJoined { player_id, player_name } => ServerToClient::PlayerJoined {
                player_id: *player_id,
                player_name: player_name.clone(),
            },
            ServerToClient::PlayerDisconnect { player_id } => ServerToClient::PlayerDisconnect {
                player_id: *player_id,
            },
            ServerToClient::Error(message) => ServerToClient::Error(message.clone()),
        }
    }
}

/// Commands the matchmaking server sends down its control link to a
/// game-server host.
#[derive(PartialEq, Eq, Debug)]
pub enum MMToGS {
    /// Spawn a room; `request_id` correlates the eventual result.
    CreateRoom { request_id: Id, room_name: String, is_private: bool, max_players: usize },
}

/// Results and notifications a game-server host sends up to the matchmaking
/// server.
#[derive(PartialEq, Eq, Debug)]
pub enum GSToMM {
    /// The room of the correlated request is up and listening on `port`.
    CreateRoomSuccess { request_id: Id, room_info: RoomInfo, port: u16 },
    /// The room of the correlated request could not be spawned; sent so the
    /// pending request is resolved with an error instead of hanging.
    CreateRoomFailure { request_id: Id, message: String },
    /// A player connected to the room; the directory count goes up by one.
    ClientJoinedRoom { room_id: Id },
    /// A player left the room; the directory count goes down by one.
    ClientDisconnectRoom { room_id: Id },
    /// The room no longer exists and leaves the directory.
    RoomDeleted { room_id: Id },
    /// A host-side failure unrelated to any pending request.
    Error(String),
}

} // verus!
