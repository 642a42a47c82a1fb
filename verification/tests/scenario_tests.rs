//! The end-to-end scenario: create the room "Alpha", watch the directory,
//! register two players, and disconnect the first.

use game_rooms::CentralServer;
use game_rooms::ClientSession;
use game_rooms::ClientToMatchmakingServer;
use game_rooms::Id;
use game_rooms::MMToGS;
use game_rooms::MatchmakingServer;
use game_rooms::MatchmakingServerToClient;
use game_rooms::RegisterOutcome;
use game_rooms::RemoveOutcome;
use game_rooms::ServerToClient;
use game_rooms::SpawnStep;

#[test]
fn alpha_room_lifecycle() {
    let mut matchmaking = MatchmakingServer::new();
    let mut host = CentralServer::new(vec![9003, 9004]);
    let mut session = ClientSession::new(1);

    // The client asks for the room "Alpha" with space for four players.
    let handling = matchmaking.handle_client_message(
        &mut session,
        ClientToMatchmakingServer::CreateRoom {
            room_name: "Alpha".to_string(),
            is_private: false,
            max_players: 4,
        },
    );
    let (request_id, name, is_private, max_players) = match handling.to_host {
        Some(MMToGS::CreateRoom { request_id, room_name, is_private, max_players }) => {
            (request_id, room_name, is_private, max_players)
        }
        None => panic!("creation must be delegated"),
    };

    // The host reserves a port, binds it, and spawns the room.
    let port = match host.begin_spawn_room(request_id) {
        SpawnStep::Bind { port } => port,
        SpawnStep::Refused(_) => panic!("ports were available"),
    };
    let (mut room, reply) =
        host.finish_spawn_room(request_id, name, is_private, max_players, port);
    matchmaking.handle_host_message(reply);

    // GetRooms now shows exactly one entry with Alpha's metadata.
    let list = match matchmaking.get_rooms() {
        MatchmakingServerToClient::RoomDirectory(list) => list,
        _ => panic!("GetRooms must answer with the directory"),
    };
    assert_eq!(list.len(), 1);
    assert_eq!(list[0].name, "Alpha".to_string());
    assert_eq!(list[0].player_count, 0);
    assert_eq!(list[0].max_players, 4);
    assert!(!list[0].is_private);

    // P1 registers: nobody else hears a broadcast, P1 is acknowledged.
    let p1 = Id::from_bits(101);
    let p2 = Id::from_bits(102);
    match room.register_player(p1, "P1".to_string(), 10) {
        RegisterOutcome::Accepted { reply, broadcasts, .. } => {
            assert_eq!(reply, ServerToClient::PlayerRegistered { player_id: p1 });
            assert_eq!(broadcasts.len(), 0);
        }
        RegisterOutcome::Rejected { .. } => panic!("P1 was rejected"),
    }

    // P2 registers: P1 hears PlayerJoined, P2 only gets the acknowledgement.
    match room.register_player(p2, "P2".to_string(), 11) {
        RegisterOutcome::Accepted { reply, broadcasts, .. } => {
            assert_eq!(reply, ServerToClient::PlayerRegistered { player_id: p2 });
            assert_eq!(broadcasts.len(), 1);
            assert_eq!(broadcasts[0].to, 10);
            assert_eq!(
                broadcasts[0].message,
                ServerToClient::PlayerJoined { player_id: p2, player_name: "P2".to_string() }
            );
        }
        RegisterOutcome::Rejected { .. } => panic!("P2 was rejected"),
    }

    // P1 disconnects: P2 hears PlayerDisconnect exactly once.
    match room.remove_player(p1) {
        RemoveOutcome::Removed { broadcasts, .. } => {
            assert_eq!(broadcasts.len(), 1);
            assert_eq!(broadcasts[0].to, 11);
            assert_eq!(
                broadcasts[0].message,
                ServerToClient::PlayerDisconnect { player_id: p1 }
            );
        }
        RemoveOutcome::NotPresent => panic!("P1 was not on the roster"),
    }
    assert_eq!(room.player_count(), 1);
}
