//! Matchmaking behaviour: the directory, request correlation, the timeout
//! path, and the best-effort player counts.

use game_rooms::CentralServer;
use game_rooms::ClientSession;
use game_rooms::ClientToMatchmakingServer;
use game_rooms::GSToMM;
use game_rooms::Id;
use game_rooms::MMToGS;
use game_rooms::MatchmakingServer;
use game_rooms::MatchmakingServerToClient;
use game_rooms::RoomInfo;
use game_rooms::SpawnStep;

fn directory_of(server: &MatchmakingServer) -> Vec<RoomInfo> {
    match server.get_rooms() {
        MatchmakingServerToClient::RoomDirectory(list) => list,
        _ => panic!("GetRooms must answer with the directory"),
    }
}

fn sample_info(id: Id, name: &str) -> RoomInfo {
    RoomInfo {
        id,
        name: name.to_string(),
        max_players: 4,
        player_count: 0,
        is_private: false,
        has_started: false,
    }
}

#[test]
fn directory_starts_empty() {
    let server = MatchmakingServer::new();
    assert_eq!(directory_of(&server), Vec::<RoomInfo>::new());
}

#[test]
fn directory_holds_one_entry_per_successful_creation() {
    let mut server = MatchmakingServer::new();
    for i in 0..5u128 {
        let info = sample_info(Id::from_bits(i), &format!("Room{}", i));
        server.handle_host_message(GSToMM::CreateRoomSuccess {
            request_id: Id::from_bits(1000 + i),
            room_info: info,
            port: 9003 + i as u16,
        });
    }
    let list = directory_of(&server);
    assert_eq!(list.len(), 5);
    for i in 0..5u128 {
        assert!(list.iter().any(|r| r.id == Id::from_bits(i)));
    }
}

#[test]
fn creation_is_correlated_back_to_the_requesting_client() {
    let mut server = MatchmakingServer::new();
    let mut host = CentralServer::new(vec![9003]);
    let mut session = ClientSession::new(7);

    let handling = server.handle_client_message(
        &mut session,
        ClientToMatchmakingServer::CreateRoom {
            room_name: "Alpha".to_string(),
            is_private: false,
            max_players: 4,
        },
    );
    assert_eq!(handling.reply, None);
    assert!(!handling.close);
    let (request_id, name, is_private, max_players) = match handling.to_host {
        Some(MMToGS::CreateRoom { request_id, room_name, is_private, max_players }) => {
            (request_id, room_name, is_private, max_players)
        }
        None => panic!("CreateRoom must be delegated to the host"),
    };
    assert_eq!(name, "Alpha".to_string());

    let port = match host.begin_spawn_room(request_id) {
        SpawnStep::Bind { port } => port,
        SpawnStep::Refused(_) => panic!("a port was available"),
    };
    let (_room, reply) = host.finish_spawn_room(request_id, name, is_private, max_players, port);

    let resolution = server.handle_host_message(reply);
    let (client, message) = resolution.expect("the pending request must resolve");
    assert_eq!(client, 7);
    let room_id = match message {
        MatchmakingServerToClient::RoomCreated { room_id } => room_id,
        _ => panic!("the waiting client must learn of the new room"),
    };

    let list = directory_of(&server);
    assert_eq!(list.len(), 1);
    assert_eq!(list[0].id, room_id);
    assert_eq!(list[0].name, "Alpha".to_string());
    assert_eq!(list[0].player_count, 0);
    assert_eq!(list[0].max_players, 4);
    assert!(!list[0].is_private);

    match server.get_room_info(room_id) {
        MatchmakingServerToClient::RoomInfo { server_address } => {
            assert_eq!(server_address, format!("ws://127.0.0.1:{}", port));
        }
        _ => panic!("a known room must have an address"),
    }
}

#[test]
fn creation_failure_resolves_the_pending_request_with_the_message() {
    let mut server = MatchmakingServer::new();
    let mut session = ClientSession::new(3);
    let handling = server.handle_client_message(
        &mut session,
        ClientToMatchmakingServer::CreateRoom {
            room_name: "Full".to_string(),
            is_private: false,
            max_players: 4,
        },
    );
    let request_id = match handling.to_host {
        Some(MMToGS::CreateRoom { request_id, .. }) => request_id,
        None => panic!("CreateRoom must be delegated to the host"),
    };
    let resolution = server.handle_host_message(GSToMM::CreateRoomFailure {
        request_id,
        message: "No more ports available".to_string(),
    });
    assert_eq!(
        resolution,
        Some((
            3,
            MatchmakingServerToClient::Error("No more ports available".to_string())
        ))
    );
    assert_eq!(directory_of(&server), Vec::<RoomInfo>::new());
}

#[test]
fn timed_out_creation_resolves_with_an_error_and_clears_the_slot() {
    let mut server = MatchmakingServer::new();
    let mut session = ClientSession::new(9);
    let handling = server.handle_client_message(
        &mut session,
        ClientToMatchmakingServer::CreateRoom {
            room_name: "Slow".to_string(),
            is_private: true,
            max_players: 2,
        },
    );
    let request_id = match handling.to_host {
        Some(MMToGS::CreateRoom { request_id, .. }) => request_id,
        None => panic!("CreateRoom must be delegated to the host"),
    };
    assert_eq!(
        server.expire_create_request(request_id),
        Some((
            9,
            MatchmakingServerToClient::Error("Room creation failed".to_string())
        ))
    );
    assert_eq!(server.expire_create_request(request_id), None);
    let late = server.handle_host_message(GSToMM::CreateRoomSuccess {
        request_id,
        room_info: sample_info(Id::from_bits(50), "Slow"),
        port: 9004,
    });
    assert_eq!(late, None);
    assert_eq!(directory_of(&server).len(), 1);
}

#[test]
fn unknown_room_lookup_is_a_soft_error() {
    let server = MatchmakingServer::new();
    assert_eq!(
        server.get_room_info(Id::from_bits(404)),
        MatchmakingServerToClient::Error("Room not found".to_string())
    );
}

#[test]
fn host_reported_joins_and_leaves_move_the_count() {
    let mut server = MatchmakingServer::new();
    let room_id = Id::from_bits(1);
    server.handle_host_message(GSToMM::CreateRoomSuccess {
        request_id: Id::from_bits(2),
        room_info: sample_info(room_id, "Alpha"),
        port: 9003,
    });
    server.handle_host_message(GSToMM::ClientJoinedRoom { room_id });
    server.handle_host_message(GSToMM::ClientJoinedRoom { room_id });
    assert_eq!(directory_of(&server)[0].player_count, 2);
    server.handle_host_message(GSToMM::ClientDisconnectRoom { room_id });
    assert_eq!(directory_of(&server)[0].player_count, 1);
}

#[test]
fn count_never_goes_below_zero() {
    let mut server = MatchmakingServer::new();
    let room_id = Id::from_bits(1);
    server.handle_host_message(GSToMM::CreateRoomSuccess {
        request_id: Id::from_bits(2),
        room_info: sample_info(room_id, "Alpha"),
        port: 9003,
    });
    server.handle_host_message(GSToMM::ClientDisconnectRoom { room_id });
    assert_eq!(directory_of(&server)[0].player_count, 0);
}

#[test]
fn join_then_disconnect_leaves_the_count_where_it_was() {
    let mut server = MatchmakingServer::new();
    let room_id = Id::from_bits(1);
    let player_id = Id::from_bits(77);
    server.handle_host_message(GSToMM::CreateRoomSuccess {
        request_id: Id::from_bits(2),
        room_info: sample_info(room_id, "Alpha"),
        port: 9003,
    });
    let mut session = ClientSession::new(5);
    let joined = server.handle_client_message(
        &mut session,
        ClientToMatchmakingServer::JoinedRoom { room_id, player_id },
    );
    assert_eq!(joined.reply, None);
    assert!(!joined.close);
    assert_eq!(session.joined, Some((player_id, room_id)));
    assert_eq!(directory_of(&server)[0].player_count, 1);

    let closed =
        server.handle_client_message(&mut session, ClientToMatchmakingServer::Disconnect);
    assert!(closed.close);
    assert_eq!(session.joined, None);
    assert_eq!(directory_of(&server)[0].player_count, 0);
}

#[test]
fn disconnect_without_a_join_only_closes() {
    let mut server = MatchmakingServer::new();
    let mut session = ClientSession::new(5);
    let closed =
        server.handle_client_message(&mut session, ClientToMatchmakingServer::Disconnect);
    assert!(closed.close);
    assert_eq!(closed.reply, None);
    assert_eq!(closed.to_host, None);
}

#[test]
fn deleted_rooms_leave_both_tables() {
    let mut server = MatchmakingServer::new();
    let room_id = Id::from_bits(1);
    server.handle_host_message(GSToMM::CreateRoomSuccess {
        request_id: Id::from_bits(2),
        room_info: sample_info(room_id, "Alpha"),
        port: 9003,
    });
    server.handle_host_message(GSToMM::RoomDeleted { room_id });
    assert_eq!(directory_of(&server), Vec::<RoomInfo>::new());
    assert_eq!(
        server.get_room_info(room_id),
        MatchmakingServerToClient::Error("Room not found".to_string())
    );
}

#[test]
fn host_errors_are_ignored() {
    let mut server = MatchmakingServer::new();
    let resolution = server.handle_host_message(GSToMM::Error("boom".to_string()));
    assert_eq!(resolution, None);
    assert_eq!(directory_of(&server), Vec::<RoomInfo>::new());
}
