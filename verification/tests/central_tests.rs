//! Game-server host behaviour: port reservation, room spawning, port
//! exhaustion, and the room address text.

use game_rooms::room_address;
use game_rooms::CentralServer;
use game_rooms::GSToMM;
use game_rooms::Id;
use game_rooms::SpawnStep;

#[test]
fn ports_deduplicated_and_reserved_in_order() {
    let host = CentralServer::new(vec![9003, 9004, 9003]);
    assert_eq!(host.free_port_count(), 2);
    assert_eq!(host.room_count(), 0);
    match host.begin_spawn_room(Id::from_bits(1)) {
        SpawnStep::Bind { port } => assert_eq!(port, 9003),
        SpawnStep::Refused(_) => panic!("ports were available"),
    }
}

#[test]
fn each_creation_gets_a_distinct_room_id_and_port() {
    let mut host = CentralServer::new(vec![9003, 9004]);

    let port1 = match host.begin_spawn_room(Id::from_bits(1)) {
        SpawnStep::Bind { port } => port,
        SpawnStep::Refused(_) => panic!("ports were available"),
    };
    let (room1, reply1) =
        host.finish_spawn_room(Id::from_bits(1), "One".to_string(), false, 4, port1);

    let port2 = match host.begin_spawn_room(Id::from_bits(2)) {
        SpawnStep::Bind { port } => port,
        SpawnStep::Refused(_) => panic!("ports were available"),
    };
    let (room2, reply2) =
        host.finish_spawn_room(Id::from_bits(2), "Two".to_string(), true, 2, port2);

    assert_eq!(port1, 9003);
    assert_eq!(port2, 9004);
    assert_ne!(room1.id(), room2.id());
    assert_eq!(host.room_count(), 2);
    assert_eq!(host.free_port_count(), 0);

    match reply1 {
        GSToMM::CreateRoomSuccess { request_id, room_info, port } => {
            assert_eq!(request_id, Id::from_bits(1));
            assert_eq!(port, 9003);
            assert_eq!(room_info.id, room1.id());
            assert_eq!(room_info.name, "One".to_string());
            assert_eq!(room_info.max_players, 4);
            assert_eq!(room_info.player_count, 0);
            assert!(!room_info.is_private);
            assert!(!room_info.has_started);
        }
        _ => panic!("expected a creation success"),
    }
    match reply2 {
        GSToMM::CreateRoomSuccess { room_info, .. } => {
            assert!(room_info.is_private);
            assert_eq!(room_info.max_players, 2);
        }
        _ => panic!("expected a creation success"),
    }
}

#[test]
fn exhausted_ports_refuse_with_an_explicit_failure() {
    let mut host = CentralServer::new(vec![9003]);
    let port = match host.begin_spawn_room(Id::from_bits(1)) {
        SpawnStep::Bind { port } => port,
        SpawnStep::Refused(_) => panic!("a port was available"),
    };
    host.finish_spawn_room(Id::from_bits(1), "Only".to_string(), false, 4, port);
    match host.begin_spawn_room(Id::from_bits(2)) {
        SpawnStep::Refused(GSToMM::CreateRoomFailure { request_id, message }) => {
            assert_eq!(request_id, Id::from_bits(2));
            assert_eq!(message, "No more ports available".to_string());
        }
        _ => panic!("expected the exhaustion failure"),
    }
}

#[test]
fn bind_failure_reply_names_the_request() {
    let host = CentralServer::new(vec![9003]);
    match host.abort_spawn_room(Id::from_bits(9)) {
        GSToMM::CreateRoomFailure { request_id, message } => {
            assert_eq!(request_id, Id::from_bits(9));
            assert_eq!(message, "Cannot bind address".to_string());
        }
        _ => panic!("expected a creation failure"),
    }
}

#[test]
fn unknown_control_message_gets_an_error_reply() {
    let host = CentralServer::new(vec![]);
    match host.unknown_message_reply() {
        GSToMM::Error(message) => {
            assert_eq!(message, "Unknown or unsupported message".to_string());
        }
        _ => panic!("expected an error reply"),
    }
}

#[test]
fn room_addresses_spell_the_port_in_decimal() {
    assert_eq!(room_address(9003), "ws://127.0.0.1:9003".to_string());
    assert_eq!(room_address(0), "ws://127.0.0.1:0".to_string());
    assert_eq!(room_address(7), "ws://127.0.0.1:7".to_string());
    assert_eq!(room_address(65535), "ws://127.0.0.1:65535".to_string());
    assert_eq!(room_address(1000), "ws://127.0.0.1:1000".to_string());
}
