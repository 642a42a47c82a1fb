//! Room roster behaviour: registration, soft rejection of duplicates,
//! disconnect fan-out, and the full two-player scenario.

use game_rooms::Delivery;
use game_rooms::GSToMM;
use game_rooms::Id;
use game_rooms::RegisterOutcome;
use game_rooms::RemoveOutcome;
use game_rooms::Room;
use game_rooms::ServerToClient;

fn alpha_room() -> Room {
    Room::new(Id::from_bits(1), "Alpha".to_string(), "GHZX".to_string())
}

#[test]
fn first_registration_broadcasts_to_nobody() {
    let mut room = alpha_room();
    let p1 = Id::from_bits(101);
    let outcome = room.register_player(p1, "P1".to_string(), 10);
    match outcome {
        RegisterOutcome::Accepted { reply, broadcasts, notify } => {
            assert_eq!(reply, ServerToClient::PlayerRegistered { player_id: p1 });
            assert_eq!(broadcasts, Vec::<Delivery>::new());
            assert_eq!(notify, GSToMM::ClientJoinedRoom { room_id: Id::from_bits(1) });
        }
        RegisterOutcome::Rejected { .. } => panic!("fresh registration was rejected"),
    }
    assert_eq!(room.player_count(), 1);
}

#[test]
fn second_registration_announced_to_first_player_only() {
    let mut room = alpha_room();
    let p1 = Id::from_bits(101);
    let p2 = Id::from_bits(102);
    room.register_player(p1, "P1".to_string(), 10);
    let outcome = room.register_player(p2, "P2".to_string(), 11);
    match outcome {
        RegisterOutcome::Accepted { reply, broadcasts, notify: _ } => {
            assert_eq!(reply, ServerToClient::PlayerRegistered { player_id: p2 });
            assert_eq!(
                broadcasts,
                vec![Delivery {
                    to: 10,
                    message: ServerToClient::PlayerJoined {
                        player_id: p2,
                        player_name: "P2".to_string(),
                    },
                }]
            );
        }
        RegisterOutcome::Rejected { .. } => panic!("fresh registration was rejected"),
    }
    assert_eq!(room.player_count(), 2);
}

#[test]
fn duplicate_registration_rejected_and_roster_unchanged() {
    let mut room = alpha_room();
    let p1 = Id::from_bits(101);
    room.register_player(p1, "P1".to_string(), 10);
    let before = room.player_count();
    let outcome = room.register_player(p1, "Impostor".to_string(), 12);
    match outcome {
        RegisterOutcome::Rejected { reply } => {
            assert_eq!(
                reply,
                ServerToClient::Error("Player already connected".to_string())
            );
        }
        RegisterOutcome::Accepted { .. } => panic!("duplicate registration was accepted"),
    }
    assert_eq!(room.player_count(), before);
}

#[test]
fn disconnect_removes_player_and_tells_each_remaining_player_once() {
    let mut room = alpha_room();
    let p1 = Id::from_bits(101);
    let p2 = Id::from_bits(102);
    let p3 = Id::from_bits(103);
    room.register_player(p1, "P1".to_string(), 10);
    room.register_player(p2, "P2".to_string(), 11);
    room.register_player(p3, "P3".to_string(), 12);
    let outcome = room.remove_player(p1);
    match outcome {
        RemoveOutcome::Removed { broadcasts, notify } => {
            assert_eq!(
                broadcasts,
                vec![
                    Delivery {
                        to: 11,
                        message: ServerToClient::PlayerDisconnect { player_id: p1 },
                    },
                    Delivery {
                        to: 12,
                        message: ServerToClient::PlayerDisconnect { player_id: p1 },
                    },
                ]
            );
            assert_eq!(notify, GSToMM::ClientDisconnectRoom { room_id: Id::from_bits(1) });
        }
        RemoveOutcome::NotPresent => panic!("registered player not found on removal"),
    }
    assert_eq!(room.player_count(), 2);
}

#[test]
fn removal_is_idempotent() {
    let mut room = alpha_room();
    let p1 = Id::from_bits(101);
    room.register_player(p1, "P1".to_string(), 10);
    assert!(matches!(room.remove_player(p1), RemoveOutcome::Removed { .. }));
    assert!(matches!(room.remove_player(p1), RemoveOutcome::NotPresent));
    assert_eq!(room.player_count(), 0);
}

#[test]
fn broadcast_reaches_every_player() {
    let mut room = alpha_room();
    room.register_player(Id::from_bits(101), "P1".to_string(), 10);
    room.register_player(Id::from_bits(102), "P2".to_string(), 11);
    let deliveries = room.broadcast(ServerToClient::Error("hello".to_string()));
    assert_eq!(deliveries.len(), 2);
    assert_eq!(deliveries[0].to, 10);
    assert_eq!(deliveries[1].to, 11);
    for d in &deliveries {
        assert_eq!(d.message, ServerToClient::Error("hello".to_string()));
    }
}

#[test]
fn register_then_disconnect_restores_roster() {
    let mut room = alpha_room();
    let p1 = Id::from_bits(101);
    let p2 = Id::from_bits(102);
    room.register_player(p1, "P1".to_string(), 10);
    room.register_player(p2, "P2".to_string(), 11);
    room.remove_player(p2);
    assert_eq!(room.player_count(), 1);
    let deliveries = room.broadcast(ServerToClient::Error("probe".to_string()));
    assert_eq!(deliveries.len(), 1);
    assert_eq!(deliveries[0].to, 10);
}
