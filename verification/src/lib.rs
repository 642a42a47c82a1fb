//! Room-orchestration library for a multiplayer card game: a matchmaking
//! directory, a pool of game-hosting processes that spawn isolated rooms on
//! reserved ports, and the per-room player registry, all modelled as verified
//! state machines driven by the wire messages of the three links
//! (client to matchmaking, matchmaking to host, player to room).

mod addr;
mod central;
mod condition;
mod deck;
mod duration;
mod event_manager;
mod game_state;
mod idmap;
mod ids;
mod matchmaking;
mod messages;
mod room;
mod status;

pub use addr::decimal_string;
pub use addr::room_address;
pub use addr::spec_decimal;
pub use addr::spec_digit;
pub use addr::spec_room_address;
pub use central::lemma_spawned_rooms_distinct;
pub use central::CentralServer;
pub use central::SpawnStep;
pub use condition::compare_ints;
pub use condition::spec_compare_ints;
pub use condition::Condition;
pub use deck::DeckManager;
pub use duration::Duration;
pub use event_manager::CardEvent;
pub use event_manager::DrawSelector;
pub use event_manager::Event;
pub use event_manager::EventManager;
pub use event_manager::RoundEvent;
pub use game_state::GameState;
pub use game_state::Phase;
pub use idmap::distinct_keys;
pub use idmap::lemma_map_domain;
pub use idmap::lemma_map_index;
pub use idmap::lemma_map_len;
pub use idmap::seq_to_map;
pub use idmap::IdMap;
pub use ids::Id;
pub use matchmaking::dec_count;
pub use matchmaking::directory_after_creations;
pub use matchmaking::directory_after_join;
pub use matchmaking::directory_after_leave;
pub use matchmaking::inc_count;
pub use matchmaking::lemma_directory_after_creations;
pub use matchmaking::lemma_directory_keyed_by_id;
pub use matchmaking::lemma_join_then_disconnect_restores;
pub use matchmaking::with_count;
pub use matchmaking::ClientHandling;
pub use matchmaking::ClientSession;
pub use matchmaking::MatchmakingServer;
pub use messages::ClientToMatchmakingServer;
pub use messages::ClientToServer;
pub use messages::GSToMM;
pub use messages::MMToGS;
pub use messages::MatchmakingServerToClient;
pub use messages::RoomInfo;
pub use messages::ServerToClient;
pub use room::lemma_register_disconnect_round_trip;
pub use room::Delivery;
pub use room::PlayerInfo;
pub use room::RegisterOutcome;
pub use room::RemoveOutcome;
pub use room::Room;
pub use status::Status;
