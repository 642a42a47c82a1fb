//! The game-side data types: operator comparison, deck piles, durations,
//! statuses, events and the starting game state.

use game_rooms::compare_ints;
use game_rooms::CardEvent;
use game_rooms::DeckManager;
use game_rooms::DrawSelector;
use game_rooms::Duration;
use game_rooms::Event;
use game_rooms::EventManager;
use game_rooms::GameState;
use game_rooms::Id;
use game_rooms::Status;

#[test]
fn compare_ints_knows_each_operator() {
    assert!(compare_ints("equal", 3, 3));
    assert!(!compare_ints("equal", 3, 4));
    assert!(compare_ints("not_equal", 3, 4));
    assert!(!compare_ints("not_equal", 4, 4));
    assert!(compare_ints("greater_than", 5, 4));
    assert!(!compare_ints("greater_than", 4, 4));
    assert!(compare_ints("less_than", 3, 4));
    assert!(!compare_ints("less_than", 4, 3));
    assert!(compare_ints("greater_than_or_equal_to", 4, 4));
    assert!(!compare_ints("greater_than_or_equal_to", 3, 4));
    assert!(compare_ints("less_than_or_equal_to", 4, 4));
    assert!(!compare_ints("less_than_or_equal_to", 5, 4));
}

#[test]
fn compare_ints_rejects_unknown_operators() {
    assert!(!compare_ints("", 1, 1));
    assert!(!compare_ints("=", 1, 1));
    assert!(!compare_ints("equals", 1, 1));
}

#[test]
fn deck_piles_keep_what_was_added() {
    let mut deck = DeckManager::new();
    assert_eq!(deck.get_item_draw_pile(), &Vec::<String>::new());
    deck.add_item_draw_pile("sword".to_string());
    deck.add_item_draw_pile("shield".to_string());
    deck.add_character_draw_pile("knight".to_string());
    deck.add_super_character_draw_pile("dragon".to_string());
    deck.add_discard_pile("rock".to_string());
    assert_eq!(
        deck.get_item_draw_pile(),
        &vec!["sword".to_string(), "shield".to_string()]
    );
}

#[test]
fn durations_compare_by_their_parts() {
    assert_eq!(
        Duration::new("round".to_string(), Some(2)),
        Duration::new("round".to_string(), Some(2))
    );
    assert_ne!(
        Duration::new("round".to_string(), Some(2)),
        Duration::new("round".to_string(), Some(3))
    );
    assert_ne!(
        Duration::new("round".to_string(), None),
        Duration::new("battle".to_string(), None)
    );
}

#[test]
fn statuses_carry_their_durations() {
    let frozen = Status::Frozen { duration: Duration::new("round".to_string(), Some(1)) };
    let silenced = Status::Silenced { duration: Duration::new("round".to_string(), Some(1)) };
    assert_ne!(frozen, silenced);
}

#[test]
fn card_events_hand_back_their_identities() {
    let event = CardEvent {
        card_instance_id: Id::from_bits(31),
        player_id: Id::from_bits(32),
    };
    assert_eq!(*event.card_instance_id(), Id::from_bits(31));
    assert_eq!(*event.player_id(), Id::from_bits(32));
    let _wrapped = Event::CardPlayed(event);
    let _draw = Event::DrawCard {
        player_id: Id::from_bits(32),
        pile: "standard".to_string(),
        selector: DrawSelector::Random,
    };
    let _manager = EventManager::new();
}

#[test]
fn new_games_start_alike() {
    assert_eq!(GameState::new(), GameState::new());
}
