//! The events the rules engine reacts to. Handling them is the rules
//! backend's work; the orchestration layer only carries the data.

use vstd::prelude::*;

use crate::ids::Id;

verus! {

/// How a drawn card is picked from a pile.
#[derive(PartialEq, Eq, Debug)]
pub enum DrawSelector {
    /// Any card of the pile.
    Random,
    /// The card with this id.
    CardId(String),
}

/// A card was played by a player.
#[derive(PartialEq, Eq, Structural, Clone, Copy, Debug)]
pub struct CardEvent {
    pub card_instance_id: Id,
    pub player_id: Id,
}

impl CardEvent {
    /// The played card's instance id.
    pub fn card_instance_id(&self) -> (r: &Id)
        ensures
            *r == self.card_instance_id,
    {
        &self.card_instance_id
    }

    /// The player who played the card.
    pub fn player_id(&self) -> (r: &Id)
        ensures
            *r == self.player_id,
    {
        &self.player_id
    }
}

/// A round began.
#[derive(PartialEq, Eq, Structural, Clone, Copy, Debug)]
pub struct RoundEvent {
    pub round_number: usize,
}

/// One event for the rules engine.
#[derive(PartialEq, Eq, Debug)]
pub enum Event {
    CardPlayed(CardEvent),
    RoundStart(RoundEvent),
    DrawCard { player_id: Id, pile: String, selector: DrawSelector },
}

/// Dispatches events to the rules backend; the backend itself lives outside
/// this crate.
pub struct EventManager {}

impl EventManager {
    /// An event manager with no state yet.
    pub fn new() -> EventManager {
        EventManager {  }
    }
}

} // verus!
