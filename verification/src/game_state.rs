//! The shared game state that the rules engine consumes and produces. The
//! orchestration layer treats it as opaque data: rooms carry it, the rules
//! backend interprets it.

use vstd::prelude::*;

verus! {

/// Which part of a round the game is in.
#[derive(PartialEq, Eq, Structural, Clone, Copy, Debug)]
pub enum Phase {
    Round,
    Battle,
}

/// The state of one running game: the round counter and the current phase.
#[derive(PartialEq, Eq, Structural, Clone, Copy, Debug)]
pub struct GameState {
    round: i32,
    phase: Phase,
}

impl GameState {
    /// The round counter.
    pub closed spec fn spec_round(self) -> i32 {
        self.round
    }

    /// The current phase.
    pub closed spec fn spec_phase(self) -> Phase {
        self.phase
    }

    /// A game at its start: the first round, in the round phase.
    pub fn new() -> (s: GameState)
        ensures
            s.spec_round() == 1,
            s.spec_phase() == Phase::Round,
    {
        GameState { round: 1, phase: Phase::Round }
    }
}

} // verus!
