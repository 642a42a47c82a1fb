//! The draw and discard piles of one game, each a pile of card ids.

use vstd::prelude::*;

verus! {

/// The piles a game draws from and discards to.
pub struct DeckManager {
    item_draw_pile: Vec<String>,
    discard_pile: Vec<String>,
    round_discard_pile: Vec<String>,
    character_draw_pile: Vec<String>,
    super_character_draw_pile: Vec<String>,
}

impl DeckManager {
    /// The item draw pile, top last.
    pub closed spec fn spec_item_draw_pile(self) -> Seq<String> {
        self.item_draw_pile@
    }

    /// The discard pile.
    pub closed spec fn spec_discard_pile(self) -> Seq<String> {
        self.discard_pile@
    }

    /// The pile of cards discarded this round.
    pub closed spec fn spec_round_discard_pile(self) -> Seq<String> {
        self.round_discard_pile@
    }

    /// The character draw pile.
    pub closed spec fn spec_character_draw_pile(self) -> Seq<String> {
        self.character_draw_pile@
    }

    /// The super-character draw pile.
    pub closed spec fn spec_super_character_draw_pile(self) -> Seq<String> {
        self.super_character_draw_pile@
    }

    /// A deck manager with every pile empty.
    pub fn new() -> (d: DeckManager)
        ensures
            d.spec_item_draw_pile() == Seq::<String>::empty(),
            d.spec_discard_pile() == Seq::<String>::empty(),
            d.spec_round_discard_pile() == Seq::<String>::empty(),
            d.spec_character_draw_pile() == Seq::<String>::empty(),
            d.spec_super_character_draw_pile() == Seq::<String>::empty(),
    {
        DeckManager {
            item_draw_pile: Vec::new(),
            discard_pile: Vec::new(),
            round_discard_pile: Vec::new(),
            character_draw_pile: Vec::new(),
            super_character_draw_pile: Vec::new(),
        }
    }

    /// Puts a card on the item draw pile.
    pub fn add_item_draw_pile(&mut self, card_id: String)
        ensures
            final(self).spec_item_draw_pile() == old(self).spec_item_draw_pile().push(card_id),
            final(self).spec_discard_pile() == old(self).spec_discard_pile(),
            final(self).spec_round_discard_pile() == old(self).spec_round_discard_pile(),
            final(self).spec_character_draw_pile() == old(self).spec_character_draw_pile(),
            final(self).spec_super_character_draw_pile() == old(self).spec_super_character_draw_pile(),
    {
        self.item_draw_pile.push(card_id);
    }

    /// Puts a card on the character draw pile.
    pub fn add_character_draw_pile(&mut self, card_id: String)
        ensures
            final(self).spec_character_draw_pile() == old(self).spec_character_draw_pile().push(card_id),
            final(self).spec_item_draw_pile() == old(self).spec_item_draw_pile(),
            final(self).spec_discard_pile() == old(self).spec_discard_pile(),
            final(self).spec_round_discard_pile() == old(self).spec_round_discard_pile(),
            final(self).spec_super_character_draw_pile() == old(self).spec_super_character_draw_pile(),
    {
        self.character_draw_pile.push(card_id);
    }

    /// Puts a card on the super-character draw pile.
    pub fn add_super_character_draw_pile(&mut self, card_id: String)
        ensures
            final(self).spec_super_character_draw_pile() == old(self).spec_super_character_draw_pile().push(card_id),
            final(self).spec_item_draw_pile() == old(self).spec_item_draw_pile(),
            final(self).spec_discard_pile() == old(self).spec_discard_pile(),
            final(self).spec_round_discard_pile() == old(self).spec_round_discard_pile(),
            final(self).spec_character_draw_pile() == old(self).spec_character_draw_pile(),
    {
        self.super_character_draw_pile.push(card_id);
    }

    /// Puts a card on the discard pile.
    pub fn add_discard_pile(&mut self, card_id: String)
        ensures
            final(self).spec_discard_pile() == old(self).spec_discard_pile().push(card_id),
            final(self).spec_item_draw_pile() == old(self).spec_item_draw_pile(),
            final(self).spec_round_discard_pile() == old(self).spec_round_discard_pile(),
            final(self).spec_character_draw_pile() == old(self).spec_character_draw_pile(),
            final(self).spec_super_character_draw_pile() == old(self).spec_super_character_draw_pile(),
    {
        self.discard_pile.push(card_id);
    }

    /// The item draw pile.
    pub fn get_item_draw_pile(&self) -> (r: &Vec<String>)
        ensures
            r@ == self.spec_item_draw_pile(),
    {
        &self.item_draw_pile
    }
}

} // verus!
