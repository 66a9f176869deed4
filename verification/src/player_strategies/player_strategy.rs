use crate::game::Game;
use crate::models::card::Card;
use crate::models::landmark::Landmark;
use vstd::prelude::*;

verus! {

/// What a player does in the buy phase.
#[derive(Clone, Copy, Debug, PartialEq, Eq, Structural)]
pub enum PurchaseDecision {
    BuyCard(Card),
    BuyLandmark(Landmark),
    BuyNothing,
}

/// How many dice a player throws.
#[derive(Clone, Copy, Debug, PartialEq, Eq, Structural)]
pub enum DiceRollDecision {
    RollOne,
    RollTwo,
}

/// What a player does when an establishment lets the player exchange one.
#[derive(Clone, Copy, Debug, PartialEq, Eq, Structural)]
pub enum ExchangeEstablishmentDecision {
    /// The player's establishment, the opponent's seat, and the opponent's
    /// establishment.
    Exchange(Card, usize, Card),
    NoExchange,
}

/// What a player does when a landmark makes the player give an establishment
/// away.
#[derive(Clone, Copy, Debug, PartialEq, Eq, Structural)]
pub enum GiveEstablishmentDecision {
    Give(Card),
    /// For a player with nothing to give.
    NoGive,
}

/// A decision maker for one seat. The engine asks it, with the state as it
/// stands, whenever the player in that seat has a choice. Nothing is assumed
/// of the answers: the engine checks each against the rules and treats one
/// that they do not allow as a decision to do nothing.
pub trait PlayerStrategy {
    /// Asked at the start of the roll phase: one die or two.
    fn decide_dice_roll(&mut self, game: &Game) -> DiceRollDecision
        requires
            game@.seated(),
    ;

    /// Asked in the buy phase: what to buy, if anything.
    fn decide_purchase(&mut self, game: &Game) -> PurchaseDecision
        requires
            game@.seated(),
    ;

    /// Asked when an establishment of the player's lets the player exchange
    /// one: which for which, if any.
    fn decide_exchange_establishment(&mut self, game: &Game) -> ExchangeEstablishmentDecision
        requires
            game@.seated(),
    ;

    /// Asked when a landmark of the player's makes the player give an
    /// establishment away: which.
    fn decide_give_establishment(&mut self, game: &Game) -> GiveEstablishmentDecision
        requires
            game@.seated(),
    ;
}

} // verus!
