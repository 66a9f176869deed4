use crate::game::Game;
use crate::player_strategies::player_strategy::DiceRollDecision;
use crate::player_strategies::player_strategy::ExchangeEstablishmentDecision;
use crate::player_strategies::player_strategy::GiveEstablishmentDecision;
use crate::player_strategies::player_strategy::PlayerStrategy;
use crate::player_strategies::player_strategy::PurchaseDecision;
use vstd::prelude::*;

verus! {

/// A decision maker without a will of its own: it always rolls two dice and
/// never buys, exchanges or gives.
pub struct GreedyStrategy;

impl PlayerStrategy for GreedyStrategy {
    fn decide_dice_roll(&mut self, game: &Game) -> (decision: DiceRollDecision)
        ensures
            decision == DiceRollDecision::RollTwo,
    {
        DiceRollDecision::RollTwo
    }

    fn decide_purchase(&mut self, game: &Game) -> (decision: PurchaseDecision)
        ensures
            decision == PurchaseDecision::BuyNothing,
    {
        PurchaseDecision::BuyNothing
    }

    fn decide_exchange_establishment(&mut self, game: &Game) -> (decision:
        ExchangeEstablishmentDecision)
        ensures
            decision == ExchangeEstablishmentDecision::NoExchange,
    {
        ExchangeEstablishmentDecision::NoExchange
    }

    fn decide_give_establishment(&mut self, game: &Game) -> (decision: GiveEstablishmentDecision)
        ensures
            decision == GiveEstablishmentDecision::NoGive,
    {
        GiveEstablishmentDecision::NoGive
    }
}

} // verus!
