use crate::game::Game;
use crate::player_strategies::player_strategy::DiceRollDecision;
use crate::player_strategies::player_strategy::ExchangeEstablishmentDecision;
use crate::player_strategies::player_strategy::GiveEstablishmentDecision;
use crate::player_strategies::player_strategy::PlayerStrategy;
use crate::player_strategies::player_strategy::PurchaseDecision;
use crate::player_strategies::strategy_utils::dice_for_flip;
use crate::rng::coin_flip;
use crate::rng::entropy_generator;
use rand::rngs::StdRng;
use vstd::prelude::*;

verus! {

/// A decision maker that rolls one die or two at random and otherwise keeps
/// what it has: it buys nothing, exchanges nothing and gives nothing.
pub struct OptimizedStrategy {
    rng: StdRng,
}

impl OptimizedStrategy {
    /// A decision maker with a generator seeded from system entropy.
    pub fn new() -> Self {
        OptimizedStrategy { rng: entropy_generator() }
    }
}

impl PlayerStrategy for OptimizedStrategy {
    fn decide_dice_roll(&mut self, game: &Game) -> DiceRollDecision {
        dice_for_flip(coin_flip(&mut self.rng))
    }

    fn decide_purchase(&mut self, game: &Game) -> (decision: PurchaseDecision)
        ensures
            decision == PurchaseDecision::BuyNothing,
    {
        PurchaseDecision::BuyNothing
    }

    fn decide_exchange_establishment(&mut self, game: &Game) -> (decision:
        ExchangeEstablishmentDecision)
        ensures
            decision == ExchangeEstablishmentDecision::NoExchange,
    {
        ExchangeEstablishmentDecision::NoExchange
    }

    fn decide_give_establishment(&mut self, game: &Game) -> (decision: GiveEstablishmentDecision)
        ensures
            decision == GiveEstablishmentDecision::NoGive,
    {
        GiveEstablishmentDecision::NoGive
    }
}

} // verus!
