use crate::game::Game;
use crate::models::landmark::Landmark;
use crate::player_strategies::player_strategy::DiceRollDecision;
use crate::player_strategies::player_strategy::ExchangeEstablishmentDecision;
use crate::player_strategies::player_strategy::GiveEstablishmentDecision;
use crate::player_strategies::player_strategy::PlayerStrategy;
use crate::player_strategies::player_strategy::PurchaseDecision;
use crate::player_strategies::random_strategy::RandomStrategy;
use vstd::prelude::*;

verus! {

/// A decision maker that builds a landmark whenever it can pay for one and
/// leaves every other decision to chance.
pub struct LandmarkRushStrategy {
    random: RandomStrategy,
}

impl LandmarkRushStrategy {
    /// A decision maker with a generator seeded from system entropy.
    pub fn new() -> Self {
        LandmarkRushStrategy { random: RandomStrategy::new() }
    }
}

impl PlayerStrategy for LandmarkRushStrategy {
    /// The first affordable landmark on display, if there is one; else a
    /// purchase picked at random.
    fn decide_purchase(&mut self, game: &Game) -> (decision: PurchaseDecision)
        ensures
            decision == PurchaseDecision::BuyNothing || game@.purchase_is_valid(decision),
            game@.affordable_landmarks().len() > 0 ==> decision == PurchaseDecision::BuyLandmark(
                game@.affordable_landmarks()[0],
            ),
    {
        let landmarks: Vec<Landmark> = game.get_affordable_landmarks();
        if landmarks.len() > 0 {
            return PurchaseDecision::BuyLandmark(landmarks[0]);
        }
        self.random.decide_purchase(game)
    }

    fn decide_dice_roll(&mut self, game: &Game) -> DiceRollDecision {
        self.random.decide_dice_roll(game)
    }

    fn decide_exchange_establishment(&mut self, game: &Game) -> (decision:
        ExchangeEstablishmentDecision)
        ensures
            game@.is_drawn_exchange(decision),
            decision is NoExchange || game@.exchange_decision_is_valid(decision),
    {
        self.random.decide_exchange_establishment(game)
    }

    fn decide_give_establishment(&mut self, game: &Game) -> (decision: GiveEstablishmentDecision)
        ensures
            decision matches GiveEstablishmentDecision::Give(card) ==> game@.current().owns_card(card),
            decision is NoGive <==> game@.current().cards.len() == 0,
    {
        self.random.decide_give_establishment(game)
    }
}

} // verus!
