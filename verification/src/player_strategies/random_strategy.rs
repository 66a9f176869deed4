use crate::game::Game;
use crate::models::card::Card;
use crate::models::player::OwnedCard;
use crate::player_strategies::player_strategy::DiceRollDecision;
use crate::player_strategies::player_strategy::ExchangeEstablishmentDecision;
use crate::player_strategies::player_strategy::GiveEstablishmentDecision;
use crate::player_strategies::player_strategy::PlayerStrategy;
use crate::player_strategies::player_strategy::PurchaseDecision;
use crate::player_strategies::strategy_utils::decide_purchase_randomly;
use crate::player_strategies::strategy_utils::dice_for_flip;
use crate::player_strategies::strategy_utils::exchange_for;
use crate::player_strategies::strategy_utils::gift_for_pick;
use crate::rng::coin_flip;
use crate::rng::entropy_generator;
use crate::rng::index_up_to;
use crate::rng::pick;
use rand::rngs::StdRng;
use vstd::prelude::*;

verus! {

/// A decision maker that picks at random among what the rules allow. Its
/// generator is seeded from system entropy, apart from the game's.
pub struct RandomStrategy {
    rng: StdRng,
}

impl RandomStrategy {
    /// A decision maker with a generator seeded from system entropy.
    pub fn new() -> Self {
        RandomStrategy { rng: entropy_generator() }
    }
}

impl PlayerStrategy for RandomStrategy {
    /// One die or two, each with the same chance.
    fn decide_dice_roll(&mut self, game: &Game) -> DiceRollDecision {
        dice_for_flip(coin_flip(&mut self.rng))
    }

    /// One of the affordable establishments or landmarks, or nothing, each
    /// with the same chance.
    fn decide_purchase(&mut self, game: &Game) -> (decision: PurchaseDecision)
        ensures
            game@.purchase_options().contains(decision),
            decision == PurchaseDecision::BuyNothing || game@.purchase_is_valid(decision),
    {
        decide_purchase_randomly(&mut self.rng, game)
    }

    /// One of the player's establishments, or none, each with the same chance;
    /// for an establishment, one of the opponents' establishments in return.
    /// No exchange where either side has nothing to give.
    fn decide_exchange_establishment(&mut self, game: &Game) -> (decision:
        ExchangeEstablishmentDecision)
        ensures
            game@.is_drawn_exchange(decision),
            decision is NoExchange || game@.exchange_decision_is_valid(decision),
    {
        let num_cards: usize = game.players[game.current_player].cards.len();
        if num_cards == 0 {
            assert(game@.exchange_for(0, None) == ExchangeEstablishmentDecision::NoExchange);
            return ExchangeEstablishmentDecision::NoExchange;
        }
        let choice_index: usize = index_up_to(&mut self.rng, num_cards);
        if choice_index == num_cards {
            assert(game@.exchange_for(choice_index as int, None)
                == ExchangeEstablishmentDecision::NoExchange);
            return ExchangeEstablishmentDecision::NoExchange;
        }
        let opponents_cards: Vec<(Card, usize)> = game.get_opponents_cards();
        let theirs: Option<(Card, usize)> = pick(&mut self.rng, &opponents_cards);
        let decision: ExchangeEstablishmentDecision = exchange_for(game, choice_index, theirs);
        proof {
            match theirs {
                Some(entry) => {
                    let k = choose|k: int| 0 <= k < opponents_cards@.len() && opponents_cards@[k] == entry;
                    assert(game@.players[opponents_cards@[k].1 as int].owns_card(entry.0));
                    assert(game@.current().owns_card(game@.current().cards[choice_index as int].card));
                },
                None => {},
            }
        }
        decision
    }

    /// One of the player's establishments, each with the same chance.
    fn decide_give_establishment(&mut self, game: &Game) -> (decision: GiveEstablishmentDecision)
        ensures
            decision matches GiveEstablishmentDecision::Give(card) ==> game@.current().owns_card(card),
            decision is NoGive <==> game@.current().cards.len() == 0,
    {
        let hand: &Vec<OwnedCard> = &game.players[game.current_player].cards;
        let picked: Option<OwnedCard> = pick(&mut self.rng, hand);
        proof {
            match picked {
                Some(owned_card) => {
                    let i = choose|i: int| 0 <= i < hand@.len() && hand@[i] == owned_card;
                    assert(game@.current().cards[i].card == owned_card.card);
                },
                None => {},
            }
        }
        gift_for_pick(picked)
    }
}

} // verus!
