use crate::game::Game;
use crate::models::card::Card;
use crate::player_strategies::player_strategy::DiceRollDecision;
use crate::player_strategies::player_strategy::ExchangeEstablishmentDecision;
use crate::player_strategies::player_strategy::GiveEstablishmentDecision;
use crate::player_strategies::player_strategy::PlayerStrategy;
use crate::player_strategies::player_strategy::PurchaseDecision;
use crate::player_strategies::random_strategy::RandomStrategy;
use vstd::prelude::*;

verus! {

/// A decision maker that buys the best establishment it can pay for and
/// leaves every other decision to chance.
pub struct GreedyBestCardStrategy {
    random: RandomStrategy,
}

/// The establishments worth buying before any other, the best first.
pub open spec fn spec_cards_to_buy() -> Seq<Card> {
    seq![Card::ShoppingDistrict, Card::Vineyard, Card::FlowerGarden]
}

/// The establishments worth buying before any other, the best first.
pub fn cards_to_buy() -> (cards: Vec<Card>)
    ensures
        cards@ == spec_cards_to_buy(),
{
    let cards: Vec<Card> = vec![Card::ShoppingDistrict, Card::Vineyard, Card::FlowerGarden];
    assert(cards@ =~= spec_cards_to_buy());
    cards
}

/// The first of `wanted` that is among `affordable`, if there is one.
pub open spec fn first_wanted(wanted: Seq<Card>, affordable: Seq<Card>) -> Option<Card>
    decreases wanted.len(),
{
    if wanted.len() == 0 {
        None
    } else if affordable.contains(wanted[0]) {
        Some(wanted[0])
    } else {
        first_wanted(wanted.drop_first(), affordable)
    }
}

/// The first of `wanted` that is among `affordable`, if there is one.
pub fn first_affordable(wanted: &Vec<Card>, affordable: &Vec<Card>) -> (found: Option<Card>)
    ensures
        found == first_wanted(wanted@, affordable@),
        match found {
            Some(card) => exists|i: int|
                {
                    &&& 0 <= i < wanted@.len()
                    &&& wanted@[i] == card
                    &&& affordable@.contains(card)
                    &&& forall|j: int| 0 <= j < i ==> !affordable@.contains(#[trigger] wanted@[j])
                },
            None => forall|j: int| 0 <= j < wanted@.len() ==> !affordable@.contains(#[trigger] wanted@[j]),
        },
{
    let mut i: usize = 0;
    assert(wanted@.skip(0) == wanted@);
    while i < wanted.len()
        invariant
            i <= wanted@.len(),
            forall|j: int| 0 <= j < i ==> !affordable@.contains(#[trigger] wanted@[j]),
            first_wanted(wanted@, affordable@) == first_wanted(wanted@.skip(i as int), affordable@),
        decreases wanted.len() - i,
    {
        let card: Card = wanted[i];
        proof {
            assert(wanted@.skip(i as int)[0] == card);
            assert(wanted@.skip(i as int).drop_first() == wanted@.skip(i + 1));
        }
        let mut k: usize = 0;
        while k < affordable.len()
            invariant
                i < wanted@.len(),
                wanted@[i as int] == card,
                wanted@.skip(i as int)[0] == card,
                wanted@.skip(i as int).drop_first() == wanted@.skip(i + 1),
                first_wanted(wanted@, affordable@) == first_wanted(wanted@.skip(i as int), affordable@),
                forall|j: int| 0 <= j < i ==> !affordable@.contains(#[trigger] wanted@[j]),
                k <= affordable@.len(),
                forall|m: int| 0 <= m < k ==> affordable@[m] != card,
            decreases affordable.len() - k,
        {
            if affordable[k] == card {
                assert(affordable@.contains(card));
                return Some(card);
            }
            k = k + 1;
        }
        i = i + 1;
    }
    None
}

impl GreedyBestCardStrategy {
    /// A decision maker with a generator seeded from system entropy.
    pub fn new() -> Self {
        GreedyBestCardStrategy { random: RandomStrategy::new() }
    }
}

impl PlayerStrategy for GreedyBestCardStrategy {
    /// The best establishment that the player can pay for, if any of the
    /// wanted ones is on display; else a purchase picked at random.
    fn decide_purchase(&mut self, game: &Game) -> (decision: PurchaseDecision)
        ensures
            match first_wanted(spec_cards_to_buy(), game@.affordable_cards()) {
                Some(card) => decision == PurchaseDecision::BuyCard(card),
                None => game@.purchase_options().contains(decision),
            },
            decision == PurchaseDecision::BuyNothing || game@.purchase_is_valid(decision),
    {
        let affordable_cards: Vec<Card> = game.get_affordable_cards();
        match first_affordable(&cards_to_buy(), &affordable_cards) {
            Some(card) => {
                proof {
                    let i = choose|i: int| 0 <= i < affordable_cards@.len() && affordable_cards@[i] == card;
                    assert(game@.purchase_is_valid(PurchaseDecision::BuyCard(affordable_cards@[i])));
                }
                PurchaseDecision::BuyCard(card)
            },
            None => self.random.decide_purchase(game),
        }
    }

    fn decide_dice_roll(&mut self, game: &Game) -> DiceRollDecision {
        self.random.decide_dice_roll(game)
    }

    fn decide_exchange_establishment(&mut self, game: &Game) -> (decision:
        ExchangeEstablishmentDecision)
        ensures
            game@.is_drawn_exchange(decision),
            decision is NoExchange || game@.exchange_decision_is_valid(decision),
    {
        self.random.decide_exchange_establishment(game)
    }

    fn decide_give_establishment(&mut self, game: &Game) -> (decision: GiveEstablishmentDecision)
        ensures
            decision matches GiveEstablishmentDecision::Give(card) ==> game@.current().owns_card(card),
            decision is NoGive <==> game@.current().cards.len() == 0,
    {
        self.random.decide_give_establishment(game)
    }
}

} // verus!
