use crate::game::Game;
use crate::game::GameView;
use crate::models::card::Card;
use crate::models::landmark::Landmark;
use crate::models::player::OwnedCard;
use crate::player_strategies::player_strategy::DiceRollDecision;
use crate::player_strategies::player_strategy::ExchangeEstablishmentDecision;
use crate::player_strategies::player_strategy::GiveEstablishmentDecision;
use crate::player_strategies::player_strategy::PurchaseDecision;
use crate::rng::pick;
use rand::rngs::StdRng;
use vstd::prelude::*;

verus! {

impl GameView {
    /// What the current player can decide in the buy phase without breaking
    /// a rule: to buy one of the affordable establishments, to build one of
    /// the affordable landmarks, or to buy nothing.
    pub open spec fn purchase_options(self) -> Seq<PurchaseDecision> {
        self.affordable_cards().map_values(|card: Card| PurchaseDecision::BuyCard(card))
            + self.affordable_landmarks().map_values(
            |landmark: Landmark| PurchaseDecision::BuyLandmark(landmark),
        ) + seq![PurchaseDecision::BuyNothing]
    }
}

impl GameView {
    /// The exchange that two draws make: the establishment at position
    /// `choice` of the current player's hand for the opponent's establishment
    /// drawn, and no exchange where the position lies past the hand or nothing
    /// was drawn.
    pub open spec fn exchange_for(
        self,
        choice: int,
        theirs: Option<(Card, usize)>,
    ) -> ExchangeEstablishmentDecision {
        let hand = self.current().cards;
        match theirs {
            Some((card, seat)) => if 0 <= choice < hand.len() {
                ExchangeEstablishmentDecision::Exchange(hand[choice].card, seat, card)
            } else {
                ExchangeEstablishmentDecision::NoExchange
            },
            None => ExchangeEstablishmentDecision::NoExchange,
        }
    }

    /// `decision` is an exchange drawn at random: what `exchange_for` makes of
    /// a position up to the length of the current player's hand, the length
    /// itself standing for no exchange, and of one of the opponents'
    /// establishments, or of none where the opponents hold none or the
    /// position stands for no exchange.
    pub open spec fn is_drawn_exchange(self, decision: ExchangeEstablishmentDecision) -> bool {
        exists|choice: int, theirs: Option<(Card, usize)>|
            {
                &&& 0 <= choice <= self.current().cards.len()
                &&& theirs matches Some(entry) ==> self.opponents_cards().contains(entry)
                &&& theirs is None ==> choice == self.current().cards.len()
                    || self.opponents_cards().len() == 0
                &&& decision == #[trigger] self.exchange_for(choice, theirs)
            }
    }
}

/// The dice that a flipped coin decides on: one die for heads, two for tails.
pub fn dice_for_flip(heads: bool) -> (decision: DiceRollDecision)
    ensures
        decision == if heads {
            DiceRollDecision::RollOne
        } else {
            DiceRollDecision::RollTwo
        },
{
    if heads {
        DiceRollDecision::RollOne
    } else {
        DiceRollDecision::RollTwo
    }
}

/// The purchase that a draw among the purchase options decides on: the option
/// drawn, and no purchase where nothing was drawn.
pub fn purchase_for_pick(picked: Option<PurchaseDecision>) -> (decision: PurchaseDecision)
    ensures
        decision == match picked {
            Some(option) => option,
            None => PurchaseDecision::BuyNothing,
        },
{
    match picked {
        Some(option) => option,
        None => PurchaseDecision::BuyNothing,
    }
}

/// The exchange that two draws decide on: the current player's establishment
/// at position `choice_index` for the opponent's establishment drawn, and no
/// exchange where the position lies past the hand or nothing was drawn.
pub fn exchange_for(game: &Game, choice_index: usize, theirs: Option<(Card, usize)>) -> (decision:
    ExchangeEstablishmentDecision)
    requires
        game@.seated(),
    ensures
        decision == game@.exchange_for(choice_index as int, theirs),
{
    let hand = &game.players[game.current_player].cards;
    match theirs {
        Some((card, seat)) => if choice_index < hand.len() {
            ExchangeEstablishmentDecision::Exchange(hand[choice_index].card, seat, card)
        } else {
            ExchangeEstablishmentDecision::NoExchange
        },
        None => ExchangeEstablishmentDecision::NoExchange,
    }
}

/// The gift that a draw from the current player's hand decides on: the
/// establishment drawn, and no gift where nothing was drawn.
pub fn gift_for_pick(picked: Option<OwnedCard>) -> (decision: GiveEstablishmentDecision)
    ensures
        decision == match picked {
            Some(owned) => GiveEstablishmentDecision::Give(owned.card),
            None => GiveEstablishmentDecision::NoGive,
        },
{
    match picked {
        Some(owned) => GiveEstablishmentDecision::Give(owned.card),
        None => GiveEstablishmentDecision::NoGive,
    }
}

/// The decisions that the current player can take in the buy phase without
/// breaking a rule, the decision to buy nothing last.
pub fn purchase_options(game: &Game) -> (options: Vec<PurchaseDecision>)
    requires
        game@.seated(),
    ensures
        options@ == game@.purchase_options(),
        options@.len() > 0,
        forall|i: int|
            0 <= i < options@.len() ==> (#[trigger] options@[i]) == PurchaseDecision::BuyNothing
                || game@.purchase_is_valid(options@[i]),
{
    let mut options: Vec<PurchaseDecision> = Vec::new();
    let cards: Vec<Card> = game.get_affordable_cards();
    let mut i: usize = 0;
    while i < cards.len()
        invariant
            i <= cards@.len(),
            forall|k: int|
                0 <= k < cards@.len() ==> game@.purchase_is_valid(
                    PurchaseDecision::BuyCard(#[trigger] cards@[k]),
                ),
            options@ == cards@.take(i as int).map_values(|card: Card| PurchaseDecision::BuyCard(card)),
        decreases cards.len() - i,
    {
        options.push(PurchaseDecision::BuyCard(cards[i]));
        assert(options@ =~= cards@.take(i + 1).map_values(
            |card: Card| PurchaseDecision::BuyCard(card),
        ));
        i = i + 1;
    }
    assert(cards@.take(cards@.len() as int) == cards@);
    let ghost card_options = options@;
    let landmarks: Vec<Landmark> = game.get_affordable_landmarks();
    let mut k: usize = 0;
    while k < landmarks.len()
        invariant
            k <= landmarks@.len(),
            options@ == card_options + landmarks@.take(k as int).map_values(
                |landmark: Landmark| PurchaseDecision::BuyLandmark(landmark),
            ),
        decreases landmarks.len() - k,
    {
        options.push(PurchaseDecision::BuyLandmark(landmarks[k]));
        assert(options@ =~= card_options + landmarks@.take(k + 1).map_values(
            |landmark: Landmark| PurchaseDecision::BuyLandmark(landmark),
        ));
        k = k + 1;
    }
    assert(landmarks@.take(landmarks@.len() as int) == landmarks@);
    options.push(PurchaseDecision::BuyNothing);
    proof {
        assert(options@ =~= game@.purchase_options());
        assert forall|i: int| 0 <= i < options@.len() implies (#[trigger] options@[i])
            == PurchaseDecision::BuyNothing || game@.purchase_is_valid(options@[i]) by {
            if i < cards@.len() {
                assert(options@[i] == PurchaseDecision::BuyCard(cards@[i]));
            } else if i < cards@.len() + landmarks@.len() {
                assert(options@[i] == PurchaseDecision::BuyLandmark(landmarks@[i - cards@.len()]));
            }
        }
    }
    options
}

/// The current player buys one of the affordable establishments, builds one
/// of the affordable landmarks, or buys nothing. `rng` picks among these
/// decisions, each with the same chance.
pub fn decide_purchase_randomly(rng: &mut StdRng, game: &Game) -> (decision: PurchaseDecision)
    requires
        game@.seated(),
    ensures
        game@.purchase_options().contains(decision),
        decision == PurchaseDecision::BuyNothing || game@.purchase_is_valid(decision),
{
    let options: Vec<PurchaseDecision> = purchase_options(game);
    assert(options@[options@.len() - 1] == PurchaseDecision::BuyNothing);
    purchase_for_pick(pick(rng, &options))
}

} // verus!
