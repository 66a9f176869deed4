use crate::game::Game;
use crate::game::GameView;
use crate::market::on_display;
use crate::market::Slot;
use crate::models::card::Card;
use crate::models::landmark::Landmark;
use crate::models::player::OwnedCard;
use crate::player_strategies::player_strategy::PurchaseDecision;
use vstd::prelude::*;

verus! {

/// The establishments shown in `slots` that `game`'s current player can pay
/// for, in the order of the slots.
pub open spec fn affordable_cards_among(game: GameView, slots: Seq<Slot<Card>>) -> Seq<Card>
    decreases slots.len(),
{
    if slots.len() == 0 {
        Seq::empty()
    } else {
        let card = slots.last().tag;
        let before = affordable_cards_among(game, slots.drop_last());
        if game.current_player_can_afford_card(card) {
            before.push(card)
        } else {
            before
        }
    }
}

/// The landmarks shown in `slots` that `game`'s current player can pay for
/// and may build, in the order of the slots.
pub open spec fn affordable_landmarks_among(game: GameView, slots: Seq<Slot<Landmark>>) -> Seq<
    Landmark,
>
    decreases slots.len(),
{
    if slots.len() == 0 {
        Seq::empty()
    } else {
        let landmark = slots.last().tag;
        let before = affordable_landmarks_among(game, slots.drop_last());
        if game.current_player_can_afford_landmark(landmark) {
            before.push(landmark)
        } else {
            before
        }
    }
}

/// The establishments of `hand`, each paired with the seat `owner`.
pub open spec fn cards_with_owner(hand: Seq<OwnedCard>, owner: usize) -> Seq<(Card, usize)> {
    Seq::new(hand.len(), |i: int| (hand[i].card, owner))
}

/// The establishments of the first `upto` players other than the current
/// one, seat after seat, each with its owner's seat.
pub open spec fn opponents_cards_upto(game: GameView, upto: int) -> Seq<(Card, usize)>
    decreases upto,
{
    if upto <= 0 {
        Seq::empty()
    } else {
        let before = opponents_cards_upto(game, upto - 1);
        if upto - 1 != game.current_player {
            before + cards_with_owner(game.players[upto - 1].cards, (upto - 1) as usize)
        } else {
            before
        }
    }
}

impl GameView {
    /// The establishments on display that the current player can pay for:
    /// those of the low display, then those of the high one.
    pub open spec fn affordable_cards(self) -> Seq<Card> {
        affordable_cards_among(self, self.less_than_7.face_up) + affordable_cards_among(
            self,
            self.greater_than_6.face_up,
        )
    }

    /// The landmarks on display that the current player can pay for and may
    /// build.
    pub open spec fn affordable_landmarks(self) -> Seq<Landmark> {
        affordable_landmarks_among(self, self.landmarks.face_up)
    }

    /// The establishments of the players other than the current one, each
    /// with its owner's seat.
    pub open spec fn opponents_cards(self) -> Seq<(Card, usize)> {
        opponents_cards_upto(self, self.players.len() as int)
    }
}

/// What is listed as affordable lies in the slots and can be paid for, and
/// what lies in the slots and can be paid for is listed.
proof fn lemma_affordable_cards_among(game: GameView, slots: Seq<Slot<Card>>, card: Card)
    ensures
        affordable_cards_among(game, slots).contains(card) <==> on_display(slots, card)
            && game.current_player_can_afford_card(card),
    decreases slots.len(),
{
    let listed = affordable_cards_among(game, slots);
    if slots.len() > 0 {
        let rest = slots.drop_last();
        let before = affordable_cards_among(game, rest);
        lemma_affordable_cards_among(game, rest, card);
        if listed.contains(card) {
            let k = choose|k: int| 0 <= k < listed.len() && listed[k] == card;
            if k < before.len() {
                assert(before[k] == card);
                assert(before.contains(card));
                let i = choose|i: int| 0 <= i < rest.len() && (#[trigger] rest[i]).tag == card;
                assert(slots[i].tag == card);
            } else {
                assert(slots[slots.len() - 1].tag == card);
            }
        }
        if on_display(slots, card) && game.current_player_can_afford_card(card) {
            let i = choose|i: int| 0 <= i < slots.len() && (#[trigger] slots[i]).tag == card;
            if i < rest.len() {
                assert(rest[i].tag == card);
                let k = choose|k: int| 0 <= k < before.len() && before[k] == card;
                assert(listed[k] == card);
            } else {
                assert(listed[listed.len() - 1] == card);
            }
        }
    }
}

/// What is listed as affordable lies in the slots and can be paid for, and
/// what lies in the slots and can be paid for is listed.
proof fn lemma_affordable_landmarks_among(
    game: GameView,
    slots: Seq<Slot<Landmark>>,
    landmark: Landmark,
)
    ensures
        affordable_landmarks_among(game, slots).contains(landmark) <==> on_display(slots, landmark)
            && game.current_player_can_afford_landmark(landmark),
    decreases slots.len(),
{
    let listed = affordable_landmarks_among(game, slots);
    if slots.len() > 0 {
        let rest = slots.drop_last();
        let before = affordable_landmarks_among(game, rest);
        lemma_affordable_landmarks_among(game, rest, landmark);
        if listed.contains(landmark) {
            let k = choose|k: int| 0 <= k < listed.len() && listed[k] == landmark;
            if k < before.len() {
                assert(before[k] == landmark);
                assert(before.contains(landmark));
                let i = choose|i: int| 0 <= i < rest.len() && (#[trigger] rest[i]).tag == landmark;
                assert(slots[i].tag == landmark);
            } else {
                assert(slots[slots.len() - 1].tag == landmark);
            }
        }
        if on_display(slots, landmark) && game.current_player_can_afford_landmark(landmark) {
            let i = choose|i: int| 0 <= i < slots.len() && (#[trigger] slots[i]).tag == landmark;
            if i < rest.len() {
                assert(rest[i].tag == landmark);
                let k = choose|k: int| 0 <= k < before.len() && before[k] == landmark;
                assert(listed[k] == landmark);
            } else {
                assert(listed[listed.len() - 1] == landmark);
            }
        }
    }
}

/// The purchases that the listings offer are exactly those that the rules
/// allow: an establishment or a landmark is listed as affordable if and only
/// if the decision to buy it is valid.
pub proof fn lemma_listings_are_the_valid_purchases(game: GameView, decision: PurchaseDecision)
    ensures
        decision matches PurchaseDecision::BuyCard(card) ==> (game.affordable_cards().contains(card)
            <==> game.purchase_is_valid(decision)),
        decision matches PurchaseDecision::BuyLandmark(landmark) ==> (
        game.affordable_landmarks().contains(landmark) <==> game.purchase_is_valid(decision)),
{
    match decision {
        PurchaseDecision::BuyCard(card) => {
            lemma_affordable_cards_among(game, game.less_than_7.face_up, card);
            lemma_affordable_cards_among(game, game.greater_than_6.face_up, card);
            let low = affordable_cards_among(game, game.less_than_7.face_up);
            let high = affordable_cards_among(game, game.greater_than_6.face_up);
            if (low + high).contains(card) {
                let k = choose|k: int| 0 <= k < (low + high).len() && (low + high)[k] == card;
                if k < low.len() {
                    assert(low[k] == card);
                } else {
                    assert(high[k - low.len()] == card);
                }
            }
            if low.contains(card) {
                let k = choose|k: int| 0 <= k < low.len() && low[k] == card;
                assert((low + high)[k] == card);
            }
            if high.contains(card) {
                let k = choose|k: int| 0 <= k < high.len() && high[k] == card;
                assert((low + high)[low.len() + k] == card);
            }
        },
        PurchaseDecision::BuyLandmark(landmark) => {
            lemma_affordable_landmarks_among(game, game.landmarks.face_up, landmark);
        },
        PurchaseDecision::BuyNothing => {},
    }
}

/// Appends to `cards` the establishments shown in `slots` that the current
/// player can pay for.
fn push_affordable_cards(game: &Game, slots: &Vec<Slot<Card>>, cards: &mut Vec<Card>)
    requires
        game@.seated(),
    ensures
        final(cards)@ == old(cards)@ + affordable_cards_among(game@, slots@),
{
    let ghost start = cards@;
    let mut i: usize = 0;
    while i < slots.len()
        invariant
            game@.seated(),
            i <= slots@.len(),
            cards@ == start + affordable_cards_among(game@, slots@.take(i as int)),
        decreases slots.len() - i,
    {
        let card: Card = slots[i].tag;
        proof {
            let next = slots@.take(i + 1);
            assert(next.drop_last() == slots@.take(i as int));
            assert(next.last() == slots@[i as int]);
        }
        if game.current_player_can_afford_card(&card) {
            cards.push(card);
            assert(cards@ =~= start + affordable_cards_among(game@, slots@.take(i + 1)));
        }
        i = i + 1;
    }
    proof {
        assert(slots@.take(slots@.len() as int) == slots@);
    }
}

/// What the game lets a decision maker read.
impl Game {
    /// The establishments on display that the current player is able to buy.
    pub fn get_affordable_cards(&self) -> (cards: Vec<Card>)
        requires
            self@.seated(),
        ensures
            cards@ == self@.affordable_cards(),
            forall|i: int|
                0 <= i < cards@.len() ==> self@.purchase_is_valid(
                    PurchaseDecision::BuyCard(#[trigger] cards@[i]),
                ),
    {
        let mut cards: Vec<Card> = Vec::new();
        push_affordable_cards(self, &self.less_than_7.face_up, &mut cards);
        push_affordable_cards(self, &self.greater_than_6.face_up, &mut cards);
        proof {
            assert forall|i: int| 0 <= i < cards@.len() implies self@.purchase_is_valid(
                PurchaseDecision::BuyCard(#[trigger] cards@[i]),
            ) by {
                assert(cards@.contains(cards@[i]));
                lemma_listings_are_the_valid_purchases(self@, PurchaseDecision::BuyCard(cards@[i]));
            }
        }
        cards
    }

    /// The landmarks on display that the current player is able to buy.
    pub fn get_affordable_landmarks(&self) -> (landmarks: Vec<Landmark>)
        requires
            self@.seated(),
        ensures
            landmarks@ == self@.affordable_landmarks(),
            forall|i: int|
                0 <= i < landmarks@.len() ==> self@.purchase_is_valid(
                    PurchaseDecision::BuyLandmark(#[trigger] landmarks@[i]),
                ),
    {
        let mut landmarks: Vec<Landmark> = Vec::new();
        let slots = &self.landmarks.face_up;
        let mut i: usize = 0;
        while i < slots.len()
            invariant
                self@.seated(),
                slots@ == self@.landmarks.face_up,
                i <= slots@.len(),
                landmarks@ == affordable_landmarks_among(self@, slots@.take(i as int)),
            decreases slots.len() - i,
        {
            let landmark: Landmark = slots[i].tag;
            proof {
                let next = slots@.take(i + 1);
                assert(next.drop_last() == slots@.take(i as int));
                assert(next.last() == slots@[i as int]);
            }
            if self.current_player_can_afford_landmark(&landmark) {
                landmarks.push(landmark);
            }
            i = i + 1;
        }
        proof {
            assert(slots@.take(slots@.len() as int) == slots@);
            assert forall|i: int| 0 <= i < landmarks@.len() implies self@.purchase_is_valid(
                PurchaseDecision::BuyLandmark(#[trigger] landmarks@[i]),
            ) by {
                assert(landmarks@.contains(landmarks@[i]));
                lemma_listings_are_the_valid_purchases(
                    self@,
                    PurchaseDecision::BuyLandmark(landmarks@[i]),
                );
            }
        }
        landmarks
    }

    /// The establishments that the opponents of the current player hold, each
    /// with its owner's seat.
    pub fn get_opponents_cards(&self) -> (cards: Vec<(Card, usize)>)
        requires
            self@.seated(),
        ensures
            cards@ == self@.opponents_cards(),
            forall|i: int|
                0 <= i < cards@.len() ==> {
                    let entry = #[trigger] cards@[i];
                    &&& entry.1 < self@.players.len()
                    &&& entry.1 != self@.current_player
                    &&& self@.players[entry.1 as int].owns_card(entry.0)
                },
    {
        let mut cards: Vec<(Card, usize)> = Vec::new();
        let mut index: usize = 0;
        while index < self.players.len()
            invariant
                self@.seated(),
                index <= self.players@.len(),
                cards@ == opponents_cards_upto(self@, index as int),
                forall|i: int|
                    0 <= i < cards@.len() ==> {
                        let entry = #[trigger] cards@[i];
                        &&& entry.1 < self@.players.len()
                        &&& entry.1 != self@.current_player
                        &&& self@.players[entry.1 as int].owns_card(entry.0)
                    },
            decreases self.players.len() - index,
        {
            if index != self.current_player {
                let hand = &self.players[index].cards;
                let ghost before = cards@;
                let mut k: usize = 0;
                while k < hand.len()
                    invariant
                        self@.seated(),
                        index < self.players@.len(),
                        index != self@.current_player,
                        hand@ == self@.players[index as int].cards,
                        k <= hand@.len(),
                        cards@ == before + cards_with_owner(hand@, index).take(k as int),
                        forall|i: int|
                            0 <= i < cards@.len() ==> {
                                let entry = #[trigger] cards@[i];
                                &&& entry.1 < self@.players.len()
                                &&& entry.1 != self@.current_player
                                &&& self@.players[entry.1 as int].owns_card(entry.0)
                            },
                    decreases hand.len() - k,
                {
                    let ghost sofar = cards@;
                    cards.push((hand[k].card, index));
                    proof {
                        let all = cards_with_owner(hand@, index);
                        assert(all.take(k + 1) =~= all.take(k as int).push(all[k as int]));
                        assert(cards@ =~= before + all.take(k + 1));
                        assert(self@.players[index as int].cards[k as int].card == hand@[k as int].card);
                        assert forall|i: int| 0 <= i < cards@.len() implies {
                            let entry = #[trigger] cards@[i];
                            &&& entry.1 < self@.players.len()
                            &&& entry.1 != self@.current_player
                            &&& self@.players[entry.1 as int].owns_card(entry.0)
                        } by {
                            if i < sofar.len() {
                                assert(cards@[i] == sofar[i]);
                            }
                        }
                    }
                    k = k + 1;
                }
                proof {
                    let all = cards_with_owner(hand@, index);
                    assert(all.take(hand@.len() as int) =~= all);
                }
            }
            index = index + 1;
        }
        cards
    }
}

} // verus!
