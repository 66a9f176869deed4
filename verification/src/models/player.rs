use crate::models::card::Card;
use crate::models::card::CardCategory;
use crate::models::card::CardColor;
use crate::models::landmark::lemma_capability_table_is_consistent;
use crate::models::landmark::Landmark;
use crate::models::landmark::LandmarkHook;
use crate::rules::landmark::get_landmark_cost_reduction;
use vstd::prelude::*;

verus! {

/// The number of landmarks that wins the game.
pub const LANDMARKS_TO_WIN: usize = 3;

/// The coins that every player starts with.
pub const STARTING_COINS: u16 = 5;

/// An establishment in a player's hand, with the round in which it came there.
#[derive(Clone, Copy, Debug, PartialEq, Eq, Structural)]
pub struct OwnedCard {
    pub card: Card,
    pub bought_round: u8,
}

/// A landmark that a player has built, with the round in which it was built.
#[derive(Clone, Copy, Debug, PartialEq, Eq, Structural)]
pub struct OwnedLandmark {
    pub landmark: Landmark,
    pub bought_round: u8,
}

/// One participant's ledger.
#[derive(Clone, Debug)]
pub struct Player {
    pub coins: u16,
    pub cards: Vec<OwnedCard>,
    pub landmarks: Vec<OwnedLandmark>,
    /// One entry per roll: the number of dice thrown and the round.
    pub dice_rolls: Vec<(u8, u8)>,
}

/// The mathematical model of a [`Player`].
pub struct PlayerView {
    pub coins: int,
    pub cards: Seq<OwnedCard>,
    pub landmarks: Seq<OwnedLandmark>,
    pub dice_rolls: Seq<(u8, u8)>,
}

impl View for Player {
    type V = PlayerView;

    open spec fn view(&self) -> PlayerView {
        PlayerView {
            coins: self.coins as int,
            cards: self.cards@,
            landmarks: self.landmarks@,
            dice_rolls: self.dice_rolls@,
        }
    }
}

/// The number of establishments in `cards` of the given category.
pub open spec fn count_category(cards: Seq<OwnedCard>, category: CardCategory) -> nat
    decreases cards.len(),
{
    if cards.len() == 0 {
        0
    } else {
        count_category(cards.drop_last(), category) + if cards.last().card.spec_def().category
            == category {
            1nat
        } else {
            0nat
        }
    }
}

/// The number of establishments in `cards` of the given colour.
pub open spec fn count_color(cards: Seq<OwnedCard>, color: CardColor) -> nat
    decreases cards.len(),
{
    if cards.len() == 0 {
        0
    } else {
        count_color(cards.drop_last(), color) + if cards.last().card.spec_def().color == color {
            1nat
        } else {
            0nat
        }
    }
}

/// The sum of what the landmarks in `landmarks` take off the price of `target`.
pub open spec fn total_cost_reduction(landmarks: Seq<OwnedLandmark>, target: Landmark) -> int
    decreases landmarks.len(),
{
    if landmarks.len() == 0 {
        0
    } else {
        total_cost_reduction(landmarks.drop_last(), target)
            + landmarks.last().landmark.spec_cost_reduction(target)
    }
}

/// The sum of what the landmarks in `landmarks` add to the earnings of an
/// establishment of `category`.
pub open spec fn total_earnings_bonus(landmarks: Seq<OwnedLandmark>, category: CardCategory) -> int
    decreases landmarks.len(),
{
    if landmarks.len() == 0 {
        0
    } else {
        total_earnings_bonus(landmarks.drop_last(), category)
            + landmarks.last().landmark.spec_earnings_bonus(category)
    }
}

/// The least index at which `cards` holds an establishment of type `card`, or
/// the length of `cards` if there is none.
pub open spec fn first_position(cards: Seq<OwnedCard>, card: Card) -> int
    decreases cards.len(),
{
    if cards.len() == 0 {
        0
    } else if cards[0].card == card {
        0
    } else {
        1 + first_position(cards.drop_first(), card)
    }
}

/// The first position of a type in a hand holds that type, and no position
/// before it does.
pub(crate) proof fn lemma_first_position(cards: Seq<OwnedCard>, card: Card)
    ensures
        0 <= first_position(cards, card) <= cards.len(),
        first_position(cards, card) < cards.len() ==> cards[first_position(cards, card)].card
            == card,
        forall|j: int| 0 <= j < first_position(cards, card) ==> (#[trigger] cards[j]).card != card,
    decreases cards.len(),
{
    if cards.len() > 0 && cards[0].card != card {
        let rest = cards.drop_first();
        lemma_first_position(rest, card);
        assert forall|j: int| 0 <= j < first_position(cards, card) implies (#[trigger] cards[j]).card
            != card by {
            if j > 0 {
                assert(cards[j] == rest[j - 1]);
            }
        }
    }
}

impl PlayerView {
    /// The ledger of a player who has just sat down: the starting coins and
    /// nothing else.
    pub open spec fn starting() -> PlayerView {
        PlayerView {
            coins: STARTING_COINS as int,
            cards: Seq::empty(),
            landmarks: Seq::empty(),
            dice_rolls: Seq::empty(),
        }
    }

    /// The player holds at least one landmark of type `landmark`.
    pub open spec fn owns_landmark(self, landmark: Landmark) -> bool {
        exists|i: int| 0 <= i < self.landmarks.len() && (#[trigger] self.landmarks[i]).landmark == landmark
    }

    /// The player holds at least one establishment of type `card`.
    pub open spec fn owns_card(self, card: Card) -> bool {
        exists|i: int| 0 <= i < self.cards.len() && (#[trigger] self.cards[i]).card == card
    }

    /// The win condition: three landmarks, or the landmark that wins by itself.
    pub open spec fn has_won(self) -> bool {
        self.landmarks.len() >= LANDMARKS_TO_WIN || self.owns_landmark(Landmark::LaunchPad)
    }

    /// The player has the coins for `card`.
    pub open spec fn can_afford_card(self, card: Card) -> bool {
        self.coins >= card.spec_def().cost
    }

    /// What the player would pay for `landmark`: the tier of the cost schedule
    /// for the number of landmarks already owned, less what the owned
    /// landmarks take off, and never below zero. `None` where the schedule has
    /// no such tier.
    pub open spec fn landmark_price(self, landmark: Landmark) -> Option<int> {
        let schedule = landmark.spec_def().cost@;
        if self.landmarks.len() < schedule.len() {
            let reduced = schedule[self.landmarks.len() as int] - total_cost_reduction(
                self.landmarks,
                landmark,
            );
            Some(
                if reduced < 0 {
                    0
                } else {
                    reduced
                },
            )
        } else {
            None
        }
    }

    /// The player has the coins for `landmark`. The Loan Office can only be a
    /// player's first landmark.
    pub open spec fn can_afford_landmark(self, landmark: Landmark) -> bool {
        &&& !(landmark == Landmark::LoanOffice && self.landmarks.len() != 0)
        &&& self.landmark_price(landmark) matches Some(price) && self.coins >= price
    }

    /// The ledger after paying for `card` and taking it in hand.
    pub open spec fn with_card_bought(self, card: Card, bought_round: u8) -> PlayerView {
        PlayerView {
            coins: self.coins - card.spec_def().cost,
            cards: self.cards.push(OwnedCard { card, bought_round }),
            ..self
        }
    }

    /// The ledger after paying for `landmark` and building it.
    pub open spec fn with_landmark_bought(self, landmark: Landmark, bought_round: u8) -> PlayerView {
        PlayerView {
            coins: self.coins - self.landmark_price(landmark).unwrap(),
            landmarks: self.landmarks.push(OwnedLandmark { landmark, bought_round }),
            ..self
        }
    }

    /// The ledger with `amount` coins more (or, if negative, fewer).
    pub open spec fn with_coins_added(self, amount: int) -> PlayerView {
        PlayerView { coins: self.coins + amount, ..self }
    }
}

impl Player {
    /// A new player: five coins and nothing else.
    pub fn new() -> (player: Player)
        ensures
            player@ == PlayerView::starting(),
    {
        Player {
            coins: STARTING_COINS,
            cards: Vec::new(),
            landmarks: Vec::new(),
            dice_rolls: Vec::new(),
        }
    }

    /// Whether the player has the coins for `card`.
    pub fn can_afford_card(&self, card: &Card) -> (affordable: bool)
        ensures
            affordable == self@.can_afford_card(*card),
    {
        self.coins >= card.def().cost
    }

    /// What the player would pay for `landmark`, if the cost schedule has a
    /// tier for the number of landmarks owned.
    pub fn landmark_price(&self, landmark: &Landmark) -> (price: Option<u16>)
        ensures
            price is Some <==> self@.landmark_price(*landmark) is Some,
            price matches Some(p) ==> self@.landmark_price(*landmark) == Some(p as int),
    {
        let schedule: &[u16] = landmark.def().cost;
        let owned: usize = self.landmarks.len();
        if owned >= schedule.len() {
            return None;
        }
        let base: u16 = schedule[owned];
        let mut price: u16 = base;
        let mut i: usize = 0;
        while i < owned
            invariant
                owned == self.landmarks@.len(),
                i <= owned,
                0 <= total_cost_reduction(self.landmarks@.take(i as int), *landmark),
                price as int == if base - total_cost_reduction(self.landmarks@.take(i as int), *landmark)
                    < 0 {
                    0
                } else {
                    base - total_cost_reduction(self.landmarks@.take(i as int), *landmark)
                },
            decreases owned - i,
        {
            let owned_landmark: Landmark = self.landmarks[i].landmark;
            proof {
                let next = self.landmarks@.take(i + 1);
                assert(next.drop_last() == self.landmarks@.take(i as int));
                assert(next.last() == self.landmarks@[i as int]);
                lemma_capability_table_is_consistent(owned_landmark);
            }
            let reduction: u8 = if owned_landmark.hook() == LandmarkHook::CostReduction {
                get_landmark_cost_reduction(owned_landmark, *landmark)
            } else {
                0
            };
            price = if price >= reduction as u16 {
                price - reduction as u16
            } else {
                0
            };
            i = i + 1;
        }
        proof {
            assert(self.landmarks@.take(owned as int) == self.landmarks@);
        }
        Some(price)
    }

    /// Whether the player has the coins for `landmark` at the price that the
    /// player's own landmarks leave. The Loan Office can only be a player's
    /// first landmark.
    pub fn can_afford_landmark(&self, landmark: &Landmark) -> (affordable: bool)
        ensures
            affordable == self@.can_afford_landmark(*landmark),
    {
        if *landmark == Landmark::LoanOffice && self.landmarks.len() != 0 {
            return false;
        }
        match self.landmark_price(landmark) {
            Some(price) => self.coins >= price,
            None => false,
        }
    }

    /// Pays for `card` and takes it in hand.
    pub fn buy_card(&mut self, card: Card, bought_round: u8)
        requires
            old(self)@.can_afford_card(card),
        ensures
            final(self)@ == old(self)@.with_card_bought(card, bought_round),
    {
        self.cards.push(OwnedCard { card, bought_round });
        self.coins = self.coins - card.def().cost;
    }

    /// Pays for `landmark` and builds it.
    pub fn buy_landmark(&mut self, landmark: Landmark, bought_round: u8)
        requires
            old(self)@.can_afford_landmark(landmark),
        ensures
            final(self)@ == old(self)@.with_landmark_bought(landmark, bought_round),
    {
        let price: Option<u16> = self.landmark_price(&landmark);
        match price {
            Some(p) => {
                self.coins = self.coins - p;
            },
            None => {},
        }
        self.landmarks.push(OwnedLandmark { landmark, bought_round });
    }

    /// Whether the player has built `landmark`.
    pub fn owns_landmark(&self, landmark: Landmark) -> (owned: bool)
        ensures
            owned == self@.owns_landmark(landmark),
    {
        let mut i: usize = 0;
        while i < self.landmarks.len()
            invariant
                i <= self.landmarks@.len(),
                forall|j: int| 0 <= j < i ==> (#[trigger] self.landmarks@[j]).landmark != landmark,
            decreases self.landmarks.len() - i,
        {
            if self.landmarks[i].landmark == landmark {
                return true;
            }
            i = i + 1;
        }
        false
    }

    /// The index of the first establishment of type `card` in the player's
    /// hand, if there is one.
    pub fn card_position(&self, card: Card) -> (position: Option<usize>)
        ensures
            position is Some <==> self@.owns_card(card),
            position matches Some(i) ==> i as int == first_position(self.cards@, card) && i
                < self.cards@.len(),
            position is None ==> first_position(self.cards@, card) == self.cards@.len(),
    {
        proof {
            lemma_first_position(self.cards@, card);
        }
        let mut i: usize = 0;
        while i < self.cards.len()
            invariant
                i <= self.cards@.len(),
                forall|j: int| 0 <= j < i ==> (#[trigger] self.cards@[j]).card != card,
                0 <= first_position(self.cards@, card) <= self.cards@.len(),
                first_position(self.cards@, card) < self.cards@.len() ==> self.cards@[first_position(
                    self.cards@,
                    card,
                )].card == card,
                forall|j: int|
                    0 <= j < first_position(self.cards@, card) ==> (#[trigger] self.cards@[j]).card
                        != card,
            decreases self.cards.len() - i,
        {
            if self.cards[i].card == card {
                return Some(i);
            }
            i = i + 1;
        }
        None
    }

    /// The number of the player's establishments of the given category.
    pub fn count_category(&self, category: CardCategory) -> (count: usize)
        ensures
            count == count_category(self.cards@, category),
    {
        let mut count: usize = 0;
        let mut i: usize = 0;
        while i < self.cards.len()
            invariant
                i <= self.cards@.len(),
                count <= i,
                count == count_category(self.cards@.take(i as int), category),
            decreases self.cards.len() - i,
        {
            proof {
                let next = self.cards@.take(i + 1);
                assert(next.drop_last() == self.cards@.take(i as int));
                assert(next.last() == self.cards@[i as int]);
            }
            if self.cards[i].card.def().category == category {
                count = count + 1;
            }
            i = i + 1;
        }
        proof {
            assert(self.cards@.take(self.cards@.len() as int) == self.cards@);
        }
        count
    }

    /// The number of the player's establishments of the given colour.
    pub fn count_color(&self, color: CardColor) -> (count: usize)
        ensures
            count == count_color(self.cards@, color),
    {
        let mut count: usize = 0;
        let mut i: usize = 0;
        while i < self.cards.len()
            invariant
                i <= self.cards@.len(),
                count <= i,
                count == count_color(self.cards@.take(i as int), color),
            decreases self.cards.len() - i,
        {
            proof {
                let next = self.cards@.take(i + 1);
                assert(next.drop_last() == self.cards@.take(i as int));
                assert(next.last() == self.cards@[i as int]);
            }
            if self.cards[i].card.def().color == color {
                count = count + 1;
            }
            i = i + 1;
        }
        proof {
            assert(self.cards@.take(self.cards@.len() as int) == self.cards@);
        }
        count
    }

    /// Whether the player meets the win condition.
    pub fn has_won(&self) -> (won: bool)
        ensures
            won == self@.has_won(),
    {
        self.landmarks.len() >= LANDMARKS_TO_WIN || self.owns_landmark(Landmark::LaunchPad)
    }
}

} // verus!
