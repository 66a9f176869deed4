use crate::models::card::all_cards;
use crate::models::card::lemma_catalog_order;
use crate::models::card::Card;
use crate::models::card::CARD_TYPES;
use crate::models::player::OwnedCard;
use crate::simulation::simulator::GameResult;
use vstd::prelude::*;

verus! {

/// The number of round limits by which the statistics are broken down.
pub const ROUND_LIMITS: usize = 3;

/// A limit that every round stamp is below: a count up to it counts all.
pub const NO_ROUND_LIMIT: usize = 256;

/// The round limits by which the statistics are broken down.
pub open spec fn spec_round_breakdown() -> Seq<usize> {
    seq![5usize, 10usize, 15usize]
}

/// The round limits by which the statistics are broken down.
pub fn round_breakdown() -> (limits: Vec<usize>)
    ensures
        limits@ == spec_round_breakdown(),
{
    let limits: Vec<usize> = vec![5usize, 10usize, 15usize];
    assert(limits@ =~= spec_round_breakdown());
    limits
}

/// The number of establishments of type `card` in `hand`.
pub open spec fn copies(hand: Seq<OwnedCard>, card: Card) -> nat
    decreases hand.len(),
{
    if hand.len() == 0 {
        0
    } else {
        copies(hand.drop_last(), card) + if hand.last().card == card {
            1nat
        } else {
            0nat
        }
    }
}

/// `hand` holds an establishment of type `card` that came there in a round
/// before `limit`.
pub open spec fn held_before(hand: Seq<OwnedCard>, card: Card, limit: int) -> bool {
    exists|i: int| 0 <= i < hand.len() && (#[trigger] hand[i]).card == card && hand[i].bought_round < limit
}

/// One if `hand` holds `card` from before `limit`, else zero.
pub open spec fn presence(hand: Seq<OwnedCard>, card: Card, limit: int) -> nat {
    if held_before(hand, card, limit) {
        1
    } else {
        0
    }
}

/// The number of players before seat `upto`, but for the winner, whose hand
/// holds `card` from before `limit`.
pub open spec fn losers_holding(
    hands: Seq<Seq<OwnedCard>>,
    winner: int,
    card: Card,
    limit: int,
    upto: int,
) -> nat
    decreases upto,
{
    if upto <= 0 {
        0
    } else {
        losers_holding(hands, winner, card, limit, upto - 1) + if upto - 1 != winner {
            presence(hands[upto - 1], card, limit)
        } else {
            0nat
        }
    }
}

/// One count for each establishment type.
pub struct CardTally {
    counts: Vec<usize>,
}

impl CardTally {
    #[verifier::type_invariant]
    spec fn has_every_type(self) -> bool {
        self.counts@.len() == CARD_TYPES
    }

    /// The count for `card`.
    pub closed spec fn count(&self, card: Card) -> nat {
        self.counts@[card.spec_index() as int] as nat
    }

    /// A tally with every count at zero.
    pub fn new() -> (tally: CardTally)
        ensures
            forall|card: Card| tally.count(card) == 0,
    {
        let mut counts: Vec<usize> = Vec::new();
        let mut i: usize = 0;
        while i < CARD_TYPES
            invariant
                i <= CARD_TYPES,
                counts@.len() == i,
                forall|k: int| 0 <= k < i ==> counts@[k] == 0,
            decreases CARD_TYPES - i,
        {
            counts.push(0);
            i = i + 1;
        }
        proof {
            assert forall|card: Card| counts@[card.spec_index() as int] == 0 by {
                lemma_catalog_order(card);
            }
        }
        CardTally { counts }
    }

    /// The count for `card`.
    pub fn get(&self, card: Card) -> (count: usize)
        ensures
            count == self.count(card),
    {
        proof {
            use_type_invariant(self);
        }
        self.counts[card.index()]
    }

    /// Whether the count for `card` can grow by `by`.
    pub fn has_room(&self, card: Card, by: usize) -> (room: bool)
        ensures
            room == (self.count(card) + by <= usize::MAX),
    {
        proof {
            use_type_invariant(self);
        }
        by <= usize::MAX - self.counts[card.index()]
    }

    /// Raises the count for `card` by `by`.
    pub fn add(&mut self, card: Card, by: usize)
        requires
            old(self).count(card) + by <= usize::MAX,
        ensures
            final(self).count(card) == old(self).count(card) + by,
            forall|other: Card| other != card ==> final(self).count(other) == old(self).count(other),
    {
        proof {
            use_type_invariant(&*self);
        }
        let index: usize = card.index();
        let count: usize = self.counts[index];
        self.counts[index] = count + by;
        proof {
            assert forall|other: Card| other != card implies self.counts@[other.spec_index() as int]
                == old(self).counts@[other.spec_index() as int] by {
                lemma_catalog_order(other);
                lemma_catalog_order(card);
            }
        }
    }
}

/// A tally of the hands that held a type from before a round limit.
pub struct RoundTally {
    pub round: usize,
    pub counts: CardTally,
}

/// The number of establishments of type `card` in `hand`.
pub fn count_copies(hand: &Vec<OwnedCard>, card: Card) -> (count: usize)
    ensures
        count == copies(hand@, card),
{
    let mut count: usize = 0;
    let mut i: usize = 0;
    while i < hand.len()
        invariant
            i <= hand@.len(),
            count <= i,
            count == copies(hand@.take(i as int), card),
        decreases hand.len() - i,
    {
        proof {
            let next = hand@.take(i + 1);
            assert(next.drop_last() == hand@.take(i as int));
            assert(next.last() == hand@[i as int]);
        }
        if hand[i].card == card {
            count = count + 1;
        }
        i = i + 1;
    }
    proof {
        assert(hand@.take(hand@.len() as int) == hand@);
    }
    count
}

/// Whether `hand` holds an establishment of type `card` that came there in a
/// round before `limit`.
pub fn holds_before(hand: &Vec<OwnedCard>, card: Card, limit: usize) -> (held: bool)
    ensures
        held == held_before(hand@, card, limit as int),
{
    let mut i: usize = 0;
    while i < hand.len()
        invariant
            i <= hand@.len(),
            forall|k: int|
                0 <= k < i ==> !((#[trigger] hand@[k]).card == card && hand@[k].bought_round < limit),
        decreases hand.len() - i,
    {
        if hand[i].card == card && (hand[i].bought_round as usize) < limit {
            return true;
        }
        i = i + 1;
    }
    false
}

/// The number of players other than the winner whose hand holds `card` from
/// before `limit`.
pub fn count_losers_holding(result: &GameResult, card: Card, limit: usize) -> (count: usize)
    ensures
        count == losers_holding(
            result.hands(),
            result.winner_index as int,
            card,
            limit as int,
            result.hands().len() as int,
        ),
{
    let mut count: usize = 0;
    let mut seat: usize = 0;
    while seat < result.player_cards.len()
        invariant
            seat <= result.player_cards@.len(),
            count <= seat,
            count == losers_holding(
                result.hands(),
                result.winner_index as int,
                card,
                limit as int,
                seat as int,
            ),
        decreases result.player_cards.len() - seat,
    {
        if seat != result.winner_index && holds_before(&result.player_cards[seat], card, limit) {
            count = count + 1;
        }
        seat = seat + 1;
    }
    count
}

/// What a tally counts of a match, for each establishment type.
#[derive(Clone, Copy, Debug)]
pub enum Measure {
    /// The copies in the winner's hand.
    WinnerCopies,
    /// Whether the winner's hand holds the type from before a round limit.
    WinnerPresence(usize),
    /// The losers whose hands hold the type from before a round limit.
    LoserPresence(usize),
}

impl Measure {
    /// What the measure counts for `card` in a match with the given hands and
    /// winner.
    pub open spec fn of(self, hands: Seq<Seq<OwnedCard>>, winner: int, card: Card) -> nat {
        match self {
            Measure::WinnerCopies => copies(hands[winner], card),
            Measure::WinnerPresence(limit) => presence(hands[winner], card, limit as int),
            Measure::LoserPresence(limit) => losers_holding(
                hands,
                winner,
                card,
                limit as int,
                hands.len() as int,
            ),
        }
    }

    /// What the measure counts for `card` in `result`.
    pub fn take(&self, result: &GameResult, card: Card) -> (count: usize)
        requires
            result.winner_index < result.hands().len(),
        ensures
            count == self.of(result.hands(), result.winner_index as int, card),
    {
        match self {
            Measure::WinnerCopies => count_copies(&result.player_cards[result.winner_index], card),
            Measure::WinnerPresence(limit) => if holds_before(
                &result.player_cards[result.winner_index],
                card,
                *limit,
            ) {
                1
            } else {
                0
            },
            Measure::LoserPresence(limit) => count_losers_holding(result, card, *limit),
        }
    }
}

/// Every count of `tally` can grow by what `measure` counts in the match.
pub open spec fn tally_has_room(
    tally: &CardTally,
    measure: Measure,
    hands: Seq<Seq<OwnedCard>>,
    winner: int,
) -> bool {
    forall|card: Card| #[trigger] tally.count(card) + measure.of(hands, winner, card) <= usize::MAX
}

/// Every count of `after` is that of `before` and what `measure` counts in the
/// match.
pub open spec fn tally_grew(
    before: &CardTally,
    after: &CardTally,
    measure: Measure,
    hands: Seq<Seq<OwnedCard>>,
    winner: int,
) -> bool {
    forall|card: Card| #[trigger] after.count(card) == before.count(card) + measure.of(hands, winner, card)
}

impl CardTally {
    /// Whether every count can grow by what `measure` counts in `result`.
    pub fn has_room_for(&self, measure: Measure, result: &GameResult) -> (room: bool)
        requires
            result.winner_index < result.hands().len(),
        ensures
            room == tally_has_room(self, measure, result.hands(), result.winner_index as int),
    {
        let cards: Vec<Card> = Card::all();
        let mut i: usize = 0;
        while i < cards.len()
            invariant
                result.winner_index < result.hands().len(),
                cards@ == all_cards(),
                i <= cards@.len(),
                forall|k: int|
                    0 <= k < i ==> self.count(cards@[k]) + measure.of(
                        result.hands(),
                        result.winner_index as int,
                        #[trigger] cards@[k],
                    ) <= usize::MAX,
            decreases cards.len() - i,
        {
            let card: Card = cards[i];
            let by: usize = measure.take(result, card);
            if !self.has_room(card, by) {
                return false;
            }
            i = i + 1;
        }
        proof {
            assert forall|card: Card| #[trigger] self.count(card) + measure.of(
                result.hands(),
                result.winner_index as int,
                card,
            ) <= usize::MAX by {
                lemma_catalog_order(card);
                assert(cards@[card.spec_index() as int] == card);
            }
        }
        true
    }

    /// Raises every count by what `measure` counts in `result`.
    pub fn record(&mut self, measure: Measure, result: &GameResult)
        requires
            result.winner_index < result.hands().len(),
            tally_has_room(old(self), measure, result.hands(), result.winner_index as int),
        ensures
            tally_grew(old(self), final(self), measure, result.hands(), result.winner_index as int),
    {
        let cards: Vec<Card> = Card::all();
        let mut i: usize = 0;
        while i < cards.len()
            invariant
                result.winner_index < result.hands().len(),
                tally_has_room(old(self), measure, result.hands(), result.winner_index as int),
                cards@ == all_cards(),
                i <= cards@.len(),
                forall|card: Card|
                    #[trigger] self.count(card) == old(self).count(card) + if card.spec_index() < i {
                        measure.of(result.hands(), result.winner_index as int, card)
                    } else {
                        0
                    },
            decreases cards.len() - i,
        {
            let card: Card = cards[i];
            proof {
                lemma_catalog_order(card);
                assert(old(self).count(card) + measure.of(
                    result.hands(),
                    result.winner_index as int,
                    card,
                ) <= usize::MAX);
            }
            let by: usize = measure.take(result, card);
            let ghost before = *self;
            self.add(card, by);
            proof {
                assert forall|other: Card|
                    #[trigger] self.count(other) == old(self).count(other) + if other.spec_index() < i
                        + 1 {
                        measure.of(result.hands(), result.winner_index as int, other)
                    } else {
                        0
                    } by {
                    lemma_catalog_order(other);
                    assert(before.count(other) == old(self).count(other) + if other.spec_index() < i {
                        measure.of(result.hands(), result.winner_index as int, other)
                    } else {
                        0
                    });
                }
            }
            i = i + 1;
        }
        proof {
            assert forall|card: Card|
                #[trigger] self.count(card) == old(self).count(card) + measure.of(
                    result.hands(),
                    result.winner_index as int,
                    card,
                ) by {
                lemma_catalog_order(card);
            }
        }
    }
}

/// The statistics of a series of matches: for each establishment type, how
/// many copies the winners held, how many winners held it, how many losers
/// held it, and the last two again for what was held from before each of the
/// round limits.
pub struct SimulationAccumulator {
    winner_total_card_counts: CardTally,
    win_present_card_counts: CardTally,
    loss_present_card_counts: CardTally,
    win_present_card_counts_by_round: Vec<RoundTally>,
    loss_present_card_counts_by_round: Vec<RoundTally>,
}

impl SimulationAccumulator {
    /// The accumulator's invariant: it holds one tally of winners and one of
    /// losers for each round limit, in the order of the limits.
    pub closed spec fn wf(&self) -> bool {
        &&& self.win_present_card_counts_by_round@.len() == ROUND_LIMITS
        &&& self.loss_present_card_counts_by_round@.len() == ROUND_LIMITS
        &&& forall|k: int|
            0 <= k < ROUND_LIMITS ==> (#[trigger] self.win_present_card_counts_by_round@[k]).round
                == spec_round_breakdown()[k]
        &&& forall|k: int|
            0 <= k < ROUND_LIMITS ==> (#[trigger] self.loss_present_card_counts_by_round@[k]).round
                == spec_round_breakdown()[k]
    }

    /// The copies of `card` that the winners held.
    pub closed spec fn winner_total(&self, card: Card) -> nat {
        self.winner_total_card_counts.count(card)
    }

    /// The winners who held `card`.
    pub closed spec fn win_present(&self, card: Card) -> nat {
        self.win_present_card_counts.count(card)
    }

    /// The losers who held `card`.
    pub closed spec fn loss_present(&self, card: Card) -> nat {
        self.loss_present_card_counts.count(card)
    }

    /// The winners who held `card` from before the round limit at `position`.
    pub closed spec fn win_present_by_round(&self, position: int, card: Card) -> nat {
        self.win_present_card_counts_by_round@[position].counts.count(card)
    }

    /// The losers who held `card` from before the round limit at `position`.
    pub closed spec fn loss_present_by_round(&self, position: int, card: Card) -> nat {
        self.loss_present_card_counts_by_round@[position].counts.count(card)
    }

    /// The statistics of no match at all: every count is zero.
    pub fn new() -> (accumulator: SimulationAccumulator)
        ensures
            accumulator.wf(),
            forall|card: Card|
                {
                    &&& #[trigger] accumulator.winner_total(card) == 0
                    &&& accumulator.win_present(card) == 0
                    &&& accumulator.loss_present(card) == 0
                },
            forall|position: int, card: Card|
                0 <= position < ROUND_LIMITS ==> {
                    &&& #[trigger] accumulator.win_present_by_round(position, card) == 0
                    &&& #[trigger] accumulator.loss_present_by_round(position, card) == 0
                },
    {
        let limits: Vec<usize> = round_breakdown();
        let mut wins: Vec<RoundTally> = Vec::new();
        let mut losses: Vec<RoundTally> = Vec::new();
        let mut k: usize = 0;
        while k < ROUND_LIMITS
            invariant
                limits@ == spec_round_breakdown(),
                k <= ROUND_LIMITS,
                wins@.len() == k,
                losses@.len() == k,
                forall|j: int|
                    0 <= j < k ==> (#[trigger] wins@[j]).round == spec_round_breakdown()[j] && forall|
                        card: Card,
                    | wins@[j].counts.count(card) == 0,
                forall|j: int|
                    0 <= j < k ==> (#[trigger] losses@[j]).round == spec_round_breakdown()[j]
                        && forall|card: Card| losses@[j].counts.count(card) == 0,
            decreases ROUND_LIMITS - k,
        {
            wins.push(RoundTally { round: limits[k], counts: CardTally::new() });
            losses.push(RoundTally { round: limits[k], counts: CardTally::new() });
            k = k + 1;
        }
        SimulationAccumulator {
            winner_total_card_counts: CardTally::new(),
            win_present_card_counts: CardTally::new(),
            loss_present_card_counts: CardTally::new(),
            win_present_card_counts_by_round: wins,
            loss_present_card_counts_by_round: losses,
        }
    }

    /// The match can be counted: its winner is one of its players, and no
    /// count would overflow.
    pub closed spec fn has_room_for(&self, result: &GameResult) -> bool {
        let hands = result.hands();
        let winner = result.winner_index as int;
        &&& winner < hands.len()
        &&& tally_has_room(&self.winner_total_card_counts, Measure::WinnerCopies, hands, winner)
        &&& tally_has_room(
            &self.win_present_card_counts,
            Measure::WinnerPresence(NO_ROUND_LIMIT),
            hands,
            winner,
        )
        &&& tally_has_room(
            &self.loss_present_card_counts,
            Measure::LoserPresence(NO_ROUND_LIMIT),
            hands,
            winner,
        )
        &&& forall|k: int|
            0 <= k < ROUND_LIMITS ==> tally_has_room(
                &(#[trigger] self.win_present_card_counts_by_round@[k]).counts,
                Measure::WinnerPresence(spec_round_breakdown()[k]),
                hands,
                winner,
            )
        &&& forall|k: int|
            0 <= k < ROUND_LIMITS ==> tally_has_room(
                &(#[trigger] self.loss_present_card_counts_by_round@[k]).counts,
                Measure::LoserPresence(spec_round_breakdown()[k]),
                hands,
                winner,
            )
    }

    /// `after` is `self` with one more match counted: for every establishment
    /// type, the copies in the winner's hand are added to the winners' total;
    /// the winners' presence count grows by one if the winner holds the type,
    /// the losers' by the number of losers who hold it; and likewise, for each
    /// round limit, for what was held from before that round.
    pub open spec fn counted(&self, after: &SimulationAccumulator, result: &GameResult) -> bool {
        let hands = result.hands();
        let winner = result.winner_index as int;
        let players = hands.len() as int;
        &&& forall|card: Card|
            {
                &&& #[trigger] after.winner_total(card) == self.winner_total(card) + copies(
                    hands[winner],
                    card,
                )
                &&& #[trigger] after.win_present(card) == self.win_present(card) + presence(
                    hands[winner],
                    card,
                    NO_ROUND_LIMIT as int,
                )
                &&& #[trigger] after.loss_present(card) == self.loss_present(card) + losers_holding(
                    hands,
                    winner,
                    card,
                    NO_ROUND_LIMIT as int,
                    players,
                )
            }
        &&& forall|k: int, card: Card|
            0 <= k < ROUND_LIMITS ==> {
                &&& #[trigger] after.win_present_by_round(k, card) == self.win_present_by_round(k, card)
                    + presence(hands[winner], card, spec_round_breakdown()[k] as int)
                &&& #[trigger] after.loss_present_by_round(k, card) == self.loss_present_by_round(
                    k,
                    card,
                ) + losers_holding(hands, winner, card, spec_round_breakdown()[k] as int, players)
            }
    }

    /// `other` holds the same counts.
    pub open spec fn same_counts(&self, other: &SimulationAccumulator) -> bool {
        &&& forall|card: Card|
            {
                &&& #[trigger] other.winner_total(card) == self.winner_total(card)
                &&& #[trigger] other.win_present(card) == self.win_present(card)
                &&& #[trigger] other.loss_present(card) == self.loss_present(card)
            }
        &&& forall|k: int, card: Card|
            0 <= k < ROUND_LIMITS ==> {
                &&& #[trigger] other.win_present_by_round(k, card) == self.win_present_by_round(k, card)
                &&& #[trigger] other.loss_present_by_round(k, card) == self.loss_present_by_round(
                    k,
                    card,
                )
            }
    }

    /// Whether `result` can be counted.
    pub fn can_accumulate(&self, result: &GameResult) -> (room: bool)
        requires
            self.wf(),
        ensures
            room == self.has_room_for(result),
    {
        if result.winner_index >= result.player_cards.len() {
            return false;
        }
        if !self.winner_total_card_counts.has_room_for(Measure::WinnerCopies, result) {
            return false;
        }
        if !self.win_present_card_counts.has_room_for(Measure::WinnerPresence(NO_ROUND_LIMIT), result) {
            return false;
        }
        if !self.loss_present_card_counts.has_room_for(Measure::LoserPresence(NO_ROUND_LIMIT), result) {
            return false;
        }
        let mut k: usize = 0;
        while k < ROUND_LIMITS
            invariant
                result.winner_index < result.hands().len(),
                self.win_present_card_counts_by_round@.len() == ROUND_LIMITS,
                self.loss_present_card_counts_by_round@.len() == ROUND_LIMITS,
                forall|j: int|
                    0 <= j < ROUND_LIMITS ==> (#[trigger] self.win_present_card_counts_by_round@[j]).round
                        == spec_round_breakdown()[j],
                forall|j: int|
                    0 <= j < ROUND_LIMITS ==> (
                    #[trigger] self.loss_present_card_counts_by_round@[j]).round
                        == spec_round_breakdown()[j],
                k <= ROUND_LIMITS,
                forall|j: int|
                    0 <= j < k ==> tally_has_room(
                        &(#[trigger] self.win_present_card_counts_by_round@[j]).counts,
                        Measure::WinnerPresence(spec_round_breakdown()[j]),
                        result.hands(),
                        result.winner_index as int,
                    ),
                forall|j: int|
                    0 <= j < k ==> tally_has_room(
                        &(#[trigger] self.loss_present_card_counts_by_round@[j]).counts,
                        Measure::LoserPresence(spec_round_breakdown()[j]),
                        result.hands(),
                        result.winner_index as int,
                    ),
            decreases ROUND_LIMITS - k,
        {
            let wins = &self.win_present_card_counts_by_round[k];
            if !wins.counts.has_room_for(Measure::WinnerPresence(wins.round), result) {
                return false;
            }
            let losses = &self.loss_present_card_counts_by_round[k];
            if !losses.counts.has_room_for(Measure::LoserPresence(losses.round), result) {
                return false;
            }
            k = k + 1;
        }
        true
    }

    /// Counts one more match. Returns `false`, and changes nothing, if the
    /// winner named is not one of the players or a count would overflow.
    pub fn accumulate(&mut self, result: &GameResult) -> (recorded: bool)
        requires
            old(self).wf(),
        ensures
            final(self).wf(),
            recorded == old(self).has_room_for(result),
            recorded ==> old(self).counted(final(self), result),
            !recorded ==> old(self).same_counts(final(self)),
    {
        if !self.can_accumulate(result) {
            return false;
        }
        self.accumulate_winner_total_card_counts(result);
        self.accumulate_win_present_card_counts(result);
        self.accumulate_loss_present_card_counts(result);
        self.accumulate_present_card_counts_by_round(result);
        true
    }

    /// Adds the copies in the winner's hand to the winners' totals.
    fn accumulate_winner_total_card_counts(&mut self, result: &GameResult)
        requires
            old(self).has_room_for(result),
        ensures
            tally_grew(
                &old(self).winner_total_card_counts,
                &final(self).winner_total_card_counts,
                Measure::WinnerCopies,
                result.hands(),
                result.winner_index as int,
            ),
            final(self).win_present_card_counts == old(self).win_present_card_counts,
            final(self).loss_present_card_counts == old(self).loss_present_card_counts,
            final(self).win_present_card_counts_by_round == old(self).win_present_card_counts_by_round,
            final(self).loss_present_card_counts_by_round == old(
                self,
            ).loss_present_card_counts_by_round,
    {
        self.winner_total_card_counts.record(Measure::WinnerCopies, result);
    }

    /// Counts the winner for every type in the winner's hand.
    fn accumulate_win_present_card_counts(&mut self, result: &GameResult)
        requires
            result.winner_index < result.hands().len(),
            tally_has_room(
                &old(self).win_present_card_counts,
                Measure::WinnerPresence(NO_ROUND_LIMIT),
                result.hands(),
                result.winner_index as int,
            ),
        ensures
            tally_grew(
                &old(self).win_present_card_counts,
                &final(self).win_present_card_counts,
                Measure::WinnerPresence(NO_ROUND_LIMIT),
                result.hands(),
                result.winner_index as int,
            ),
            final(self).winner_total_card_counts == old(self).winner_total_card_counts,
            final(self).loss_present_card_counts == old(self).loss_present_card_counts,
            final(self).win_present_card_counts_by_round == old(self).win_present_card_counts_by_round,
            final(self).loss_present_card_counts_by_round == old(
                self,
            ).loss_present_card_counts_by_round,
    {
        self.win_present_card_counts.record(Measure::WinnerPresence(NO_ROUND_LIMIT), result);
    }

    /// Counts every loser for every type in that loser's hand.
    fn accumulate_loss_present_card_counts(&mut self, result: &GameResult)
        requires
            result.winner_index < result.hands().len(),
            tally_has_room(
                &old(self).loss_present_card_counts,
                Measure::LoserPresence(NO_ROUND_LIMIT),
                result.hands(),
                result.winner_index as int,
            ),
        ensures
            tally_grew(
                &old(self).loss_present_card_counts,
                &final(self).loss_present_card_counts,
                Measure::LoserPresence(NO_ROUND_LIMIT),
                result.hands(),
                result.winner_index as int,
            ),
            final(self).winner_total_card_counts == old(self).winner_total_card_counts,
            final(self).win_present_card_counts == old(self).win_present_card_counts,
            final(self).win_present_card_counts_by_round == old(self).win_present_card_counts_by_round,
            final(self).loss_present_card_counts_by_round == old(
                self,
            ).loss_present_card_counts_by_round,
    {
        self.loss_present_card_counts.record(Measure::LoserPresence(NO_ROUND_LIMIT), result);
    }

    /// Counts winner and losers again for what they held from before each
    /// round limit.
    fn accumulate_present_card_counts_by_round(&mut self, result: &GameResult)
        requires
            old(self).wf(),
            result.winner_index < result.hands().len(),
            forall|k: int|
                0 <= k < ROUND_LIMITS ==> tally_has_room(
                    &(#[trigger] old(self).win_present_card_counts_by_round@[k]).counts,
                    Measure::WinnerPresence(spec_round_breakdown()[k]),
                    result.hands(),
                    result.winner_index as int,
                ),
            forall|k: int|
                0 <= k < ROUND_LIMITS ==> tally_has_room(
                    &(#[trigger] old(self).loss_present_card_counts_by_round@[k]).counts,
                    Measure::LoserPresence(spec_round_breakdown()[k]),
                    result.hands(),
                    result.winner_index as int,
                ),
        ensures
            forall|k: int|
                0 <= k < ROUND_LIMITS ==> tally_grew(
                    &old(self).win_present_card_counts_by_round@[k].counts,
                    &(#[trigger] final(self).win_present_card_counts_by_round@[k]).counts,
                    Measure::WinnerPresence(spec_round_breakdown()[k]),
                    result.hands(),
                    result.winner_index as int,
                ),
            forall|k: int|
                0 <= k < ROUND_LIMITS ==> tally_grew(
                    &old(self).loss_present_card_counts_by_round@[k].counts,
                    &(#[trigger] final(self).loss_present_card_counts_by_round@[k]).counts,
                    Measure::LoserPresence(spec_round_breakdown()[k]),
                    result.hands(),
                    result.winner_index as int,
                ),
            final(self).winner_total_card_counts == old(self).winner_total_card_counts,
            final(self).win_present_card_counts == old(self).win_present_card_counts,
            final(self).loss_present_card_counts == old(self).loss_present_card_counts,
            final(self).wf(),
    {
        let mut k: usize = 0;
        while k < ROUND_LIMITS
            invariant
                result.winner_index < result.hands().len(),
                k <= ROUND_LIMITS,
                self.win_present_card_counts_by_round@.len() == ROUND_LIMITS,
                self.loss_present_card_counts_by_round@.len() == ROUND_LIMITS,
                old(self).win_present_card_counts_by_round@.len() == ROUND_LIMITS,
                old(self).loss_present_card_counts_by_round@.len() == ROUND_LIMITS,
                self.winner_total_card_counts == old(self).winner_total_card_counts,
                self.win_present_card_counts == old(self).win_present_card_counts,
                self.loss_present_card_counts == old(self).loss_present_card_counts,
                forall|j: int|
                    0 <= j < ROUND_LIMITS ==> (#[trigger] self.win_present_card_counts_by_round@[j]).round
                        == spec_round_breakdown()[j],
                forall|j: int|
                    0 <= j < ROUND_LIMITS ==> (
                    #[trigger] self.loss_present_card_counts_by_round@[j]).round
                        == spec_round_breakdown()[j],
                forall|j: int|
                    k <= j < ROUND_LIMITS ==> (#[trigger] self.win_present_card_counts_by_round@[j])
                        == old(self).win_present_card_counts_by_round@[j],
                forall|j: int|
                    k <= j < ROUND_LIMITS ==> (#[trigger] self.loss_present_card_counts_by_round@[j])
                        == old(self).loss_present_card_counts_by_round@[j],
                forall|j: int|
                    0 <= j < ROUND_LIMITS ==> tally_has_room(
                        &(#[trigger] old(self).win_present_card_counts_by_round@[j]).counts,
                        Measure::WinnerPresence(spec_round_breakdown()[j]),
                        result.hands(),
                        result.winner_index as int,
                    ),
                forall|j: int|
                    0 <= j < ROUND_LIMITS ==> tally_has_room(
                        &(#[trigger] old(self).loss_present_card_counts_by_round@[j]).counts,
                        Measure::LoserPresence(spec_round_breakdown()[j]),
                        result.hands(),
                        result.winner_index as int,
                    ),
                forall|j: int|
                    0 <= j < k ==> tally_grew(
                        &old(self).win_present_card_counts_by_round@[j].counts,
                        &(#[trigger] self.win_present_card_counts_by_round@[j]).counts,
                        Measure::WinnerPresence(spec_round_breakdown()[j]),
                        result.hands(),
                        result.winner_index as int,
                    ),
                forall|j: int|
                    0 <= j < k ==> tally_grew(
                        &old(self).loss_present_card_counts_by_round@[j].counts,
                        &(#[trigger] self.loss_present_card_counts_by_round@[j]).counts,
                        Measure::LoserPresence(spec_round_breakdown()[j]),
                        result.hands(),
                        result.winner_index as int,
                    ),
            decreases ROUND_LIMITS - k,
        {
            let round: usize = self.win_present_card_counts_by_round[k].round;
            assert(old(self).win_present_card_counts_by_round@[k as int]
                == self.win_present_card_counts_by_round@[k as int]);
            assert(old(self).loss_present_card_counts_by_round@[k as int]
                == self.loss_present_card_counts_by_round@[k as int]);
            self.win_present_card_counts_by_round[k].counts.record(
                Measure::WinnerPresence(round),
                result,
            );
            self.loss_present_card_counts_by_round[k].counts.record(
                Measure::LoserPresence(round),
                result,
            );
            k = k + 1;
        }
    }

    /// The copies of `card` that the winners held.
    pub fn winner_total_count(&self, card: Card) -> (count: usize)
        ensures
            count == self.winner_total(card),
    {
        self.winner_total_card_counts.get(card)
    }

    /// The winners who held `card`.
    pub fn win_present_count(&self, card: Card) -> (count: usize)
        ensures
            count == self.win_present(card),
    {
        self.win_present_card_counts.get(card)
    }

    /// The losers who held `card`.
    pub fn loss_present_count(&self, card: Card) -> (count: usize)
        ensures
            count == self.loss_present(card),
    {
        self.loss_present_card_counts.get(card)
    }

    /// The winners who held `card` from before the round limit at `position`.
    pub fn win_present_count_by_round(&self, position: usize, card: Card) -> (count: usize)
        requires
            self.wf(),
            position < ROUND_LIMITS,
        ensures
            count == self.win_present_by_round(position as int, card),
    {
        self.win_present_card_counts_by_round[position].counts.get(card)
    }

    /// The losers who held `card` from before the round limit at `position`.
    pub fn loss_present_count_by_round(&self, position: usize, card: Card) -> (count: usize)
        requires
            self.wf(),
            position < ROUND_LIMITS,
        ensures
            count == self.loss_present_by_round(position as int, card),
    {
        self.loss_present_card_counts_by_round[position].counts.get(card)
    }
}

} // verus!
