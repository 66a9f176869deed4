use crate::market::lemma_display_holds_min_of_limit_and_remaining;
use crate::market::lemma_refill_is_idempotent;
use crate::market::FACE_UP_LIMIT;
use crate::market::on_display;
use crate::market::CardMarket;
use crate::market::LandmarkMarket;
use crate::market::MarketView;
use crate::market::Slot;
use crate::models::card::Card;
use crate::models::landmark::all_landmarks;
use crate::models::landmark::Landmark;
use crate::models::landmark::LandmarkType;
use crate::models::player::Player;
use crate::models::player::PlayerView;
use crate::rng::Rng;
use crate::rules::card::build_greater_than_6_deck;
use crate::rules::card::build_less_than_7_deck;
use crate::rules::card::deck_of;
use crate::rules::card::spec_deck_composition;
use crate::rules::landmark::build_landmark_deck;
use vstd::prelude::*;

verus! {

/// The fewest players that a game can be played with.
pub const MIN_PLAYERS: usize = 2;

/// The most players that a game can be played with.
pub const MAX_PLAYERS: usize = 4;

/// A purchase, exchange or gift that the rules do not allow in the state in
/// which it was asked for.
#[derive(Clone, Copy, Debug, PartialEq, Eq, Structural)]
pub enum InvalidDecision {
    /// The establishment or landmark is not on display.
    NotOnDisplay,
    /// The current player cannot pay for it, or may not build it.
    NotAffordable,
    /// The opponent named is the current player or no player at all.
    NoSuchOpponent,
    /// A player named as giving an establishment does not hold one of that type.
    NotOwned,
}

/// The whole state of one match.
pub struct Game {
    pub rng: Rng,
    pub players: Vec<Player>,
    pub current_player: usize,
    /// Turns completed so far; a repeated turn does not count.
    pub current_turn: usize,
    pub less_than_7: CardMarket,
    pub greater_than_6: CardMarket,
    pub landmarks: LandmarkMarket,
    /// The landmarks of the infinite kind that any player has built, in the
    /// order in which they were built.
    pub active_landmarks: Vec<Landmark>,
    /// Set when the current player is to play once more after this turn.
    pub take_another_turn: bool,
}

/// The mathematical model of a [`Game`]: everything but the state of the
/// random generator.
pub struct GameView {
    pub seed: u64,
    pub players: Seq<PlayerView>,
    pub current_player: int,
    pub current_turn: int,
    pub less_than_7: MarketView<Card>,
    pub greater_than_6: MarketView<Card>,
    pub landmarks: MarketView<Landmark>,
    pub active_landmarks: Seq<Landmark>,
    pub take_another_turn: bool,
}

impl View for Game {
    type V = GameView;

    open spec fn view(&self) -> GameView {
        GameView {
            seed: self.rng.spec_seed(),
            players: self.players@.map_values(|p: Player| p@),
            current_player: self.current_player as int,
            current_turn: self.current_turn as int,
            less_than_7: self.less_than_7@,
            greater_than_6: self.greater_than_6@,
            landmarks: self.landmarks@,
            active_landmarks: self.active_landmarks@,
            take_another_turn: self.take_another_turn,
        }
    }
}

/// The round stamp that a purchase gets in round `round`: the low eight bits.
pub open spec fn round_stamp(round: int) -> u8 {
    (round % 256) as u8
}

/// The least index below `upto` of a player who has won, or `upto` if there is
/// none.
pub open spec fn first_winner(players: Seq<PlayerView>, upto: int) -> int
    decreases upto,
{
    if upto <= 0 {
        0
    } else {
        let before = first_winner(players, upto - 1);
        if before < upto - 1 {
            before
        } else if players[upto - 1].has_won() {
            upto - 1
        } else {
            upto
        }
    }
}

/// The first winner below a seat has won, and nobody before has.
pub(crate) proof fn lemma_first_winner(players: Seq<PlayerView>, upto: int)
    requires
        0 <= upto <= players.len(),
    ensures
        0 <= first_winner(players, upto) <= upto,
        first_winner(players, upto) < upto ==> players[first_winner(players, upto)].has_won(),
        forall|i: int| 0 <= i < first_winner(players, upto) ==> !(#[trigger] players[i]).has_won(),
    decreases upto,
{
    if upto > 0 {
        lemma_first_winner(players, upto - 1);
    }
}

impl GameView {
    /// The state's invariant: at most four players, each with a balance that
    /// fits, a current player who exists, and three well-formed, stocked
    /// markets.
    pub open spec fn wf(self) -> bool {
        &&& self.players.len() <= MAX_PLAYERS
        &&& forall|i: int|
            0 <= i < self.players.len() ==> 0 <= (#[trigger] self.players[i]).coins <= u16::MAX
        &&& 0 <= self.current_player
        &&& self.current_player < self.players.len() || (self.players.len() == 0
            && self.current_player == 0)
        &&& 0 <= self.current_turn <= usize::MAX
        &&& self.less_than_7.wf()
        &&& self.less_than_7.stocked()
        &&& self.greater_than_6.wf()
        &&& self.greater_than_6.stocked()
        &&& self.landmarks.wf()
        &&& self.landmarks.stocked()
    }

    /// The state is well formed and has at least one player.
    pub open spec fn seated(self) -> bool {
        self.wf() && self.players.len() > 0
    }

    /// The player whose turn it is.
    pub open spec fn current(self) -> PlayerView {
        self.players[self.current_player]
    }

    /// The round: the turns completed, divided by the number of players.
    pub open spec fn round(self) -> int {
        self.current_turn / (self.players.len() as int)
    }

    /// The player who has won, if any: the one in the lowest seat.
    pub open spec fn winner(self) -> Option<int> {
        let w = first_winner(self.players, self.players.len() as int);
        if w < self.players.len() {
            Some(w)
        } else {
            None
        }
    }

    /// The same state with other players.
    pub open spec fn with_players(self, players: Seq<PlayerView>) -> GameView {
        GameView { players, ..self }
    }

    /// The same state with player `index` replaced.
    pub open spec fn with_player(self, index: int, player: PlayerView) -> GameView {
        GameView { players: self.players.update(index, player), ..self }
    }

    /// The state after the turn has passed on: to the same player, with the
    /// flag cleared and the turn counter as it was, if that player was to play
    /// once more; else to the next seat, with one more turn counted.
    pub open spec fn with_turn_advanced(self) -> GameView {
        if self.take_another_turn {
            GameView { take_another_turn: false, ..self }
        } else {
            GameView {
                current_player: (self.current_player + 1) % (self.players.len() as int),
                current_turn: self.current_turn + 1,
                ..self
            }
        }
    }

    /// The seats other than the current one, walking backwards from the seat
    /// before it.
    pub open spec fn other_players_reverse(self) -> Seq<usize> {
        Seq::new(
            (self.players.len() - 1) as nat,
            |k: int|
                ((self.current_player + self.players.len() - 1 - k) % (
                self.players.len() as int)) as usize,
        )
    }

    /// Every seat, from the first to the last.
    pub open spec fn all_seats(self) -> Seq<usize> {
        Seq::new(self.players.len(), |k: int| k as usize)
    }

    /// `card` lies in one of the two establishment displays.
    pub open spec fn card_on_display(self, card: Card) -> bool {
        on_display(self.less_than_7.face_up, card) || on_display(self.greater_than_6.face_up, card)
    }

    /// `landmark` lies in the landmark display.
    pub open spec fn landmark_on_display(self, landmark: Landmark) -> bool {
        on_display(self.landmarks.face_up, landmark)
    }

    /// The current player has the coins for `card`.
    pub open spec fn current_player_can_afford_card(self, card: Card) -> bool {
        self.current().can_afford_card(card)
    }

    /// Every player other than the current one has built a landmark.
    pub open spec fn all_others_have_landmarks(self) -> bool {
        forall|i: int|
            0 <= i < self.players.len() && i != self.current_player ==> (
            #[trigger] self.players[i]).landmarks.len() > 0
    }

    /// The current player has the coins for `landmark` at the price that
    /// player's own landmarks leave, and, for the Loan Office, is the only
    /// player without a landmark.
    pub open spec fn current_player_can_afford_landmark(self, landmark: Landmark) -> bool {
        &&& self.current().can_afford_landmark(landmark)
        &&& landmark == Landmark::LoanOffice ==> self.all_others_have_landmarks()
    }

    /// The state after the current player has bought `card` from the display:
    /// from the low display if it lies there, else from the high one.
    pub open spec fn with_card_bought(self, card: Card) -> GameView {
        let buyer = self.current().with_card_bought(card, round_stamp(self.round()));
        let paid = self.with_player(self.current_player, buyer);
        if on_display(self.less_than_7.face_up, card) {
            GameView { less_than_7: self.less_than_7.with_purchase(card), ..paid }
        } else {
            GameView { greater_than_6: self.greater_than_6.with_purchase(card), ..paid }
        }
    }

    /// The cache of active landmarks once `landmark` has been built.
    pub open spec fn active_landmarks_with(self, landmark: Landmark) -> Seq<Landmark> {
        if landmark.spec_def().landmark_type == LandmarkType::Infinite
            && !self.active_landmarks.contains(landmark) {
            self.active_landmarks.push(landmark)
        } else {
            self.active_landmarks
        }
    }

    /// The state after the current player has built `landmark` from the
    /// display.
    pub open spec fn with_landmark_bought(self, landmark: Landmark) -> GameView {
        let buyer = self.current().with_landmark_bought(landmark, round_stamp(self.round()));
        GameView {
            landmarks: self.landmarks.with_purchase(landmark),
            active_landmarks: self.active_landmarks_with(landmark),
            ..self.with_player(self.current_player, buyer)
        }
    }

    /// The cache of active landmarks is current: it holds exactly the
    /// landmarks of the infinite kind that some player has built.
    pub open spec fn cache_is_current(self) -> bool {
        forall|landmark: Landmark| #[trigger]
            self.active_landmarks.contains(landmark) <==> (landmark.spec_def().landmark_type
                == LandmarkType::Infinite && self.somebody_owns(landmark))
    }

    /// Some player has built `landmark`.
    pub open spec fn somebody_owns(self, landmark: Landmark) -> bool {
        exists|i: int| 0 <= i < self.players.len() && (#[trigger] self.players[i]).owns_landmark(landmark)
    }

    /// The state with every display refilled.
    pub open spec fn with_displays_refilled(self) -> GameView {
        GameView {
            less_than_7: self.less_than_7.refilled(),
            greater_than_6: self.greater_than_6.refilled(),
            landmarks: self.landmarks.refilled(),
            ..self
        }
    }
}

/// Refilling the displays of a well-formed state changes nothing: they are
/// stocked already. So refilling twice is refilling once.
pub proof fn lemma_refill_twice_is_refill_once(game: GameView)
    requires
        game.less_than_7.wf(),
        game.greater_than_6.wf(),
        game.landmarks.wf(),
    ensures
        game.with_displays_refilled().with_displays_refilled() == game.with_displays_refilled(),
        game.wf() ==> game.with_displays_refilled() == game,
{
    lemma_refill_is_idempotent(game.less_than_7);
    lemma_refill_is_idempotent(game.greater_than_6);
    lemma_refill_is_idempotent(game.landmarks);
}

/// A player who sits down has built nothing, so the cache stays current.
proof fn lemma_newcomer_keeps_the_cache_current(game: GameView)
    requires
        game.cache_is_current(),
    ensures
        game.with_players(game.players.push(PlayerView::starting())).cache_is_current(),
{
    let after = game.with_players(game.players.push(PlayerView::starting()));
    assert forall|landmark: Landmark| #[trigger]
        after.active_landmarks.contains(landmark) <==> (landmark.spec_def().landmark_type
            == LandmarkType::Infinite && after.somebody_owns(landmark)) by {
        if game.somebody_owns(landmark) {
            let i = choose|i: int|
                0 <= i < game.players.len() && (#[trigger] game.players[i]).owns_landmark(landmark);
            assert(after.players[i] == game.players[i]);
            assert(after.players[i].owns_landmark(landmark));
        }
        if after.somebody_owns(landmark) {
            let i = choose|i: int|
                0 <= i < after.players.len() && (#[trigger] after.players[i]).owns_landmark(landmark);
            if i < game.players.len() {
                assert(after.players[i] == game.players[i]);
                assert(game.players[i].owns_landmark(landmark));
            }
        }
    }
}

/// Building a landmark keeps the cache of active landmarks current.
pub proof fn lemma_building_keeps_the_cache_current(game: GameView, landmark: Landmark)
    requires
        0 <= game.current_player < game.players.len(),
        game.cache_is_current(),
    ensures
        game.with_landmark_bought(landmark).cache_is_current(),
{
    let seat = game.current_player;
    let after = game.with_landmark_bought(landmark);
    let mine = after.players[seat].landmarks;
    assert(mine[mine.len() - 1].landmark == landmark);
    assert(after.players[seat].owns_landmark(landmark));
    assert forall|other: Landmark| #[trigger]
        after.active_landmarks.contains(other) <==> (other.spec_def().landmark_type
            == LandmarkType::Infinite && after.somebody_owns(other)) by {
        if game.somebody_owns(other) {
            let i = choose|i: int|
                0 <= i < game.players.len() && (#[trigger] game.players[i]).owns_landmark(other);
            let k = choose|k: int|
                0 <= k < game.players[i].landmarks.len() && (
                #[trigger] game.players[i].landmarks[k]).landmark == other;
            assert(after.players[i].landmarks[k].landmark == other);
            assert(after.players[i].owns_landmark(other));
        }
        if after.somebody_owns(other) && other != landmark {
            let i = choose|i: int|
                0 <= i < after.players.len() && (#[trigger] after.players[i]).owns_landmark(other);
            let k = choose|k: int|
                0 <= k < after.players[i].landmarks.len() && (
                #[trigger] after.players[i].landmarks[k]).landmark == other;
            assert(game.players[i].landmarks[k].landmark == other);
            assert(game.players[i].owns_landmark(other));
        }
        if game.active_landmarks.contains(other) {
            let k = choose|k: int| 0 <= k < game.active_landmarks.len() && game.active_landmarks[k] == other;
            assert(after.active_landmarks[k] == other);
        }
        if after.active_landmarks.contains(other) && other != landmark {
            let k = choose|k: int|
                0 <= k < after.active_landmarks.len() && after.active_landmarks[k] == other;
            assert(game.active_landmarks[k] == other);
        }
        if other == landmark && landmark.spec_def().landmark_type == LandmarkType::Infinite
            && !game.active_landmarks.contains(landmark) {
            assert(after.active_landmarks[after.active_landmarks.len() - 1] == landmark);
        }
    }
}

/// `count`, or the display's limit if that is less.
pub open spec fn at_most_the_limit(count: nat) -> nat {
    if count < FACE_UP_LIMIT {
        count
    } else {
        FACE_UP_LIMIT as nat
    }
}

/// The market invariant: in every well-formed state, each of the three
/// displays shows exactly min(5, n) types, where n is the number of distinct
/// types that remain in its pile or on the display. Every function of the
/// library that changes a game hands back a well-formed state.
pub proof fn lemma_displays_show_min_of_five_and_remaining(game: GameView)
    requires
        game.wf(),
    ensures
        game.less_than_7.remaining_tags().finite(),
        game.greater_than_6.remaining_tags().finite(),
        game.landmarks.remaining_tags().finite(),
        game.less_than_7.face_up.len() == at_most_the_limit(game.less_than_7.remaining_tags().len()),
        game.greater_than_6.face_up.len() == at_most_the_limit(
            game.greater_than_6.remaining_tags().len(),
        ),
        game.landmarks.face_up.len() == at_most_the_limit(game.landmarks.remaining_tags().len()),
{
    lemma_display_holds_min_of_limit_and_remaining(game.less_than_7);
    lemma_display_holds_min_of_limit_and_remaining(game.greater_than_6);
    lemma_display_holds_min_of_limit_and_remaining(game.landmarks);
}

impl Game {
    /// The state is well formed.
    pub open spec fn wf(&self) -> bool {
        self@.wf()
    }

    /// A new game without players: the three decks built, shuffled with a
    /// generator made from `rng_seed`, or from a seed drawn from system
    /// entropy if there is none, and their displays filled.
    pub fn new(rng_seed: Option<u64>) -> (game: Game)
        ensures
            game.wf(),
            rng_seed matches Some(seed) ==> game@.seed == seed,
            game@.players.len() == 0,
            game@.current_player == 0,
            game@.current_turn == 0,
            game@.active_landmarks.len() == 0,
            game@.cache_is_current(),
            !game@.take_another_turn,
            exists|low: Seq<Card>, high: Seq<Card>, landmarks: Seq<Landmark>|
                {
                    &&& low.to_multiset() == deck_of(spec_deck_composition(), false).to_multiset()
                    &&& high.to_multiset() == deck_of(spec_deck_composition(), true).to_multiset()
                    &&& landmarks.to_multiset() == all_landmarks().to_multiset()
                    &&& #[trigger] opening_markets(game@, low, high, landmarks)
                },
            is_opening(game@),
    {
        let mut rng: Rng = match rng_seed {
            Some(seed) => Rng::new_with_seed(seed),
            None => Rng::new(),
        };
        let mut less_than_7_deck: Vec<Card> = build_less_than_7_deck();
        let mut greater_than_6_deck: Vec<Card> = build_greater_than_6_deck();
        let mut landmark_deck: Vec<Landmark> = build_landmark_deck();

        rng.shuffle(&mut less_than_7_deck);
        rng.shuffle(&mut greater_than_6_deck);
        rng.shuffle(&mut landmark_deck);

        let ghost low = less_than_7_deck@;
        let ghost high = greater_than_6_deck@;
        let ghost marks = landmark_deck@;

        let game = Game {
            rng,
            players: Vec::new(),
            current_player: 0,
            current_turn: 0,
            less_than_7: CardMarket::open(less_than_7_deck),
            greater_than_6: CardMarket::open(greater_than_6_deck),
            landmarks: LandmarkMarket::open(landmark_deck),
            active_landmarks: Vec::new(),
            take_another_turn: false,
        };
        assert(opening_markets(game@, low, high, marks));
        game
    }

    /// Seats one more player, with the starting coins. Returns `false`, and
    /// changes nothing, if the table is full.
    pub fn add_player(&mut self) -> (seated: bool)
        requires
            old(self).wf(),
        ensures
            final(self).wf(),
            seated == (old(self)@.players.len() < MAX_PLAYERS),
            seated ==> final(self)@ == old(self)@.with_players(
                old(self)@.players.push(PlayerView::starting()),
            ),
            !seated ==> final(self)@ == old(self)@,
            old(self)@.cache_is_current() ==> final(self)@.cache_is_current(),
    {
        if self.players.len() >= MAX_PLAYERS {
            return false;
        }
        let player: Player = Player::new();
        self.players.push(player);
        assert(self@.players =~= old(self)@.players.push(player@));
        proof {
            if old(self)@.cache_is_current() {
                lemma_newcomer_keeps_the_cache_current(old(self)@);
            }
        }
        true
    }

    /// The round: the turns completed, divided by the number of players.
    pub fn get_round(&self) -> (round: usize)
        requires
            self@.players.len() > 0,
        ensures
            round == self@.round(),
    {
        self.current_turn / self.players.len()
    }

    /// The stamp that a purchase made now gets.
    pub fn current_round_stamp(&self) -> (stamp: u8)
        requires
            self@.players.len() > 0,
        ensures
            stamp == round_stamp(self@.round()),
    {
        (self.get_round() % 256) as u8
    }

    /// The player whose turn it is.
    pub fn get_current_player(&self) -> (player: &Player)
        requires
            self@.seated(),
        ensures
            player@ == self@.current(),
    {
        &self.players[self.current_player]
    }

    /// The landmarks of the infinite kind that have been built.
    pub fn get_active_landmarks(&self) -> (active: &Vec<Landmark>)
        ensures
            active@ == self@.active_landmarks,
    {
        &self.active_landmarks
    }

    /// The player who has won, if any: the one in the lowest seat who holds
    /// three landmarks or the landmark that wins by itself.
    pub fn winner(&self) -> (winner: Option<usize>)
        ensures
            winner is Some <==> self@.winner() is Some,
            winner matches Some(w) ==> self@.winner() == Some(w as int) && w < self@.players.len()
                && self@.players[w as int].has_won(),
            winner is None ==> forall|i: int|
                0 <= i < self@.players.len() ==> !(#[trigger] self@.players[i]).has_won(),
    {
        proof {
            lemma_first_winner(self@.players, self@.players.len() as int);
        }
        let mut i: usize = 0;
        while i < self.players.len()
            invariant
                i <= self.players@.len(),
                first_winner(self@.players, i as int) == i,
            decreases self.players.len() - i,
        {
            if self.players[i].has_won() {
                proof {
                    lemma_first_winner_is_stable(self@.players, i as int, self@.players.len() as int);
                }
                return Some(i);
            }
            i = i + 1;
        }
        None
    }

    /// Passes the turn on.
    pub fn advance_turn(&mut self)
        requires
            old(self)@.seated(),
            old(self)@.current_turn < usize::MAX,
        ensures
            final(self)@ == old(self)@.with_turn_advanced(),
            final(self).wf(),
    {
        proof {
            lemma_step_forward(self@.current_player, self@.players.len() as int);
        }
        if self.take_another_turn {
            self.take_another_turn = false;
        } else {
            self.current_player = if self.current_player + 1 >= self.players.len() {
                0
            } else {
                self.current_player + 1
            };
            self.current_turn = self.current_turn + 1;
        }
    }

    /// Rolls one die.
    pub fn roll_one_die(&mut self) -> (face: u8)
        ensures
            1 <= face <= 6,
            final(self)@ == old(self)@,
    {
        self.rng.roll_die()
    }

    /// Rolls two dice.
    pub fn roll_two_dice(&mut self) -> (faces: (u8, u8))
        ensures
            1 <= faces.0 <= 6,
            1 <= faces.1 <= 6,
            final(self)@ == old(self)@,
    {
        let first: u8 = self.rng.roll_die();
        let second: u8 = self.rng.roll_die();
        (first, second)
    }

    /// The seats other than the current one, walking backwards from the seat
    /// before it.
    pub fn other_players_reverse(&self) -> (seats: Vec<usize>)
        requires
            self@.seated(),
        ensures
            seats@ == self@.other_players_reverse(),
            forall|k: int| 0 <= k < seats@.len() ==> (#[trigger] seats@[k]) < self@.players.len(),
    {
        let count: usize = self.players.len();
        let mut seats: Vec<usize> = Vec::new();
        let mut seat: usize = self.current_player;
        let mut k: usize = 0;
        proof {
            lemma_step_forward(self@.current_player, count as int);
        }
        while k + 1 < count
            invariant
                count == self@.players.len(),
                0 < count <= MAX_PLAYERS,
                0 <= self@.current_player < count,
                k < count,
                seat < count,
                seat as int == (self@.current_player + count - k) % (count as int),
                seats@.len() == k,
                forall|j: int|
                    0 <= j < k ==> (#[trigger] seats@[j]) as int == (self@.current_player + count - 1
                        - j) % (count as int),
            decreases count - k,
        {
            let ghost before = seat;
            seat = if seat == 0 {
                count - 1
            } else {
                seat - 1
            };
            proof {
                lemma_step_back(self@.current_player, count as int, k as int);
            }
            seats.push(seat);
            k = k + 1;
        }
        assert(seats@ =~= self@.other_players_reverse());
        seats
    }

    /// Whether the current player has the coins for `card`.
    pub fn current_player_can_afford_card(&self, card: &Card) -> (affordable: bool)
        requires
            self@.seated(),
        ensures
            affordable == self@.current_player_can_afford_card(*card),
    {
        self.players[self.current_player].can_afford_card(card)
    }

    /// Whether the current player has the coins for `landmark` and may build
    /// it.
    pub fn current_player_can_afford_landmark(&self, landmark: &Landmark) -> (affordable: bool)
        requires
            self@.seated(),
        ensures
            affordable == self@.current_player_can_afford_landmark(*landmark),
    {
        if !self.players[self.current_player].can_afford_landmark(landmark) {
            return false;
        }
        if *landmark != Landmark::LoanOffice {
            return true;
        }
        let mut i: usize = 0;
        while i < self.players.len()
            invariant
                i <= self.players@.len(),
                self@.seated(),
                *landmark == Landmark::LoanOffice,
                self@.current().can_afford_landmark(*landmark),
                forall|j: int|
                    0 <= j < i && j != self@.current_player ==> (#[trigger] self@.players[j]).landmarks.len()
                        > 0,
            decreases self.players.len() - i,
        {
            if i != self.current_player && self.players[i].landmarks.len() == 0 {
                assert(self@.players[i as int].landmarks.len() == 0);
                return false;
            }
            i = i + 1;
        }
        true
    }

    /// The current player buys `card` from the display: pays its cost, takes
    /// it in hand stamped with the round, and the display is refilled.
    pub fn buy_card(&mut self, card: Card) -> (result: Result<(), InvalidDecision>)
        requires
            old(self)@.seated(),
        ensures
            final(self).wf(),
            result is Ok <==> old(self)@.card_on_display(card)
                && old(self)@.current_player_can_afford_card(card),
            match result {
                Ok(()) => final(self)@ == old(self)@.with_card_bought(card),
                Err(reason) => {
                    &&& final(self)@ == old(self)@
                    &&& reason == InvalidDecision::NotOnDisplay <==> !old(self)@.card_on_display(card)
                    &&& reason == InvalidDecision::NotAffordable <==> old(self)@.card_on_display(card)
                        && !old(self)@.current_player_can_afford_card(card)
                },
            },
    {
        let low: bool = self.less_than_7.shows(card);
        if !low && !self.greater_than_6.shows(card) {
            return Err(InvalidDecision::NotOnDisplay);
        }
        if !self.current_player_can_afford_card(&card) {
            return Err(InvalidDecision::NotAffordable);
        }
        let stamp: u8 = self.current_round_stamp();
        let buyer: usize = self.current_player;
        self.players[buyer].buy_card(card, stamp);
        if low {
            self.less_than_7.remove(card);
        } else {
            self.greater_than_6.remove(card);
        }
        proof {
            let expected = old(self)@.with_card_bought(card);
            assert(self@.players =~= expected.players);
        }
        Ok(())
    }

    /// The current player builds `landmark` from the display: pays the tier
    /// of its cost schedule less what the player's landmarks take off, the
    /// landmark is stamped with the round and, if of the infinite kind, joins
    /// the active landmarks, and the display is refilled.
    pub fn buy_landmark(&mut self, landmark: Landmark) -> (result: Result<(), InvalidDecision>)
        requires
            old(self)@.seated(),
        ensures
            final(self).wf(),
            result is Ok <==> old(self)@.landmark_on_display(landmark)
                && old(self)@.current_player_can_afford_landmark(landmark),
            old(self)@.cache_is_current() ==> final(self)@.cache_is_current(),
            match result {
                Ok(()) => final(self)@ == old(self)@.with_landmark_bought(landmark),
                Err(reason) => {
                    &&& final(self)@ == old(self)@
                    &&& reason == InvalidDecision::NotOnDisplay <==> !old(self)@.landmark_on_display(
                        landmark,
                    )
                    &&& reason == InvalidDecision::NotAffordable <==> old(self)@.landmark_on_display(
                        landmark,
                    ) && !old(self)@.current_player_can_afford_landmark(landmark)
                },
            },
    {
        proof {
            if self@.cache_is_current() {
                lemma_building_keeps_the_cache_current(self@, landmark);
            }
        }
        if !self.landmarks.shows(landmark) {
            return Err(InvalidDecision::NotOnDisplay);
        }
        if !self.current_player_can_afford_landmark(&landmark) {
            return Err(InvalidDecision::NotAffordable);
        }
        let stamp: u8 = self.current_round_stamp();
        let buyer: usize = self.current_player;
        self.players[buyer].buy_landmark(landmark, stamp);
        self.landmarks.remove(landmark);
        if landmark.def().landmark_type == LandmarkType::Infinite && !self.is_active(landmark) {
            self.active_landmarks.push(landmark);
        }
        proof {
            let expected = old(self)@.with_landmark_bought(landmark);
            assert(self@.players =~= expected.players);
        }
        Ok(())
    }

    /// Whether `landmark` is among the active landmarks.
    pub fn is_active(&self, landmark: Landmark) -> (active: bool)
        ensures
            active == self@.active_landmarks.contains(landmark),
    {
        let mut i: usize = 0;
        while i < self.active_landmarks.len()
            invariant
                i <= self.active_landmarks@.len(),
                forall|j: int| 0 <= j < i ==> self.active_landmarks@[j] != landmark,
            decreases self.active_landmarks.len() - i,
        {
            if self.active_landmarks[i] == landmark {
                return true;
            }
            i = i + 1;
        }
        false
    }

    /// Refills the three displays from their decks.
    pub fn refill_face_up_cards(&mut self)
        requires
            old(self)@.less_than_7.wf(),
            old(self)@.greater_than_6.wf(),
            old(self)@.landmarks.wf(),
        ensures
            final(self)@ == old(self)@.with_displays_refilled(),
            final(self)@.less_than_7.wf() && final(self)@.less_than_7.stocked(),
            final(self)@.greater_than_6.wf() && final(self)@.greater_than_6.stocked(),
            final(self)@.landmarks.wf() && final(self)@.landmarks.stocked(),
            old(self).wf() ==> final(self).wf() && final(self)@ == old(self)@,
    {
        proof {
            lemma_refill_twice_is_refill_once(self@);
        }
        self.less_than_7.refill();
        self.greater_than_6.refill();
        self.landmarks.refill();
    }
}

/// `game` is a game as it is opened: nobody is seated, no turn has been played,
/// nothing is built, and the three markets are what refilling makes of the
/// three decks, each in some order of its cards, with nothing on display.
pub open spec fn is_opening(game: GameView) -> bool {
    &&& game.players.len() == 0
    &&& game.current_player == 0
    &&& game.current_turn == 0
    &&& game.active_landmarks.len() == 0
    &&& !game.take_another_turn
    &&& exists|low: Seq<Card>, high: Seq<Card>, landmarks: Seq<Landmark>|
        {
            &&& low.to_multiset() == deck_of(spec_deck_composition(), false).to_multiset()
            &&& high.to_multiset() == deck_of(spec_deck_composition(), true).to_multiset()
            &&& landmarks.to_multiset() == all_landmarks().to_multiset()
            &&& #[trigger] opening_markets(game, low, high, landmarks)
        }
}

/// The markets of `game` are what refilling makes of the three given decks
/// with nothing on display.
pub open spec fn opening_markets(
    game: GameView,
    low: Seq<Card>,
    high: Seq<Card>,
    landmarks: Seq<Landmark>,
) -> bool {
    &&& game.less_than_7 == (MarketView { deck: low, face_up: Seq::<Slot<Card>>::empty() }).refilled()
    &&& game.greater_than_6 == (MarketView {
        deck: high,
        face_up: Seq::<Slot<Card>>::empty(),
    }).refilled()
    &&& game.landmarks == (MarketView {
        deck: landmarks,
        face_up: Seq::<Slot<Landmark>>::empty(),
    }).refilled()
}

/// Once a winner has been found below `upto`, looking further finds the same.
proof fn lemma_first_winner_is_stable(players: Seq<PlayerView>, found: int, upto: int)
    requires
        0 <= found < upto <= players.len(),
        first_winner(players, found) == found,
        players[found].has_won(),
    ensures
        first_winner(players, upto) == found,
    decreases upto,
{
    if upto > found + 1 {
        lemma_first_winner_is_stable(players, found, upto - 1);
    }
}

/// One step backwards round the table.
proof fn lemma_step_back(current: int, count: int, k: int)
    requires
        0 <= current < count,
        0 <= k < count - 1,
    ensures
        (current + count - (k + 1)) % count == if (current + count - k) % count == 0 {
            count - 1
        } else {
            (current + count - k) % count - 1
        },
{
    if current - k >= 0 {
        vstd::arithmetic::div_mod::lemma_fundamental_div_mod_converse(
            current + count - k,
            count,
            1,
            current - k,
        );
        if current - k >= 1 {
            vstd::arithmetic::div_mod::lemma_fundamental_div_mod_converse(
                current + count - (k + 1),
                count,
                1,
                current - k - 1,
            );
        } else {
            vstd::arithmetic::div_mod::lemma_fundamental_div_mod_converse(
                current + count - (k + 1),
                count,
                0,
                count - 1,
            );
        }
    } else {
        vstd::arithmetic::div_mod::lemma_fundamental_div_mod_converse(
            current + count - k,
            count,
            0,
            current + count - k,
        );
        vstd::arithmetic::div_mod::lemma_fundamental_div_mod_converse(
            current + count - (k + 1),
            count,
            0,
            current + count - k - 1,
        );
    }
}

/// One step forwards round the table, and a whole lap.
proof fn lemma_step_forward(current: int, count: int)
    requires
        0 <= current < count,
    ensures
        (current + 1) % count == if current + 1 >= count {
            0
        } else {
            current + 1
        },
        (current + count) % count == current,
{
    vstd::arithmetic::div_mod::lemma_fundamental_div_mod_converse(current + count, count, 1, current);
    if current + 1 >= count {
        vstd::arithmetic::div_mod::lemma_fundamental_div_mod_converse(current + 1, count, 1, 0);
    } else {
        vstd::arithmetic::div_mod::lemma_fundamental_div_mod_converse(
            current + 1,
            count,
            0,
            current + 1,
        );
    }
}

} // verus!
