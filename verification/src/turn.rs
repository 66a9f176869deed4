use crate::game::Game;
use crate::game::GameView;
use crate::game::round_stamp;
use crate::models::card::Card;
use crate::models::card::CardColor;
use crate::models::landmark::Landmark;
use crate::models::landmark::LandmarkHook;
use crate::models::player::OwnedCard;
use crate::models::player::PlayerView;
use crate::player_strategies::player_strategy::DiceRollDecision;
use crate::player_strategies::player_strategy::ExchangeEstablishmentDecision;
use crate::player_strategies::player_strategy::GiveEstablishmentDecision;
use crate::player_strategies::player_strategy::PurchaseDecision;
use crate::turn_laws::lemma_activation_order_owners;
use crate::turn_laws::lemma_firing_step;
use vstd::prelude::*;

verus! {

/// The rounds at the start of a game in which players only buy.
pub const BUY_ONLY_TURNS: usize = 3;

/// The coin that a player with none is given before buying.
pub const BROKE_GRANT: u16 = 1;

/// The establishments in `hand` of colour `color` that fire on a dice sum of
/// `sum`, in the order of the hand, each paired with the seat `owner`.
pub open spec fn firing(hand: Seq<OwnedCard>, color: CardColor, sum: u8, owner: usize) -> Seq<
    (Card, usize),
>
    decreases hand.len(),
{
    if hand.len() == 0 {
        Seq::empty()
    } else {
        let card = hand.last().card;
        let before = firing(hand.drop_last(), color, sum, owner);
        if card.spec_def().color == color && card.spec_activates_on(sum) {
            before.push((card, owner))
        } else {
            before
        }
    }
}

/// What `firing` gives for the hands of the first `upto` seats of `seats`, one
/// seat after the other.
pub open spec fn firing_in_seats(
    players: Seq<PlayerView>,
    seats: Seq<usize>,
    color: CardColor,
    sum: u8,
    upto: int,
) -> Seq<(Card, usize)>
    decreases upto,
{
    if upto <= 0 {
        Seq::empty()
    } else {
        let seat = seats[upto - 1];
        firing_in_seats(players, seats, color, sum, upto - 1) + firing(
            players[seat as int].cards,
            color,
            sum,
            seat,
        )
    }
}

impl GameView {
    /// The establishments that fire on a dice sum of `sum`, each with its
    /// owner's seat, in the order in which they fire: the red ones of the
    /// other players, walking backwards from the seat before the current
    /// player's; the blue ones of every player, from the first seat to the
    /// last; the current player's green ones; the current player's purple
    /// ones.
    pub open spec fn activation_order(self, sum: u8) -> Seq<(Card, usize)> {
        let current = self.current_player as usize;
        firing_in_seats(
            self.players,
            self.other_players_reverse(),
            CardColor::Red,
            sum,
            self.players.len() - 1,
        ) + firing_in_seats(
            self.players,
            self.all_seats(),
            CardColor::Blue,
            sum,
            self.players.len() as int,
        ) + firing(self.current().cards, CardColor::Green, sum, current) + firing(
            self.current().cards,
            CardColor::Purple,
            sum,
            current,
        )
    }

    /// The state after the current player's roll of `dice_count` dice has
    /// been written down.
    pub open spec fn with_roll_recorded(self, dice_count: u8) -> GameView {
        let roller = self.current();
        self.with_player(
            self.current_player,
            PlayerView {
                dice_rolls: roller.dice_rolls.push((dice_count, round_stamp(self.round()))),
                ..roller
            },
        )
    }

    /// The state at the start of the buy phase: a current player without
    /// coins has been given one by the bank.
    pub open spec fn with_broke_grant(self) -> GameView {
        if self.current().coins == 0 {
            self.with_bank_payout(self.current_player, BROKE_GRANT as int)
        } else {
            self
        }
    }

    /// The purchase decided can be made: what is named lies on display and the
    /// current player can pay for it.
    pub open spec fn purchase_is_valid(self, decision: PurchaseDecision) -> bool {
        match decision {
            PurchaseDecision::BuyCard(card) => self.card_on_display(card)
                && self.current_player_can_afford_card(card),
            PurchaseDecision::BuyLandmark(landmark) => self.landmark_on_display(landmark)
                && self.current_player_can_afford_landmark(landmark),
            PurchaseDecision::BuyNothing => false,
        }
    }

    /// The state after a purchase decision has been carried out. A decision
    /// that cannot be carried out counts as a decision to buy nothing.
    pub open spec fn with_purchase_decision(self, decision: PurchaseDecision) -> GameView {
        if self.purchase_is_valid(decision) {
            match decision {
                PurchaseDecision::BuyCard(card) => self.with_card_bought(card),
                PurchaseDecision::BuyLandmark(landmark) => self.with_landmark_bought(landmark),
                PurchaseDecision::BuyNothing => self,
            }
        } else {
            self
        }
    }

    /// In this round players only buy.
    pub open spec fn is_buy_only_turn(self) -> bool {
        self.round() < BUY_ONLY_TURNS
    }
}

/// A point of a turn at which the active landmarks are polled, with what the
/// landmarks polled there need to know.
#[derive(Clone, Copy, Debug)]
pub enum HookEvent {
    /// The current player has rolled. The second face is 0 where one die was
    /// thrown.
    DiceRolled { roll: (u8, u8) },
    /// The establishments of the roll have fired.
    CardsActivated { coins_received: bool },
    /// The current player's buy phase is over.
    TurnEnded { built_something: bool },
}

impl HookEvent {
    /// The hook that is polled at this point of the turn.
    pub open spec fn spec_hook(&self) -> LandmarkHook {
        match self {
            HookEvent::DiceRolled { .. } => LandmarkHook::DiceRoll,
            HookEvent::CardsActivated { .. } => LandmarkHook::AfterCardActivation,
            HookEvent::TurnEnded { .. } => LandmarkHook::TurnEnd,
        }
    }

    /// The hook that is polled at this point of the turn.
    #[verifier::when_used_as_spec(spec_hook)]
    pub fn hook(&self) -> (hook: LandmarkHook)
        ensures
            hook == self.spec_hook(),
    {
        match self {
            HookEvent::DiceRolled { .. } => LandmarkHook::DiceRoll,
            HookEvent::CardsActivated { .. } => LandmarkHook::AfterCardActivation,
            HookEvent::TurnEnded { .. } => LandmarkHook::TurnEnd,
        }
    }
}

/// The number of dice behind a roll: one where the second face is 0.
pub open spec fn dice_thrown(roll: (u8, u8)) -> u8 {
    if roll.1 == 0 {
        1
    } else {
        2
    }
}

/// The faces are what the dice decided on can show: one face and a 0, or two
/// faces.
pub open spec fn roll_matches(decision: DiceRollDecision, roll: (u8, u8)) -> bool {
    &&& 1 <= roll.0 <= 6
    &&& match decision {
        DiceRollDecision::RollOne => roll.1 == 0,
        DiceRollDecision::RollTwo => 1 <= roll.1 <= 6,
    }
}

/// `outcome` is what happened: the state reached where all went well, and
/// `None` where a balance had no room.
pub open spec fn came_to(went_well: bool, outcome: Option<GameView>, reached: GameView) -> bool {
    if went_well {
        outcome == Some(reached)
    } else {
        outcome is None
    }
}

/// The match has come to a state in which nobody has won.
pub open spec fn still_open(outcome: Option<GameView>) -> bool {
    match outcome {
        Some(state) => state.winner() is None,
        None => false,
    }
}

/// What the players answer in the course of one turn. The gifts are indexed
/// by the position of the landmark polled among the active landmarks, the
/// exchanges by the position of the establishment in the activation order; an
/// answer is read only where the question is asked.
pub struct TurnAnswers {
    pub dice_roll: DiceRollDecision,
    pub gifts: Seq<GiveEstablishmentDecision>,
    pub exchanges: Seq<ExchangeEstablishmentDecision>,
    pub purchase: PurchaseDecision,
}

impl GameView {
    /// `landmark` is polled at `event`: it takes part in that hook and the
    /// current player has built it.
    pub open spec fn hook_applies(self, landmark: Landmark, event: HookEvent) -> bool {
        landmark.spec_hook() == event.spec_hook() && self.current().owns_landmark(landmark)
    }

    /// The coins that the current player gains when `landmark` is polled at
    /// `event`.
    pub open spec fn hook_gain(self, landmark: Landmark, event: HookEvent) -> int {
        match event {
            HookEvent::DiceRolled { roll } => self.dice_roll_gain(landmark, self.current_player, roll),
            HookEvent::CardsActivated { coins_received } => self.after_activation_gain(
                self.current_player,
                coins_received,
            ),
            HookEvent::TurnEnded { built_something } => self.turn_end_gain(built_something),
        }
    }

    /// The state after `landmark`, built by the current player, has been
    /// polled at `event`, with `gift` as the player's answer where the
    /// landmark asks for one.
    pub open spec fn with_hook(
        self,
        landmark: Landmark,
        event: HookEvent,
        gift: GiveEstablishmentDecision,
    ) -> GameView {
        match event {
            HookEvent::DiceRolled { roll } => self.with_dice_roll_hook(
                landmark,
                self.current_player,
                roll,
                gift,
            ),
            HookEvent::CardsActivated { coins_received } => self.with_bank_payout(
                self.current_player,
                self.after_activation_gain(self.current_player, coins_received),
            ),
            HookEvent::TurnEnded { built_something } => self.with_bank_payout(
                self.current_player,
                self.turn_end_gain(built_something),
            ),
        }
    }

    /// The state after one active landmark has had its chance at `event`:
    /// unchanged if the landmark is not polled there, and `None` if the
    /// current player's balance has no room for what it earns.
    pub open spec fn hook_step(
        self,
        landmark: Landmark,
        event: HookEvent,
        gift: GiveEstablishmentDecision,
    ) -> Option<GameView> {
        if self.hook_applies(landmark, event) {
            if self.current().coins + self.hook_gain(landmark, event) <= u16::MAX {
                Some(self.with_hook(landmark, event, gift))
            } else {
                None
            }
        } else {
            Some(self)
        }
    }

    /// The state after the first `upto` active landmarks, in the order of the
    /// cache, have had their chance at `event`.
    pub open spec fn hooks_outcome(
        self,
        event: HookEvent,
        gifts: Seq<GiveEstablishmentDecision>,
        upto: int,
    ) -> Option<GameView>
        decreases upto,
    {
        if upto <= 0 {
            Some(self)
        } else {
            match self.hooks_outcome(event, gifts, upto - 1) {
                Some(before) => before.hook_step(self.active_landmarks[upto - 1], event, gifts[upto - 1]),
                None => None,
            }
        }
    }

    /// The state after every active landmark has had its chance at `event`.
    pub open spec fn after_hooks(self, event: HookEvent, gifts: Seq<GiveEstablishmentDecision>) -> Option<
        GameView,
    > {
        self.hooks_outcome(event, gifts, self.active_landmarks.len() as int)
    }

    /// The state after one establishment has fired for its owner, and whether
    /// the current player's balance rose with it. `None` if the owner's
    /// balance has no room for what the establishment earns.
    pub open spec fn activation_step(
        self,
        activation: (Card, usize),
        exchange: ExchangeEstablishmentDecision,
    ) -> Option<(GameView, bool)> {
        if self.card_effect_fits(activation.0, activation.1 as int) {
            let after = self.with_card_effect(activation.0, activation.1 as int, exchange);
            Some((after, after.current().coins > self.current().coins))
        } else {
            None
        }
    }

    /// The state after the first `upto` establishments of `activations` have
    /// fired, one after the other, and whether the current player's balance
    /// rose with any of them.
    pub open spec fn activations_outcome(
        self,
        activations: Seq<(Card, usize)>,
        exchanges: Seq<ExchangeEstablishmentDecision>,
        upto: int,
    ) -> Option<(GameView, bool)>
        decreases upto,
    {
        if upto <= 0 {
            Some((self, false))
        } else {
            match self.activations_outcome(activations, exchanges, upto - 1) {
                Some((before, received)) => match before.activation_step(
                    activations[upto - 1],
                    exchanges[upto - 1],
                ) {
                    Some((after, rose)) => Some((after, received || rose)),
                    None => None,
                },
                None => None,
            }
        }
    }

    /// The roll phase: the roll is written down and the active landmarks are
    /// polled.
    pub open spec fn after_roll_phase(self, roll: (u8, u8), gifts: Seq<GiveEstablishmentDecision>) -> Option<
        GameView,
    > {
        self.with_roll_recorded(dice_thrown(roll)).after_hooks(HookEvent::DiceRolled { roll }, gifts)
    }

    /// The income phase: the establishments that fire on `sum` are collected
    /// from the state as it stands, then fire in that order, and the active
    /// landmarks are polled.
    pub open spec fn after_income_phase(
        self,
        sum: u8,
        exchanges: Seq<ExchangeEstablishmentDecision>,
    ) -> Option<GameView> {
        let activations = self.activation_order(sum);
        match self.activations_outcome(activations, exchanges, activations.len() as int) {
            Some((fired, coins_received)) => fired.after_hooks(
                HookEvent::CardsActivated { coins_received },
                Seq::empty(),
            ),
            None => None,
        }
    }

    /// The state after what was bought, if it was a landmark that acts at
    /// build time, has acted for the current player.
    pub open spec fn after_build(self, decision: PurchaseDecision, bought: bool) -> Option<GameView> {
        match decision {
            PurchaseDecision::BuyLandmark(landmark) => if bought && landmark.spec_hook()
                == LandmarkHook::Activation {
                if self.current().coins + self.activation_gain(landmark, self.current_player)
                    <= u16::MAX {
                    Some(self.with_landmark_activated(landmark, self.current_player))
                } else {
                    None
                }
            } else {
                Some(self)
            },
            _ => Some(self),
        }
    }

    /// The buy phase: a current player without coins is given one; the
    /// purchase decided on is made; a landmark that acts at build time acts;
    /// the active landmarks are polled.
    pub open spec fn after_buy_phase(self, decision: PurchaseDecision) -> Option<GameView> {
        let funded = self.with_broke_grant();
        let bought = funded.purchase_is_valid(decision);
        match funded.with_purchase_decision(decision).after_build(decision, bought) {
            Some(built) => built.after_hooks(
                HookEvent::TurnEnded { built_something: bought },
                Seq::empty(),
            ),
            None => None,
        }
    }

    /// A turn of the opening rounds: the purchase decided on is made, and
    /// nothing else happens.
    pub open spec fn after_buy_only_turn(self, decision: PurchaseDecision) -> GameView {
        self.with_purchase_decision(decision)
    }

    /// A turn after the opening rounds: roll, income, purchase.
    pub open spec fn after_normal_turn(self, roll: (u8, u8), answers: TurnAnswers) -> Option<GameView> {
        match self.after_roll_phase(roll, answers.gifts) {
            Some(rolled) => match rolled.after_income_phase(
                (roll.0 + roll.1) as u8,
                answers.exchanges,
            ) {
                Some(earned) => earned.after_buy_phase(answers.purchase),
                None => None,
            },
            None => None,
        }
    }

    /// One whole turn, and the turn passed on: the state that the faces
    /// rolled and the players' answers lead to, or `None` if a balance had no
    /// room for what it was to take in.
    #[verifier::opaque]
    pub open spec fn after_turn(self, roll: (u8, u8), answers: TurnAnswers) -> Option<GameView> {
        if self.is_buy_only_turn() {
            Some(self.after_buy_only_turn(answers.purchase).with_turn_advanced())
        } else {
            match self.after_normal_turn(roll, answers) {
                Some(played) => Some(played.with_turn_advanced()),
                None => None,
            }
        }
    }
}

impl GameView {
    /// The state after the first `count` turns of a match, played with the
    /// faces and the answers given for each turn.
    pub open spec fn after_turns(
        self,
        rolls: Seq<(u8, u8)>,
        answers: Seq<TurnAnswers>,
        count: int,
    ) -> Option<GameView>
        decreases count,
    {
        if count <= 0 {
            Some(self)
        } else {
            match self.after_turns(rolls, answers, count - 1) {
                Some(before) => before.after_turn(rolls[count - 1], answers[count - 1]),
                None => None,
            }
        }
    }

    /// A match was played out from this state with the faces and answers
    /// given, one turn for each: every turn started from a state without a
    /// winner, every roll was one that the dice decided on can show, and the
    /// turns led to `reached` or, where not all `went_well`, to a balance
    /// without room.
    pub open spec fn played_out(
        self,
        rolls: Seq<(u8, u8)>,
        answers: Seq<TurnAnswers>,
        reached: GameView,
        went_well: bool,
    ) -> bool {
        &&& rolls.len() == answers.len()
        &&& forall|k: int|
            0 <= k < rolls.len() ==> roll_matches((#[trigger] answers[k]).dice_roll, rolls[k])
        &&& forall|k: int|
            0 <= k < rolls.len() ==> still_open(#[trigger] self.after_turns(rolls, answers, k))
        &&& came_to(went_well, self.after_turns(rolls, answers, rolls.len() as int), reached)
    }
}

/// Appends to `out` the establishments of `hand` of colour `color` that fire
/// on `sum`, each paired with `owner`.
fn push_firing(
    hand: &Vec<OwnedCard>,
    color: CardColor,
    sum: u8,
    owner: usize,
    out: &mut Vec<(Card, usize)>,
)
    ensures
        final(out)@ == old(out)@ + firing(hand@, color, sum, owner),
{
    let ghost start = out@;
    let mut i: usize = 0;
    while i < hand.len()
        invariant
            i <= hand@.len(),
            out@ == start + firing(hand@.take(i as int), color, sum, owner),
        decreases hand.len() - i,
    {
        proof {
            lemma_firing_step(hand@, color, sum, owner, i as int);
        }
        let card: Card = hand[i].card;
        if card.def().color == color && card.activates_on(sum) {
            out.push((card, owner));
            assert(out@ =~= start + firing(hand@.take(i + 1), color, sum, owner));
        }
        i = i + 1;
    }
    proof {
        assert(hand@.take(hand@.len() as int) == hand@);
    }
}

impl Game {
    /// Whether players only buy in this round.
    pub fn is_buy_only_turn(&self) -> (buy_only: bool)
        requires
            self@.players.len() > 0,
        ensures
            buy_only == self@.is_buy_only_turn(),
    {
        self.get_round() < BUY_ONLY_TURNS
    }

    /// Writes down that the current player has rolled `dice_count` dice in
    /// this round.
    pub fn record_roll(&mut self, dice_count: u8)
        requires
            old(self)@.seated(),
        ensures
            final(self).wf(),
            final(self)@ == old(self)@.with_roll_recorded(dice_count),
    {
        let stamp: u8 = self.current_round_stamp();
        let roller: usize = self.current_player;
        self.players[roller].dice_rolls.push((dice_count, stamp));
        assert(self@.players =~= old(self)@.with_roll_recorded(dice_count).players);
    }

    /// The establishments that fire on a dice sum of `dice_roll_sum`, each
    /// with its owner's seat, in the order in which they fire.
    pub fn cards_to_activate(&self, dice_roll_sum: u8) -> (cards: Vec<(Card, usize)>)
        requires
            self@.seated(),
        ensures
            cards@ == self@.activation_order(dice_roll_sum),
            forall|k: int| 0 <= k < cards@.len() ==> (#[trigger] cards@[k]).1 < self@.players.len(),
    {
        let mut cards: Vec<(Card, usize)> = Vec::new();
        let count: usize = self.players.len();
        let current: usize = self.current_player;

        let others: Vec<usize> = self.other_players_reverse();
        let mut k: usize = 0;
        while k < others.len()
            invariant
                self@.seated(),
                others@ == self@.other_players_reverse(),
                forall|j: int| 0 <= j < others@.len() ==> (#[trigger] others@[j]) < self@.players.len(),
                k <= others@.len(),
                cards@ == firing_in_seats(
                    self@.players,
                    others@,
                    CardColor::Red,
                    dice_roll_sum,
                    k as int,
                ),
            decreases others.len() - k,
        {
            let seat: usize = others[k];
            push_firing(&self.players[seat].cards, CardColor::Red, dice_roll_sum, seat, &mut cards);
            k = k + 1;
        }
        let ghost reds = cards@;

        let mut seat: usize = 0;
        while seat < count
            invariant
                self@.seated(),
                count == self@.players.len(),
                seat <= count,
                cards@ == reds + firing_in_seats(
                    self@.players,
                    self@.all_seats(),
                    CardColor::Blue,
                    dice_roll_sum,
                    seat as int,
                ),
            decreases count - seat,
        {
            let ghost before = cards@;
            push_firing(&self.players[seat].cards, CardColor::Blue, dice_roll_sum, seat, &mut cards);
            proof {
                assert(self@.all_seats()[seat as int] == seat);
                let blues = firing_in_seats(
                    self@.players,
                    self@.all_seats(),
                    CardColor::Blue,
                    dice_roll_sum,
                    seat as int,
                );
                let more = firing(self@.players[seat as int].cards, CardColor::Blue, dice_roll_sum, seat);
                assert((reds + blues) + more =~= reds + (blues + more));
            }
            seat = seat + 1;
        }

        push_firing(&self.players[current].cards, CardColor::Green, dice_roll_sum, current, &mut cards);
        push_firing(&self.players[current].cards, CardColor::Purple, dice_roll_sum, current, &mut cards);
        proof {
            lemma_activation_order_owners(self@, dice_roll_sum);
        }
        cards
    }

    /// At the start of the buy phase the bank gives one coin to a current
    /// player who has none.
    pub fn grant_coin_if_broke(&mut self) -> (granted: bool)
        requires
            old(self)@.seated(),
        ensures
            final(self).wf(),
            granted == (old(self)@.current().coins == 0),
            final(self)@ == old(self)@.with_broke_grant(),
            final(self)@.current().coins == if old(self)@.current().coins == 0 {
                1
            } else {
                old(self)@.current().coins
            },
    {
        let buyer: usize = self.current_player;
        if self.players[buyer].coins == 0 {
            let granted = self.get_coins_from_bank(buyer, BROKE_GRANT);
            granted.is_ok()
        } else {
            false
        }
    }

    /// Carries out a purchase decision of the current player. One that cannot
    /// be carried out counts as a decision to buy nothing. Returns whether
    /// something was bought.
    pub fn apply_purchase(&mut self, decision: PurchaseDecision) -> (bought: bool)
        requires
            old(self)@.seated(),
        ensures
            final(self).wf(),
            bought == old(self)@.purchase_is_valid(decision),
            final(self)@ == old(self)@.with_purchase_decision(decision),
    {
        match decision {
            PurchaseDecision::BuyCard(card) => self.buy_card(card).is_ok(),
            PurchaseDecision::BuyLandmark(landmark) => self.buy_landmark(landmark).is_ok(),
            PurchaseDecision::BuyNothing => false,
        }
    }
}

} // verus!
