use crate::game::is_opening;
use crate::game::Game;
use crate::game::GameView;
use crate::game::MAX_PLAYERS;
use crate::game::MIN_PLAYERS;
use crate::models::card::Card;
use crate::models::landmark::Landmark;
use crate::models::landmark::LandmarkHook;
use crate::models::player::PlayerView;
use crate::player_strategies::player_strategy::DiceRollDecision;
use crate::player_strategies::player_strategy::ExchangeEstablishmentDecision;
use crate::player_strategies::player_strategy::GiveEstablishmentDecision;
use crate::player_strategies::player_strategy::PlayerStrategy;
use crate::player_strategies::player_strategy::PurchaseDecision;
use crate::rules::card::activate_card;
use crate::rules::game_helpers::CoinOverflow;
use crate::rules::landmark::activate_landmark;
use crate::rules::landmark::on_after_card_activation;
use crate::rules::landmark::on_dice_roll;
use crate::rules::landmark::on_turn_end;
use crate::turn::came_to;
use crate::turn::dice_thrown;
use crate::turn_laws::lemma_activations_outcome_reads_prefix;
use crate::turn_laws::lemma_after_turns_step;
use crate::turn_laws::lemma_activations_outcome_stays_none;
use crate::turn_laws::lemma_hooks_outcome_reads_prefix;
use crate::turn_laws::lemma_hooks_outcome_stays_none;
use crate::turn_laws::lemma_turn_keeps_the_cache_current;
use crate::turn::roll_matches;
use crate::turn::still_open;
use crate::turn::HookEvent;
use crate::turn::TurnAnswers;
use vstd::prelude::*;

verus! {

/// Why a match could not be started or played to its end.
#[derive(Clone, Copy, Debug, PartialEq, Eq, Structural)]
pub enum EngineError {
    /// Fewer than two players, or a fifth one.
    InvalidPlayerCount,
    /// A balance had no room for the coins it was to take in.
    CoinOverflow,
    /// The turns allowed were played and nobody has won.
    NoWinner,
}

/// Every balance had room for what it was to take in.
pub open spec fn had_room(result: Result<usize, EngineError>) -> bool {
    result != Err::<usize, EngineError>(EngineError::CoinOverflow)
}

/// A match: the state of the game and one decision maker for each seat.
pub struct Engine {
    pub game: Game,
    pub player_strategies: Vec<Box<dyn PlayerStrategy>>,
}

impl Engine {
    /// The state is well formed and every seat has its decision maker.
    pub open spec fn wf(&self) -> bool {
        &&& self.game.wf()
        &&& self.player_strategies@.len() == self.game@.players.len()
    }

    /// The match can be played: it is well formed and has at least two
    /// players.
    pub open spec fn ready(&self) -> bool {
        &&& self.wf()
        &&& self.game@.players.len() >= MIN_PLAYERS
    }

    /// A match without players, on a game shuffled from system entropy.
    pub fn new() -> (engine: Engine)
        ensures
            engine.wf(),
            engine.game@.cache_is_current(),
            engine.game@.players.len() == 0,
            engine.game@.current_turn == 0,
            is_opening(engine.game@),
            engine.player_strategies@.len() == 0,
    {
        Engine { game: Game::new(None), player_strategies: Vec::new() }
    }

    /// A match without players, on a game shuffled from `seed`.
    pub fn new_with_seed(seed: u64) -> (engine: Engine)
        ensures
            engine.wf(),
            engine.game@.cache_is_current(),
            engine.game@.seed == seed,
            engine.game@.players.len() == 0,
            engine.game@.current_turn == 0,
            is_opening(engine.game@),
            engine.player_strategies@.len() == 0,
    {
        Engine { game: Game::new(Some(seed)), player_strategies: Vec::new() }
    }

    /// Seats one more player, with `strategy` to decide for that seat. A fifth
    /// player is refused.
    pub fn add_player_strategy(&mut self, strategy: Box<dyn PlayerStrategy>) -> (result: Result<
        (),
        EngineError,
    >)
        requires
            old(self).wf(),
        ensures
            final(self).wf(),
            result is Ok <==> old(self).game@.players.len() < MAX_PLAYERS,
            result is Ok ==> final(self).game@ == old(self).game@.with_players(
                old(self).game@.players.push(PlayerView::starting()),
            ),
            result is Err ==> final(self).game@ == old(self).game@ && result == Err::<
                (),
                EngineError,
            >(EngineError::InvalidPlayerCount),
            old(self).game@.cache_is_current() ==> final(self).game@.cache_is_current(),
    {
        if self.game.add_player() {
            let ghost seated = self.player_strategies@;
            self.player_strategies.push(strategy);
            proof {
                vstd::seq::axiom_seq_push_len(seated, strategy);
            }
            Ok(())
        } else {
            Err(EngineError::InvalidPlayerCount)
        }
    }

    /// Plays turns until a player has won. The win condition is checked before
    /// the first turn and after every turn. Stops with an error if the table
    /// has fewer than two players, if a balance overflows, or if `max_turns`
    /// turns have been played without a winner.
    pub fn run(&mut self, max_turns: usize) -> (result: Result<usize, EngineError>)
        requires
            old(self).wf(),
        ensures
            final(self).wf(),
            final(self).game@.players.len() == old(self).game@.players.len(),
            result == Err::<usize, EngineError>(EngineError::InvalidPlayerCount)
                <==> old(self).game@.players.len() < MIN_PLAYERS,
            old(self).game@.players.len() < MIN_PLAYERS ==> final(self).game@ == old(self).game@,
            result matches Ok(winner) ==> final(self).game@.winner() == Some(winner as int),
            result == Err::<usize, EngineError>(EngineError::NoWinner) ==> final(self).game@.winner() is None,
            had_room(result) && old(self).game@.cache_is_current() ==> final(self).game@.cache_is_current(),
            old(self).game@.players.len() >= MIN_PLAYERS ==> exists|
                rolls: Seq<(u8, u8)>,
                answers: Seq<TurnAnswers>,
            |
                {
                    &&& rolls.len() <= max_turns
                    &&& #[trigger] old(self).game@.played_out(
                        rolls,
                        answers,
                        final(self).game@,
                        had_room(result),
                    )
                    &&& result == Err::<usize, EngineError>(EngineError::NoWinner) ==> rolls.len()
                        == max_turns || final(self).game@.current_turn == usize::MAX
                },
    {
        if self.player_strategies.len() < MIN_PLAYERS {
            return Err(EngineError::InvalidPlayerCount);
        }
        let ghost start = self.game@;
        let ghost mut rolls: Seq<(u8, u8)> = Seq::empty();
        let ghost mut answers: Seq<TurnAnswers> = Seq::empty();
        let mut played: usize = 0;
        loop
            invariant
                self.ready(),
                start == old(self).game@,
                self.game@.players.len() == start.players.len(),
                played <= max_turns,
                rolls.len() == played,
                answers.len() == played,
                forall|k: int|
                    0 <= k < played ==> roll_matches((#[trigger] answers[k]).dice_roll, rolls[k]),
                forall|k: int|
                    0 <= k < played ==> still_open(#[trigger] start.after_turns(rolls, answers, k)),
                start.after_turns(rolls, answers, played as int) == Some(self.game@),
                start.cache_is_current() ==> self.game@.cache_is_current(),
            decreases max_turns - played,
        {
            match self.game.winner() {
                Some(winner) => {
                    let won: Result<usize, EngineError> = Ok(winner);
                    proof {
                        assert(start.played_out(rolls, answers, self.game@, had_room(won)));
                    }
                    return won;
                },
                None => {},
            }
            if played >= max_turns || self.game.current_turn == usize::MAX {
                let open: Result<usize, EngineError> = Err(EngineError::NoWinner);
                proof {
                    assert(start.played_out(rolls, answers, self.game@, had_room(open)));
                }
                return open;
            }
            let ghost before = self.game@;
            let ghost earlier_rolls = rolls;
            let ghost earlier_answers = answers;
            let turn = self.play_turn();
            proof {
                let (roll, answer) = choose|roll: (u8, u8), answer: TurnAnswers|
                    {
                        &&& roll_matches(answer.dice_roll, roll)
                        &&& came_to(turn is Ok, #[trigger] before.after_turn(roll, answer), self.game@)
                    };
                rolls = earlier_rolls.push(roll);
                answers = earlier_answers.push(answer);
                lemma_after_turns_step(start, earlier_rolls, earlier_answers, roll, answer, before);
            }
            match turn {
                Ok(()) => {},
                Err(error) => {
                    let failed: Result<usize, EngineError> = Err(error);
                    proof {
                        assert(start.played_out(rolls, answers, self.game@, had_room(failed)));
                    }
                    return failed;
                },
            }
            played = played + 1;
        }
    }

    /// Plays one turn and passes the turn on: a turn of purchase only in the
    /// opening rounds, a turn of roll, income and purchase after them. What
    /// the turn leads to is fixed by the faces rolled and the answers of the
    /// decision makers.
    pub fn play_turn(&mut self) -> (result: Result<(), EngineError>)
        requires
            old(self).ready(),
            old(self).game@.current_turn < usize::MAX,
        ensures
            final(self).ready(),
            final(self).game@.players.len() == old(self).game@.players.len(),
            result is Err ==> result == Err::<(), EngineError>(EngineError::CoinOverflow),
            result is Err ==> final(self).game@.current_turn == old(self).game@.current_turn,
            result is Err ==> final(self).game@.current_player == old(self).game@.current_player,
            result is Ok && old(self).game@.cache_is_current() ==> final(self).game@.cache_is_current(),
            exists|roll: (u8, u8), answers: TurnAnswers|
                {
                    &&& roll_matches(answers.dice_roll, roll)
                    &&& came_to(
                        result is Ok,
                        #[trigger] old(self).game@.after_turn(roll, answers),
                        final(self).game@,
                    )
                },
    {
        let ghost start = self.game@;
        proof {
            reveal(GameView::after_turn);
        }
        if self.game.is_buy_only_turn() {
            self.play_buy_only_turn();
            let ghost purchase = choose|purchase: PurchaseDecision|
                self.game@ == start.after_buy_only_turn(purchase);
            self.game.advance_turn();
            proof {
                let answers = TurnAnswers {
                    dice_roll: DiceRollDecision::RollOne,
                    gifts: Seq::empty(),
                    exchanges: Seq::empty(),
                    purchase,
                };
                let roll = (1u8, 0u8);
                assert(roll_matches(answers.dice_roll, roll));
                assert(start.after_turn(roll, answers) == Some(self.game@));
                if start.cache_is_current() {
                    lemma_turn_keeps_the_cache_current(start, roll, answers);
                }
            }
            Ok(())
        } else {
            let played = self.play_normal_turn();
            let ghost (roll, answers) = choose|roll: (u8, u8), answers: TurnAnswers|
                {
                    &&& roll_matches(answers.dice_roll, roll)
                    &&& came_to(
                        played is Ok,
                        #[trigger] start.after_normal_turn(roll, answers),
                        self.game@,
                    )
                };
            match played {
                Ok(()) => {
                    self.game.advance_turn();
                    proof {
                        assert(start.after_turn(roll, answers) == Some(self.game@));
                        if start.cache_is_current() {
                            lemma_turn_keeps_the_cache_current(start, roll, answers);
                        }
                    }
                    Ok(())
                },
                Err(_) => {
                    proof {
                        assert(start.after_turn(roll, answers) is None);
                    }
                    Err(EngineError::CoinOverflow)
                },
            }
        }
    }

    /// A turn of the opening rounds: the current player buys, and nothing is
    /// triggered.
    fn play_buy_only_turn(&mut self)
        requires
            old(self).ready(),
        ensures
            final(self).ready(),
            final(self).game@.players.len() == old(self).game@.players.len(),
            final(self).game@.current_turn == old(self).game@.current_turn,
            final(self).game@.current_player == old(self).game@.current_player,
            exists|purchase: PurchaseDecision|
                final(self).game@ == #[trigger] old(self).game@.after_buy_only_turn(purchase),
    {
        let current: usize = self.game.current_player;
        let decision: PurchaseDecision = self.player_strategies[current].decide_purchase(&self.game);
        self.game.apply_purchase(decision);
        assert(self.game@ == old(self).game@.after_buy_only_turn(decision));
    }

    /// A turn after the opening rounds: roll, income, purchase.
    fn play_normal_turn(&mut self) -> (result: Result<(), CoinOverflow>)
        requires
            old(self).ready(),
        ensures
            final(self).ready(),
            final(self).game@.players.len() == old(self).game@.players.len(),
            final(self).game@.current_turn == old(self).game@.current_turn,
            final(self).game@.current_player == old(self).game@.current_player,
            exists|roll: (u8, u8), answers: TurnAnswers|
                {
                    &&& roll_matches(answers.dice_roll, roll)
                    &&& came_to(
                        result is Ok,
                        #[trigger] old(self).game@.after_normal_turn(roll, answers),
                        final(self).game@,
                    )
                },
    {
        let ghost start = self.game@;
        let rolled = self.roll_dice_phase();
        let ghost (decision, roll, gifts) = choose|
            decision: DiceRollDecision,
            roll: (u8, u8),
            gifts: Seq<GiveEstablishmentDecision>,
        |
            #![trigger roll_matches(decision, roll), start.after_roll_phase(roll, gifts)]
            {
                &&& roll_matches(decision, roll)
                &&& rolled matches Ok(sum) ==> sum == roll.0 + roll.1
                &&& came_to(rolled is Ok, start.after_roll_phase(roll, gifts), self.game@)
            };
        let dice_roll_sum: u8 = match rolled {
            Ok(sum) => sum,
            Err(error) => {
                proof {
                    let answers = TurnAnswers {
                        dice_roll: decision,
                        gifts,
                        exchanges: Seq::empty(),
                        purchase: PurchaseDecision::BuyNothing,
                    };
                    assert(start.after_normal_turn(roll, answers) is None);
                }
                return Err(error);
            },
        };
        let ghost after_roll = self.game@;
        let earned = self.earn_income_phase(dice_roll_sum);
        let ghost exchanges = choose|exchanges: Seq<ExchangeEstablishmentDecision>|
            came_to(
                earned is Ok,
                #[trigger] after_roll.after_income_phase(dice_roll_sum, exchanges),
                self.game@,
            );
        match earned {
            Ok(()) => {},
            Err(error) => {
                proof {
                    let answers = TurnAnswers {
                        dice_roll: decision,
                        gifts,
                        exchanges,
                        purchase: PurchaseDecision::BuyNothing,
                    };
                    assert(start.after_normal_turn(roll, answers) is None);
                }
                return Err(error);
            },
        }
        let ghost after_income = self.game@;
        let bought = self.buy_phase();
        proof {
            let purchase = choose|purchase: PurchaseDecision|
                came_to(bought is Ok, #[trigger] after_income.after_buy_phase(purchase), self.game@);
            let answers = TurnAnswers { dice_roll: decision, gifts, exchanges, purchase };
            assert(roll_matches(answers.dice_roll, roll));
            assert(came_to(bought is Ok, start.after_normal_turn(roll, answers), self.game@));
        }
        bought
    }

    /// Every active landmark has its chance at `event`, in the order of the
    /// cache. A landmark is polled if it takes part in the hook of that event
    /// and the current player has built it.
    fn poll_landmarks(&mut self, event: HookEvent) -> (result: Result<(), CoinOverflow>)
        requires
            old(self).ready(),
        ensures
            final(self).ready(),
            final(self).game@.players.len() == old(self).game@.players.len(),
            final(self).game@.current_turn == old(self).game@.current_turn,
            final(self).game@.current_player == old(self).game@.current_player,
            exists|gifts: Seq<GiveEstablishmentDecision>|
                came_to(
                    result is Ok,
                    #[trigger] old(self).game@.after_hooks(event, gifts),
                    final(self).game@,
                ),
            !(event is DiceRolled) ==> came_to(
                result is Ok,
                old(self).game@.after_hooks(event, Seq::empty()),
                final(self).game@,
            ),
    {
        let ghost start = self.game@;
        let ghost mut gifts: Seq<GiveEstablishmentDecision> = Seq::empty();
        let count: usize = self.game.active_landmarks.len();
        let owner: usize = self.game.current_player;
        let mut i: usize = 0;
        while i < count
            invariant
                self.ready(),
                start == old(self).game@,
                count == start.active_landmarks.len(),
                self.game@.active_landmarks == start.active_landmarks,
                self.game@.current_player == owner,
                owner == start.current_player,
                self.game@.players.len() == start.players.len(),
                self.game@.current_turn == start.current_turn,
                i <= count,
                gifts.len() == i,
                start.hooks_outcome(event, gifts, i as int) == Some(self.game@),
                !(event is DiceRolled) ==> start.hooks_outcome(event, Seq::empty(), i as int) == Some(
                    self.game@,
                ),
            decreases count - i,
        {
            let landmark: Landmark = self.game.active_landmarks[i];
            let ghost before = self.game@;
            let ghost mut gift = GiveEstablishmentDecision::NoGive;
            let ghost earlier = gifts;
            if landmark.hook() == event.hook() && self.game.players[owner].owns_landmark(landmark) {
                let polled = match event {
                    HookEvent::DiceRolled { roll } => {
                        let polled = on_dice_roll(
                            landmark,
                            &mut self.game,
                            owner,
                            roll,
                            &mut *self.player_strategies[owner],
                        );
                        proof {
                            if polled is Ok {
                                gift = choose|gift: GiveEstablishmentDecision|
                                    self.game@ == #[trigger] before.with_dice_roll_hook(
                                        landmark,
                                        owner as int,
                                        roll,
                                        gift,
                                    );
                            }
                        }
                        polled
                    },
                    HookEvent::CardsActivated { coins_received } => on_after_card_activation(
                        landmark,
                        &mut self.game,
                        owner,
                        coins_received,
                    ),
                    HookEvent::TurnEnded { built_something } => on_turn_end(
                        landmark,
                        &mut self.game,
                        owner,
                        built_something,
                    ),
                };
                proof {
                    gifts = earlier.push(gift);
                    lemma_hooks_outcome_reads_prefix(start, event, earlier, gifts, i as int);
                    assert(before.hook_applies(landmark, event));
                }
                if polled.is_err() {
                    proof {
                        assert(start.hooks_outcome(event, gifts, i + 1) is None);
                        lemma_hooks_outcome_stays_none(start, event, gifts, i + 1, count as int);
                        if !(event is DiceRolled) {
                            assert(start.hooks_outcome(event, Seq::empty(), i + 1) is None);
                            lemma_hooks_outcome_stays_none(
                                start,
                                event,
                                Seq::empty(),
                                i + 1,
                                count as int,
                            );
                        }
                        assert(came_to(false, start.after_hooks(event, gifts), self.game@));
                    }
                    return Err(CoinOverflow);
                }
                assert(start.hooks_outcome(event, gifts, i + 1) == Some(self.game@));
            } else {
                proof {
                    gifts = earlier.push(gift);
                    lemma_hooks_outcome_reads_prefix(start, event, earlier, gifts, i as int);
                    assert(!before.hook_applies(landmark, event));
                }
            }
            i = i + 1;
        }
        proof {
            assert(came_to(true, start.after_hooks(event, gifts), self.game@));
        }
        Ok(())
    }

    /// The roll phase: the current player chooses to roll one die or two, the
    /// roll is written down, and the active landmarks are polled. Returns the
    /// sum of the faces.
    fn roll_dice_phase(&mut self) -> (result: Result<u8, CoinOverflow>)
        requires
            old(self).ready(),
        ensures
            final(self).ready(),
            final(self).game@.players.len() == old(self).game@.players.len(),
            final(self).game@.current_turn == old(self).game@.current_turn,
            final(self).game@.current_player == old(self).game@.current_player,
            exists|decision: DiceRollDecision, roll: (u8, u8), gifts: Seq<GiveEstablishmentDecision>|
                #![trigger roll_matches(decision, roll), old(self).game@.after_roll_phase(roll, gifts)]
                {
                    &&& roll_matches(decision, roll)
                    &&& result matches Ok(sum) ==> sum == roll.0 + roll.1
                    &&& came_to(
                        result is Ok,
                        old(self).game@.after_roll_phase(roll, gifts),
                        final(self).game@,
                    )
                },
    {
        let ghost start = self.game@;
        let current_player: usize = self.game.current_player;
        let decision: DiceRollDecision = self.player_strategies[current_player].decide_dice_roll(
            &self.game,
        );
        let dice_roll: (u8, u8) = match decision {
            DiceRollDecision::RollOne => (self.game.roll_one_die(), 0),
            DiceRollDecision::RollTwo => self.game.roll_two_dice(),
        };
        let dice_count: u8 = match decision {
            DiceRollDecision::RollOne => 1,
            DiceRollDecision::RollTwo => 2,
        };
        self.game.record_roll(dice_count);
        let ghost recorded = self.game@;
        let polled = self.poll_landmarks(HookEvent::DiceRolled { roll: dice_roll });
        proof {
            let gifts = choose|gifts: Seq<GiveEstablishmentDecision>|
                came_to(
                    polled is Ok,
                    #[trigger] recorded.after_hooks(HookEvent::DiceRolled { roll: dice_roll }, gifts),
                    self.game@,
                );
            assert(roll_matches(decision, dice_roll));
            assert(recorded == start.with_roll_recorded(dice_thrown(dice_roll)));
            assert(came_to(polled is Ok, start.after_roll_phase(dice_roll, gifts), self.game@));
        }
        match polled {
            Ok(()) => Ok(dice_roll.0 + dice_roll.1),
            Err(error) => Err(error),
        }
    }

    /// The income phase: the establishments that fire on `dice_roll_sum` are
    /// collected from the state as it stands and then fire in that order, each
    /// for its owner; the active landmarks are then polled and told whether
    /// the current player's balance rose with any establishment.
    pub fn earn_income_phase(&mut self, dice_roll_sum: u8) -> (result: Result<(), CoinOverflow>)
        requires
            old(self).ready(),
        ensures
            final(self).ready(),
            final(self).game@.players.len() == old(self).game@.players.len(),
            final(self).game@.current_turn == old(self).game@.current_turn,
            final(self).game@.current_player == old(self).game@.current_player,
            exists|exchanges: Seq<ExchangeEstablishmentDecision>|
                came_to(
                    result is Ok,
                    #[trigger] old(self).game@.after_income_phase(dice_roll_sum, exchanges),
                    final(self).game@,
                ),
    {
        let ghost start = self.game@;
        let cards_to_activate: Vec<(Card, usize)> = self.game.cards_to_activate(dice_roll_sum);
        let current: usize = self.game.current_player;
        let ghost mut exchanges: Seq<ExchangeEstablishmentDecision> = Seq::empty();
        let mut coins_received: bool = false;
        let mut i: usize = 0;
        while i < cards_to_activate.len()
            invariant
                self.ready(),
                start == old(self).game@,
                cards_to_activate@ == start.activation_order(dice_roll_sum),
                forall|k: int|
                    0 <= k < cards_to_activate@.len() ==> (#[trigger] cards_to_activate@[k]).1
                        < start.players.len(),
                self.game@.current_player == current,
                current == start.current_player,
                self.game@.players.len() == start.players.len(),
                self.game@.current_turn == start.current_turn,
                i <= cards_to_activate@.len(),
                exchanges.len() == i,
                start.activations_outcome(cards_to_activate@, exchanges, i as int) == Some(
                    (self.game@, coins_received),
                ),
            decreases cards_to_activate.len() - i,
        {
            let (card, player_index) = cards_to_activate[i];
            let ghost before = self.game@;
            let ghost earlier = exchanges;
            let coins_before: u16 = self.game.players[current].coins;
            let activated = activate_card(
                card,
                &mut self.game,
                player_index,
                &mut *self.player_strategies[player_index],
            );
            proof {
                let exchange = if activated is Ok {
                    choose|exchange: ExchangeEstablishmentDecision|
                        self.game@ == #[trigger] before.with_card_effect(
                            card,
                            player_index as int,
                            exchange,
                        )
                } else {
                    ExchangeEstablishmentDecision::NoExchange
                };
                exchanges = earlier.push(exchange);
                lemma_activations_outcome_reads_prefix(
                    start,
                    cards_to_activate@,
                    earlier,
                    exchanges,
                    i as int,
                );
            }
            if activated.is_err() {
                proof {
                    assert(start.activations_outcome(cards_to_activate@, exchanges, i + 1) is None);
                    lemma_activations_outcome_stays_none(
                        start,
                        cards_to_activate@,
                        exchanges,
                        i + 1,
                        cards_to_activate@.len() as int,
                    );
                    assert(start.after_income_phase(dice_roll_sum, exchanges) is None);
                }
                return Err(CoinOverflow);
            }
            coins_received = coins_received || coins_before < self.game.players[current].coins;
            i = i + 1;
        }
        let ghost fired = self.game@;
        let polled = self.poll_landmarks(HookEvent::CardsActivated { coins_received });
        proof {
            assert(came_to(
                polled is Ok,
                start.after_income_phase(dice_roll_sum, exchanges),
                self.game@,
            ));
        }
        polled
    }

    /// The buy phase: a current player without coins is given one by the bank;
    /// the player decides what to buy and buys it; a landmark that acts at
    /// build time acts; the active landmarks are polled and told whether
    /// something was bought.
    fn buy_phase(&mut self) -> (result: Result<(), CoinOverflow>)
        requires
            old(self).ready(),
        ensures
            final(self).ready(),
            final(self).game@.players.len() == old(self).game@.players.len(),
            final(self).game@.current_turn == old(self).game@.current_turn,
            final(self).game@.current_player == old(self).game@.current_player,
            exists|purchase: PurchaseDecision|
                came_to(
                    result is Ok,
                    #[trigger] old(self).game@.after_buy_phase(purchase),
                    final(self).game@,
                ),
    {
        let ghost start = self.game@;
        self.game.grant_coin_if_broke();
        let current: usize = self.game.current_player;
        let decision: PurchaseDecision = self.player_strategies[current].decide_purchase(&self.game);
        let built_something_this_turn: bool = self.game.apply_purchase(decision);
        match decision {
            PurchaseDecision::BuyLandmark(landmark) => {
                if built_something_this_turn && landmark.hook() == LandmarkHook::Activation {
                    let activated = activate_landmark(landmark, &mut self.game, current);
                    if activated.is_err() {
                        proof {
                            assert(start.after_buy_phase(decision) is None);
                        }
                        return Err(CoinOverflow);
                    }
                }
            },
            _ => {},
        }
        let polled = self.poll_landmarks(
            HookEvent::TurnEnded { built_something: built_something_this_turn },
        );
        proof {
            assert(came_to(polled is Ok, start.after_buy_phase(decision), self.game@));
        }
        polled
    }
}

} // verus!
