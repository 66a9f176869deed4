use crate::game::first_winner;
use crate::game::lemma_building_keeps_the_cache_current;
use crate::game::lemma_first_winner;
use crate::game::round_stamp;
use crate::game::Game;
use crate::game::GameView;
use crate::models::card::Card;
use crate::models::card::CardColor;
use crate::models::landmark::Landmark;
use crate::models::landmark::LandmarkType;
use crate::models::player::OwnedCard;
use crate::models::player::OwnedLandmark;
use crate::models::player::PlayerView;
use crate::player_strategies::player_strategy::ExchangeEstablishmentDecision;
use crate::player_strategies::player_strategy::GiveEstablishmentDecision;
use crate::player_strategies::player_strategy::PurchaseDecision;
use crate::rules::game_helpers::lemma_seat_to_the_right;
use crate::turn::dice_thrown;
use crate::turn::firing;
use crate::turn::firing_in_seats;
use crate::turn::HookEvent;
use crate::turn::TurnAnswers;
use vstd::prelude::*;

verus! {

/// The turns played up to a position see only the faces and answers up to
/// that position.
proof fn lemma_after_turns_reads_prefix(
    game: GameView,
    rolls: Seq<(u8, u8)>,
    answers: Seq<TurnAnswers>,
    more_rolls: Seq<(u8, u8)>,
    more_answers: Seq<TurnAnswers>,
    count: int,
)
    requires
        forall|k: int| 0 <= k < count ==> rolls[k] == more_rolls[k] && answers[k] == more_answers[k],
    ensures
        game.after_turns(rolls, answers, count) == game.after_turns(more_rolls, more_answers, count),
    decreases count,
{
    if count > 0 {
        lemma_after_turns_reads_prefix(game, rolls, answers, more_rolls, more_answers, count - 1);
    }
}

/// One more turn: the turns played before it are as they were, and the turn
/// itself starts from the state that they led to.
pub(crate) proof fn lemma_after_turns_step(
    game: GameView,
    rolls: Seq<(u8, u8)>,
    answers: Seq<TurnAnswers>,
    roll: (u8, u8),
    answer: TurnAnswers,
    before: GameView,
)
    requires
        rolls.len() == answers.len(),
        game.after_turns(rolls, answers, rolls.len() as int) == Some(before),
    ensures
        game.after_turns(rolls.push(roll), answers.push(answer), rolls.len() as int + 1)
            == before.after_turn(roll, answer),
        forall|k: int|
            0 <= k <= rolls.len() ==> #[trigger] game.after_turns(
                rolls.push(roll),
                answers.push(answer),
                k,
            ) == game.after_turns(rolls, answers, k),
{
    let more_rolls = rolls.push(roll);
    let more_answers = answers.push(answer);
    assert forall|k: int| 0 <= k <= rolls.len() implies #[trigger] game.after_turns(
        more_rolls,
        more_answers,
        k,
    ) == game.after_turns(rolls, answers, k) by {
        lemma_after_turns_reads_prefix(game, more_rolls, more_answers, rolls, answers, k);
    }
    let count = rolls.len() as int;
    assert(more_rolls[count] == roll);
    assert(more_answers[count] == answer);
    assert(game.after_turns(more_rolls, more_answers, count) == Some(before));
    assert(game.after_turns(more_rolls, more_answers, count + 1) == before.after_turn(
        more_rolls[count],
        more_answers[count],
    ));
}

/// Determinism: two states that are equal but for the random generator, with
/// the same faces rolled and the same answers given, are equal after the
/// turn. The generator's state enters a turn through the faces alone.
pub proof fn lemma_turn_is_deterministic(
    first: Game,
    second: Game,
    roll: (u8, u8),
    answers: TurnAnswers,
)
    requires
        first@ == second@,
    ensures
        first@.after_turn(roll, answers) == second@.after_turn(roll, answers),
        first@.winner() == second@.winner(),
        forall|rolls: Seq<(u8, u8)>, all_answers: Seq<TurnAnswers>, count: int|
            #[trigger] first@.after_turns(rolls, all_answers, count) == second@.after_turns(
                rolls,
                all_answers,
                count,
            ),
{
}

/// The two states have the same players in the same seats, each with the same
/// landmarks, the same current player and the same active landmarks.
pub open spec fn same_landmarks(first: GameView, second: GameView) -> bool {
    &&& first.players.len() == second.players.len()
    &&& first.current_player == second.current_player
    &&& first.active_landmarks == second.active_landmarks
    &&& forall|i: int|
        0 <= i < first.players.len() ==> (#[trigger] first.players[i]).landmarks
            == second.players[i].landmarks
}

/// A cache that is current stays so while nothing is built.
proof fn lemma_same_landmarks_keep_the_cache_current(first: GameView, second: GameView)
    requires
        first.players.len() == second.players.len(),
        first.active_landmarks == second.active_landmarks,
        forall|i: int|
            0 <= i < first.players.len() ==> (#[trigger] first.players[i]).landmarks
                == second.players[i].landmarks,
        first.cache_is_current(),
    ensures
        second.cache_is_current(),
{
    assert forall|landmark: Landmark| #[trigger]
        second.active_landmarks.contains(landmark) <==> (landmark.spec_def().landmark_type
            == LandmarkType::Infinite && second.somebody_owns(landmark)) by {
        if first.somebody_owns(landmark) {
            let i = choose|i: int|
                0 <= i < first.players.len() && (#[trigger] first.players[i]).owns_landmark(landmark);
            assert(second.players[i].landmarks == first.players[i].landmarks);
            assert(second.players[i].owns_landmark(landmark));
        }
        if second.somebody_owns(landmark) {
            let i = choose|i: int|
                0 <= i < second.players.len() && (#[trigger] second.players[i]).owns_landmark(
                    landmark,
                );
            assert(second.players[i].landmarks == first.players[i].landmarks);
            assert(first.players[i].owns_landmark(landmark));
        }
    }
}

/// Every seat named in the activation order is a seat at the table.
pub(crate) proof fn lemma_activation_order_owners(game: GameView, sum: u8)
    requires
        0 <= game.current_player < game.players.len(),
        game.players.len() <= usize::MAX,
    ensures
        forall|k: int|
            0 <= k < game.activation_order(sum).len() ==> (#[trigger] game.activation_order(sum)[k]).1
                < game.players.len(),
{
    let seats = game.players.len() as int;
    let current = game.current_player as usize;
    let reds = firing_in_seats(game.players, game.other_players_reverse(), CardColor::Red, sum, seats - 1);
    let blues = firing_in_seats(game.players, game.all_seats(), CardColor::Blue, sum, seats);
    let greens = firing(game.current().cards, CardColor::Green, sum, current);
    let purples = firing(game.current().cards, CardColor::Purple, sum, current);
    lemma_firing_in_seats_owners(
        game.players,
        game.other_players_reverse(),
        CardColor::Red,
        sum,
        seats - 1,
        seats,
    );
    lemma_firing_in_seats_owners(game.players, game.all_seats(), CardColor::Blue, sum, seats, seats);
    lemma_firing_members(game.current().cards, CardColor::Green, sum, current);
    lemma_firing_members(game.current().cards, CardColor::Purple, sum, current);
    let all = game.activation_order(sum);
    assert(all == reds + blues + greens + purples);
    assert forall|k: int| 0 <= k < all.len() implies (#[trigger] all[k]).1 < seats by {
        if k < reds.len() {
            assert(all[k] == reds[k]);
        } else if k < reds.len() + blues.len() {
            assert(all[k] == blues[k - reds.len()]);
        } else if k < reds.len() + blues.len() + greens.len() {
            assert(all[k] == greens[k - reds.len() - blues.len()]);
        } else {
            assert(all[k] == purples[k - reds.len() - blues.len() - greens.len()]);
        }
    }
}

/// An establishment that fires builds no landmark and takes none away.
proof fn lemma_activation_step_keeps_landmarks(
    game: GameView,
    activation: (Card, usize),
    exchange: ExchangeEstablishmentDecision,
)
    requires
        0 <= game.current_player < game.players.len(),
        activation.1 < game.players.len(),
        game.activation_step(activation, exchange) is Some,
    ensures
        same_landmarks(game, game.activation_step(activation, exchange).unwrap().0),
{
    let after = game.activation_step(activation, exchange).unwrap().0;
    assert forall|i: int| 0 <= i < game.players.len() implies (#[trigger] game.players[i]).landmarks
        == after.players[i].landmarks by {}
}

/// The establishments that fire build no landmark and take none away.
proof fn lemma_activations_keep_landmarks(
    game: GameView,
    activations: Seq<(Card, usize)>,
    exchanges: Seq<ExchangeEstablishmentDecision>,
    upto: int,
)
    requires
        0 <= game.current_player < game.players.len(),
        0 <= upto <= activations.len(),
        forall|k: int| 0 <= k < activations.len() ==> (#[trigger] activations[k]).1 < game.players.len(),
        game.activations_outcome(activations, exchanges, upto) is Some,
    ensures
        same_landmarks(game, game.activations_outcome(activations, exchanges, upto).unwrap().0),
    decreases upto,
{
    if upto > 0 {
        let before = game.activations_outcome(activations, exchanges, upto - 1).unwrap().0;
        lemma_activations_keep_landmarks(game, activations, exchanges, upto - 1);
        lemma_activation_step_keeps_landmarks(before, activations[upto - 1], exchanges[upto - 1]);
    }
}

/// A purchase keeps the cache of active landmarks current.
proof fn lemma_purchase_keeps_the_cache_current(game: GameView, decision: PurchaseDecision)
    requires
        0 <= game.current_player < game.players.len(),
        game.cache_is_current(),
    ensures
        game.with_purchase_decision(decision).cache_is_current(),
        game.with_purchase_decision(decision).players.len() == game.players.len(),
        game.with_purchase_decision(decision).current_player == game.current_player,
{
    let after = game.with_purchase_decision(decision);
    if game.purchase_is_valid(decision) {
        match decision {
            PurchaseDecision::BuyCard(card) => {
                assert forall|i: int| 0 <= i < game.players.len() implies (
                #[trigger] game.players[i]).landmarks == after.players[i].landmarks by {}
                lemma_same_landmarks_keep_the_cache_current(game, after);
            },
            PurchaseDecision::BuyLandmark(landmark) => {
                lemma_building_keeps_the_cache_current(game, landmark);
            },
            PurchaseDecision::BuyNothing => {},
        }
    }
}

/// The cache of active landmarks stays current through a whole turn: it is
/// brought up to date when a landmark is built, and nothing else builds a
/// landmark or takes one away.
pub proof fn lemma_turn_keeps_the_cache_current(game: GameView, roll: (u8, u8), answers: TurnAnswers)
    requires
        game.seated(),
        game.cache_is_current(),
        game.after_turn(roll, answers) is Some,
    ensures
        game.after_turn(roll, answers).unwrap().cache_is_current(),
{
    reveal(GameView::after_turn);
    let end = game.after_turn(roll, answers).unwrap();
    if game.is_buy_only_turn() {
        let bought = game.after_buy_only_turn(answers.purchase);
        lemma_purchase_keeps_the_cache_current(game, answers.purchase);
        lemma_same_landmarks_keep_the_cache_current(bought, end);
    } else {
        let recorded = game.with_roll_recorded(dice_thrown(roll));
        assert forall|i: int| 0 <= i < game.players.len() implies (#[trigger] game.players[i]).landmarks
            == recorded.players[i].landmarks by {}
        let rolled = game.after_roll_phase(roll, answers.gifts).unwrap();
        lemma_hooks_keep_landmarks(
            recorded,
            HookEvent::DiceRolled { roll },
            answers.gifts,
            recorded.active_landmarks.len() as int,
        );
        let sum = (roll.0 + roll.1) as u8;
        let activations = rolled.activation_order(sum);
        let (fired, coins_received) = rolled.activations_outcome(
            activations,
            answers.exchanges,
            activations.len() as int,
        ).unwrap();
        lemma_activation_order_owners(rolled, sum);
        lemma_activations_keep_landmarks(
            rolled,
            activations,
            answers.exchanges,
            activations.len() as int,
        );
        let earned = rolled.after_income_phase(sum, answers.exchanges).unwrap();
        lemma_hooks_keep_landmarks(
            fired,
            HookEvent::CardsActivated { coins_received },
            Seq::empty(),
            fired.active_landmarks.len() as int,
        );
        assert(same_landmarks(game, earned));
        lemma_same_landmarks_keep_the_cache_current(game, earned);
        let funded = earned.with_broke_grant();
        assert forall|i: int| 0 <= i < earned.players.len() implies (
        #[trigger] earned.players[i]).landmarks == funded.players[i].landmarks by {}
        lemma_same_landmarks_keep_the_cache_current(earned, funded);
        let bought = funded.purchase_is_valid(answers.purchase);
        let paid = funded.with_purchase_decision(answers.purchase);
        lemma_purchase_keeps_the_cache_current(funded, answers.purchase);
        let built = paid.after_build(answers.purchase, bought).unwrap();
        assert forall|i: int| 0 <= i < paid.players.len() implies (#[trigger] paid.players[i]).landmarks
            == built.players[i].landmarks by {}
        lemma_same_landmarks_keep_the_cache_current(paid, built);
        let polled = built.after_hooks(
            HookEvent::TurnEnded { built_something: bought },
            Seq::empty(),
        ).unwrap();
        lemma_hooks_keep_landmarks(
            built,
            HookEvent::TurnEnded { built_something: bought },
            Seq::empty(),
            built.active_landmarks.len() as int,
        );
        lemma_same_landmarks_keep_the_cache_current(built, polled);
        lemma_same_landmarks_keep_the_cache_current(polled, end);
    }
}

/// Polling a landmark builds none and takes none away.
proof fn lemma_hook_step_keeps_landmarks(
    game: GameView,
    landmark: Landmark,
    event: HookEvent,
    gift: GiveEstablishmentDecision,
)
    requires
        0 <= game.current_player < game.players.len(),
        game.hook_step(landmark, event, gift) is Some,
    ensures
        same_landmarks(game, game.hook_step(landmark, event, gift).unwrap()),
{
    let after = game.hook_step(landmark, event, gift).unwrap();
    if game.hook_applies(landmark, event) {
        lemma_seat_to_the_right(
            game.current_player,
            game.players.len() as int,
        );
        assert forall|i: int| 0 <= i < game.players.len() implies (
        #[trigger] game.players[i]).landmarks == after.players[i].landmarks by {}
    }
}

/// Polling the active landmarks builds no landmark and takes none away.
proof fn lemma_hooks_keep_landmarks(
    game: GameView,
    event: HookEvent,
    gifts: Seq<GiveEstablishmentDecision>,
    upto: int,
)
    requires
        0 <= game.current_player < game.players.len(),
        game.hooks_outcome(event, gifts, upto) is Some,
    ensures
        same_landmarks(game, game.hooks_outcome(event, gifts, upto).unwrap()),
    decreases upto,
{
    if upto > 0 {
        let before = game.hooks_outcome(event, gifts, upto - 1).unwrap();
        lemma_hooks_keep_landmarks(game, event, gifts, upto - 1);
        lemma_hook_step_keeps_landmarks(
            before,
            game.active_landmarks[upto - 1],
            event,
            gifts[upto - 1],
        );
    }
}

/// The win condition: a current player who builds a third landmark, or the
/// Launch Pad with however many landmarks, has won when the turn is over, and
/// the win check that follows the turn finds a winner. If nobody had won
/// before, that player is the winner found.
pub proof fn lemma_builder_wins(game: GameView, landmark: Landmark)
    requires
        game.seated(),
        game.with_broke_grant().purchase_is_valid(PurchaseDecision::BuyLandmark(landmark)),
        game.current().landmarks.len() == 2 || landmark == Landmark::LaunchPad,
        game.after_buy_phase(PurchaseDecision::BuyLandmark(landmark)) is Some,
    ensures
        ({
            let end = game.after_buy_phase(
                PurchaseDecision::BuyLandmark(landmark),
            ).unwrap().with_turn_advanced();
            &&& end.players.len() == game.players.len()
            &&& end.players[game.current_player].has_won()
            &&& end.winner() is Some
            &&& (forall|i: int| 0 <= i < game.players.len() ==> !(#[trigger] game.players[i]).has_won())
                ==> end.winner() == Some(game.current_player)
        }),
{
    let decision = PurchaseDecision::BuyLandmark(landmark);
    let seat = game.current_player;
    let funded = game.with_broke_grant();
    let bought = funded.with_purchase_decision(decision);
    assert(bought == funded.with_landmark_bought(landmark));
    let built = bought.after_build(decision, true).unwrap();
    let polled = built.after_hooks(HookEvent::TurnEnded { built_something: true }, Seq::empty()).unwrap();
    let end = polled.with_turn_advanced();
    let mine = bought.players[seat].landmarks;
    assert(mine == funded.players[seat].landmarks.push(
        OwnedLandmark {
            landmark,
            bought_round: round_stamp(funded.round()),
        },
    ));
    assert(mine[mine.len() - 1].landmark == landmark);
    assert(bought.players[seat].has_won());
    assert(same_landmarks(bought, built)) by {
        assert forall|i: int| 0 <= i < bought.players.len() implies (
        #[trigger] bought.players[i]).landmarks == built.players[i].landmarks by {}
    }
    lemma_hooks_keep_landmarks(
        built,
        HookEvent::TurnEnded { built_something: true },
        Seq::empty(),
        built.active_landmarks.len() as int,
    );
    assert(end.players == polled.players);
    assert(end.players[seat].landmarks == mine);
    assert(end.players[seat].has_won()) by {
        if landmark == Landmark::LaunchPad {
            assert(end.players[seat].landmarks[mine.len() - 1].landmark == Landmark::LaunchPad);
        }
    }
    lemma_first_winner(end.players, end.players.len() as int);
    if forall|i: int| 0 <= i < game.players.len() ==> !(#[trigger] game.players[i]).has_won() {
        let w = first_winner(end.players, end.players.len() as int);
        if w != seat {
            assert(end.players[w].has_won());
            assert(end.players[w].landmarks == game.players[w].landmarks) by {
                assert(funded.players[w].landmarks == game.players[w].landmarks);
                assert(bought.players[w].landmarks == funded.players[w].landmarks);
                assert(built.players[w].landmarks == bought.players[w].landmarks);
                assert(polled.players[w].landmarks == built.players[w].landmarks);
            }
            assert(game.players[w].has_won()) by {
                if end.players[w].owns_landmark(Landmark::LaunchPad) {
                    let k = choose|k: int|
                        0 <= k < end.players[w].landmarks.len() && (
                        #[trigger] end.players[w].landmarks[k]).landmark == Landmark::LaunchPad;
                    assert(game.players[w].landmarks[k].landmark == Landmark::LaunchPad);
                }
            }
        }
    }
}

/// An answer is read only where its question is asked: the landmarks polled
/// up to a position see only the gifts up to that position.
pub(crate) proof fn lemma_hooks_outcome_reads_prefix(
    game: GameView,
    event: HookEvent,
    gifts: Seq<GiveEstablishmentDecision>,
    others: Seq<GiveEstablishmentDecision>,
    upto: int,
)
    requires
        forall|k: int| 0 <= k < upto ==> gifts[k] == others[k],
    ensures
        game.hooks_outcome(event, gifts, upto) == game.hooks_outcome(event, others, upto),
    decreases upto,
{
    if upto > 0 {
        lemma_hooks_outcome_reads_prefix(game, event, gifts, others, upto - 1);
    }
}

/// An answer is read only where its question is asked: the establishments
/// fired up to a position see only the exchanges up to that position.
pub(crate) proof fn lemma_activations_outcome_reads_prefix(
    game: GameView,
    activations: Seq<(Card, usize)>,
    exchanges: Seq<ExchangeEstablishmentDecision>,
    others: Seq<ExchangeEstablishmentDecision>,
    upto: int,
)
    requires
        forall|k: int| 0 <= k < upto ==> exchanges[k] == others[k],
    ensures
        game.activations_outcome(activations, exchanges, upto) == game.activations_outcome(
            activations,
            others,
            upto,
        ),
    decreases upto,
{
    if upto > 0 {
        lemma_activations_outcome_reads_prefix(game, activations, exchanges, others, upto - 1);
    }
}

/// Once a balance has had no room, no later step mends it.
pub(crate) proof fn lemma_hooks_outcome_stays_none(
    game: GameView,
    event: HookEvent,
    gifts: Seq<GiveEstablishmentDecision>,
    at: int,
    upto: int,
)
    requires
        at <= upto,
        game.hooks_outcome(event, gifts, at) is None,
    ensures
        game.hooks_outcome(event, gifts, upto) is None,
    decreases upto,
{
    if at < upto {
        lemma_hooks_outcome_stays_none(game, event, gifts, at, upto - 1);
    }
}

/// Once a balance has had no room, no later establishment mends it.
pub(crate) proof fn lemma_activations_outcome_stays_none(
    game: GameView,
    activations: Seq<(Card, usize)>,
    exchanges: Seq<ExchangeEstablishmentDecision>,
    at: int,
    upto: int,
)
    requires
        at <= upto,
        game.activations_outcome(activations, exchanges, at) is None,
    ensures
        game.activations_outcome(activations, exchanges, upto) is None,
    decreases upto,
{
    if at < upto {
        lemma_activations_outcome_stays_none(game, activations, exchanges, at, upto - 1);
    }
}

/// The firing establishments of a hand with one more card at its end.
pub(crate) proof fn lemma_firing_step(hand: Seq<OwnedCard>, color: CardColor, sum: u8, owner: usize, i: int)
    requires
        0 <= i < hand.len(),
    ensures
        firing(hand.take(i + 1), color, sum, owner) == if hand[i].card.spec_def().color == color
            && hand[i].card.spec_activates_on(sum) {
            firing(hand.take(i), color, sum, owner).push((hand[i].card, owner))
        } else {
            firing(hand.take(i), color, sum, owner)
        },
{
    let next = hand.take(i + 1);
    assert(next.drop_last() == hand.take(i));
    assert(next.last() == hand[i]);
}

/// Every establishment that fires is of the colour asked for, fires on the
/// sum, lies in the hand, and is paired with the owner; and the firing
/// establishments are no more than the hand.
proof fn lemma_firing_members(hand: Seq<OwnedCard>, color: CardColor, sum: u8, owner: usize)
    ensures
        firing(hand, color, sum, owner).len() <= hand.len(),
        forall|k: int|
            0 <= k < firing(hand, color, sum, owner).len() ==> {
                let entry = #[trigger] firing(hand, color, sum, owner)[k];
                &&& entry.1 == owner
                &&& entry.0.spec_def().color == color
                &&& entry.0.spec_activates_on(sum)
                &&& exists|i: int| 0 <= i < hand.len() && (#[trigger] hand[i]).card == entry.0
            },
    decreases hand.len(),
{
    if hand.len() > 0 {
        let rest = hand.drop_last();
        lemma_firing_members(rest, color, sum, owner);
        let all = firing(hand, color, sum, owner);
        assert forall|k: int| 0 <= k < all.len() implies {
            let entry = #[trigger] all[k];
            &&& entry.1 == owner
            &&& entry.0.spec_def().color == color
            &&& entry.0.spec_activates_on(sum)
            &&& exists|i: int| 0 <= i < hand.len() && (#[trigger] hand[i]).card == entry.0
        } by {
            let entry = all[k];
            if k < firing(rest, color, sum, owner).len() {
                assert(entry == firing(rest, color, sum, owner)[k]);
                let i = choose|i: int| 0 <= i < rest.len() && (#[trigger] rest[i]).card == entry.0;
                assert(hand[i].card == entry.0);
            } else {
                assert(hand[hand.len() - 1].card == entry.0);
            }
        }
    }
}

/// Every seat named in what fires over `seats` is one of `seats`.
proof fn lemma_firing_in_seats_owners(
    players: Seq<PlayerView>,
    seats: Seq<usize>,
    color: CardColor,
    sum: u8,
    upto: int,
    bound: int,
)
    requires
        0 <= upto <= seats.len(),
        forall|k: int| 0 <= k < seats.len() ==> (#[trigger] seats[k]) < bound,
    ensures
        forall|k: int|
            0 <= k < firing_in_seats(players, seats, color, sum, upto).len() ==> (
            #[trigger] firing_in_seats(players, seats, color, sum, upto)[k]).1 < bound,
    decreases upto,
{
    if upto > 0 {
        lemma_firing_in_seats_owners(players, seats, color, sum, upto - 1, bound);
        let seat = seats[upto - 1];
        let before = firing_in_seats(players, seats, color, sum, upto - 1);
        let more = firing(players[seat as int].cards, color, sum, seat);
        lemma_firing_members(players[seat as int].cards, color, sum, seat);
        assert forall|k: int| 0 <= k < (before + more).len() implies (#[trigger] (before + more)[k]).1
            < bound by {
            if k < before.len() {
                assert((before + more)[k] == before[k]);
            } else {
                assert((before + more)[k] == more[k - before.len()]);
            }
        }
    }
}

/// The activation order at a table of three: the red establishments of the
/// player two seats on, which is the seat before the current one, then those
/// of the player one seat on; the blue ones of seats 0, 1 and 2; the current
/// player's green ones; the current player's purple ones.
pub proof fn lemma_activation_order_of_three(game: GameView, sum: u8)
    requires
        game.players.len() == 3,
        0 <= game.current_player < 3,
    ensures
        game.activation_order(sum) == firing(
            game.players[(game.current_player + 2) % 3].cards,
            CardColor::Red,
            sum,
            ((game.current_player + 2) % 3) as usize,
        ) + firing(
            game.players[(game.current_player + 1) % 3].cards,
            CardColor::Red,
            sum,
            ((game.current_player + 1) % 3) as usize,
        ) + firing(game.players[0].cards, CardColor::Blue, sum, 0) + firing(
            game.players[1].cards,
            CardColor::Blue,
            sum,
            1,
        ) + firing(game.players[2].cards, CardColor::Blue, sum, 2) + firing(
            game.current().cards,
            CardColor::Green,
            sum,
            game.current_player as usize,
        ) + firing(game.current().cards, CardColor::Purple, sum, game.current_player as usize),
{
    let others = game.other_players_reverse();
    let seats = game.all_seats();
    assert(others[0] == ((game.current_player + 2) % 3) as usize);
    assert(others[1] == ((game.current_player + 1) % 3) as usize);
    reveal_with_fuel(firing_in_seats, 4);
    let empty = Seq::<(Card, usize)>::empty();
    let r0 = firing(game.players[others[0] as int].cards, CardColor::Red, sum, others[0]);
    let r1 = firing(game.players[others[1] as int].cards, CardColor::Red, sum, others[1]);
    assert(firing_in_seats(game.players, others, CardColor::Red, sum, 2) == (empty + r0) + r1);
    assert((empty + r0) + r1 =~= r0 + r1);
    let b0 = firing(game.players[0].cards, CardColor::Blue, sum, 0);
    let b1 = firing(game.players[1].cards, CardColor::Blue, sum, 1);
    let b2 = firing(game.players[2].cards, CardColor::Blue, sum, 2);
    assert(seats[0] == 0 && seats[1] == 1 && seats[2] == 2);
    assert(firing_in_seats(game.players, seats, CardColor::Blue, sum, 3) == ((empty + b0) + b1) + b2);
    let g = firing(game.current().cards, CardColor::Green, sum, game.current_player as usize);
    let p = firing(game.current().cards, CardColor::Purple, sum, game.current_player as usize);
    assert((r0 + r1) + (((empty + b0) + b1) + b2) + g + p =~= r0 + r1 + b0 + b1 + b2 + g + p);
}

} // verus!
