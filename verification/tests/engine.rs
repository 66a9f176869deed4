use machi_koro::engine::Engine;
use machi_koro::engine::EngineError;
use machi_koro::game::Game;
use machi_koro::market::CardMarket;
use machi_koro::market::LandmarkMarket;
use machi_koro::models::card::Card;
use machi_koro::models::landmark::Landmark;
use machi_koro::models::player::OwnedCard;
use machi_koro::models::player::OwnedLandmark;
use machi_koro::player_strategies::player_strategy::DiceRollDecision;
use machi_koro::player_strategies::player_strategy::ExchangeEstablishmentDecision;
use machi_koro::player_strategies::player_strategy::GiveEstablishmentDecision;
use machi_koro::player_strategies::player_strategy::PlayerStrategy;
use machi_koro::player_strategies::player_strategy::PurchaseDecision;
use machi_koro::rules::game_helpers::CoinOverflow;

/// Answers the same every time it is asked.
struct Fixed {
    dice: DiceRollDecision,
    purchase: PurchaseDecision,
    exchange: ExchangeEstablishmentDecision,
    gift: GiveEstablishmentDecision,
}

impl PlayerStrategy for Fixed {
    fn decide_dice_roll(&mut self, _game: &Game) -> DiceRollDecision {
        self.dice
    }

    fn decide_purchase(&mut self, _game: &Game) -> PurchaseDecision {
        self.purchase
    }

    fn decide_exchange_establishment(&mut self, _game: &Game) -> ExchangeEstablishmentDecision {
        self.exchange
    }

    fn decide_give_establishment(&mut self, _game: &Game) -> GiveEstablishmentDecision {
        self.gift
    }
}

/// Builds the first landmark it can; else buys the first card it can.
struct Builder;

impl PlayerStrategy for Builder {
    fn decide_dice_roll(&mut self, game: &Game) -> DiceRollDecision {
        if game.get_round() % 2 == 0 {
            DiceRollDecision::RollTwo
        } else {
            DiceRollDecision::RollOne
        }
    }

    fn decide_purchase(&mut self, game: &Game) -> PurchaseDecision {
        if let Some(landmark) = game.get_affordable_landmarks().first() {
            return PurchaseDecision::BuyLandmark(*landmark);
        }
        match game.get_affordable_cards().last() {
            Some(card) => PurchaseDecision::BuyCard(*card),
            None => PurchaseDecision::BuyNothing,
        }
    }

    fn decide_exchange_establishment(&mut self, game: &Game) -> ExchangeEstablishmentDecision {
        let own = game.get_current_player().cards.first();
        let theirs = game.get_opponents_cards();
        match (own, theirs.first()) {
            (Some(mine), Some((card, seat))) => {
                ExchangeEstablishmentDecision::Exchange(mine.card, *seat, *card)
            }
            _ => ExchangeEstablishmentDecision::NoExchange,
        }
    }

    fn decide_give_establishment(&mut self, game: &Game) -> GiveEstablishmentDecision {
        match game.get_current_player().cards.first() {
            Some(owned) => GiveEstablishmentDecision::Give(owned.card),
            None => GiveEstablishmentDecision::NoGive,
        }
    }
}

fn buys(purchase: PurchaseDecision) -> Box<dyn PlayerStrategy> {
    Box::new(Fixed {
        dice: DiceRollDecision::RollTwo,
        purchase,
        exchange: ExchangeEstablishmentDecision::NoExchange,
        gift: GiveEstablishmentDecision::NoGive,
    })
}

fn idle() -> Box<dyn PlayerStrategy> {
    buys(PurchaseDecision::BuyNothing)
}

fn engine_of(strategies: Vec<Box<dyn PlayerStrategy>>) -> Engine {
    let mut engine = Engine::new_with_seed(11);
    for strategy in strategies {
        assert_eq!(engine.add_player_strategy(strategy), Ok(()));
    }
    engine
}

fn coins(engine: &Engine) -> Vec<u16> {
    engine.game.players.iter().map(|player| player.coins).collect()
}

fn hand(engine: &Engine, seat: usize) -> Vec<Card> {
    engine.game.players[seat].cards.iter().map(|owned| owned.card).collect()
}

fn deal(engine: &mut Engine, seat: usize, cards: &[Card]) {
    for card in cards {
        engine.game.players[seat].cards.push(OwnedCard { card: *card, bought_round: 0 });
    }
}

fn build(engine: &mut Engine, seat: usize, landmark: Landmark) {
    engine.game.players[seat].landmarks.push(OwnedLandmark { landmark, bought_round: 0 });
    engine.game.active_landmarks.push(landmark);
}

#[test]
fn a_match_needs_two_players() {
    let mut engine = Engine::new_with_seed(1);
    assert_eq!(engine.run(10), Err(EngineError::InvalidPlayerCount));
    assert_eq!(engine.add_player_strategy(idle()), Ok(()));
    assert_eq!(engine.run(10), Err(EngineError::InvalidPlayerCount));
    assert_eq!(engine.game.current_turn, 0);
    assert_eq!(coins(&engine), vec![5]);
}

#[test]
fn a_new_engine_holds_an_opened_game() {
    for engine in [Engine::new(), Engine::new_with_seed(9)] {
        assert!(engine.player_strategies.is_empty());
        assert!(engine.game.players.is_empty());
        assert_eq!(engine.game.current_player, 0);
        assert_eq!(engine.game.current_turn, 0);
        assert!(engine.game.active_landmarks.is_empty());
        assert!(!engine.game.take_another_turn);
        assert_eq!(engine.game.less_than_7.face_up.len(), 5);
        assert_eq!(engine.game.greater_than_6.face_up.len(), 5);
        assert_eq!(engine.game.landmarks.face_up.len(), 5);
        assert_eq!(engine.game.landmarks.deck.len(), 15);
    }
    assert_eq!(Engine::new_with_seed(9).game.rng.seed(), 9);
}

#[test]
fn a_fifth_strategy_is_refused() {
    let mut engine = Engine::new();
    for _ in 0..4 {
        assert_eq!(engine.add_player_strategy(idle()), Ok(()));
    }
    assert_eq!(engine.add_player_strategy(idle()), Err(EngineError::InvalidPlayerCount));
    assert_eq!(engine.game.players.len(), 4);
    assert_eq!(engine.player_strategies.len(), 4);
}

#[test]
fn a_match_without_purchases_has_no_winner() {
    let mut engine = engine_of(vec![idle(), idle()]);
    assert_eq!(engine.run(20), Err(EngineError::NoWinner));
    assert_eq!(engine.game.current_turn, 20);
    assert_eq!(engine.game.winner(), None);
    let mut none = engine_of(vec![idle(), idle()]);
    assert_eq!(none.run(0), Err(EngineError::NoWinner));
    assert_eq!(none.game.current_turn, 0);
}

#[test]
fn the_opening_rounds_roll_no_dice() {
    let mut engine = engine_of(vec![idle(), idle()]);
    for turn in 0..6 {
        assert_eq!(engine.game.current_turn, turn);
        assert_eq!(engine.game.current_player, turn % 2);
        assert_eq!(engine.play_turn(), Ok(()));
    }
    assert!(engine.game.players[0].dice_rolls.is_empty());
    assert!(engine.game.players[1].dice_rolls.is_empty());
    assert_eq!(coins(&engine), vec![5, 5]);
    assert_eq!(engine.play_turn(), Ok(()));
    assert_eq!(engine.game.players[0].dice_rolls, vec![(2, 3)]);
    assert!(engine.game.players[1].dice_rolls.is_empty());
    assert_eq!(engine.game.current_turn, 7);
    assert_eq!(engine.game.current_player, 1);
}

#[test]
fn a_purchase_in_the_opening_rounds_triggers_nothing() {
    let mut engine = engine_of(vec![buys(PurchaseDecision::BuyLandmark(Landmark::RadioTower)), idle()]);
    engine.game.landmarks = LandmarkMarket::open(vec![Landmark::RadioTower]);
    engine.game.players[0].coins = 12;
    assert_eq!(engine.play_turn(), Ok(()));
    assert_eq!(coins(&engine), vec![0, 5]);
    assert_eq!(engine.game.players[0].landmarks.len(), 1);
    assert!(!engine.game.take_another_turn);
    assert_eq!(engine.game.current_player, 1);
    assert_eq!(engine.game.current_turn, 1);
}

#[test]
fn the_radio_tower_gives_another_turn_after_the_opening_rounds() {
    let mut engine = engine_of(vec![buys(PurchaseDecision::BuyLandmark(Landmark::RadioTower)), idle()]);
    engine.game.landmarks = LandmarkMarket::open(vec![Landmark::RadioTower]);
    engine.game.players[0].coins = 12;
    engine.game.current_turn = 6;
    assert_eq!(engine.play_turn(), Ok(()));
    assert_eq!(coins(&engine), vec![0, 5]);
    assert_eq!(engine.game.current_player, 0);
    assert_eq!(engine.game.current_turn, 6);
    assert!(!engine.game.take_another_turn);
    assert_eq!(engine.play_turn(), Ok(()));
    assert_eq!(coins(&engine), vec![1, 5]);
    assert_eq!(engine.game.current_player, 1);
    assert_eq!(engine.game.current_turn, 7);
}

#[test]
fn a_player_without_coins_is_given_one_before_buying_nothing() {
    let mut engine = engine_of(vec![idle(), idle()]);
    engine.game.current_turn = 6;
    engine.game.players[0].coins = 0;
    assert_eq!(engine.play_turn(), Ok(()));
    assert_eq!(coins(&engine), vec![1, 5]);
}

#[test]
fn a_player_without_coins_is_given_one_and_can_spend_it() {
    let mut engine = engine_of(vec![buys(PurchaseDecision::BuyCard(Card::WheatField)), idle()]);
    engine.game.less_than_7 = CardMarket::open(vec![Card::WheatField]);
    engine.game.current_turn = 6;
    engine.game.players[0].coins = 0;
    assert_eq!(engine.play_turn(), Ok(()));
    assert_eq!(coins(&engine), vec![0, 5]);
    assert_eq!(
        engine.game.players[0].cards,
        vec![OwnedCard { card: Card::WheatField, bought_round: 3 }]
    );
}

#[test]
fn a_player_with_coins_is_given_none() {
    let mut engine = engine_of(vec![idle(), idle()]);
    engine.game.current_turn = 6;
    engine.game.players[0].coins = 1;
    assert_eq!(engine.play_turn(), Ok(()));
    assert_eq!(coins(&engine), vec![1, 5]);
}

#[test]
fn no_coin_is_given_in_the_opening_rounds() {
    let mut engine = engine_of(vec![idle(), idle()]);
    engine.game.players[0].coins = 0;
    assert_eq!(engine.play_turn(), Ok(()));
    assert_eq!(coins(&engine), vec![0, 5]);
}

#[test]
fn a_decision_that_breaks_the_rules_is_a_decision_to_buy_nothing() {
    let mut engine = engine_of(vec![
        buys(PurchaseDecision::BuyCard(Card::Mine)),
        buys(PurchaseDecision::BuyLandmark(Landmark::LaunchPad)),
    ]);
    engine.game.greater_than_6 = CardMarket::open(vec![Card::Mine]);
    engine.game.landmarks = LandmarkMarket::open(vec![Landmark::LaunchPad]);
    engine.game.players[0].coins = 3;
    for _ in 0..4 {
        assert_eq!(engine.play_turn(), Ok(()));
    }
    assert_eq!(coins(&engine), vec![3, 5]);
    assert!(hand(&engine, 0).is_empty());
    assert!(engine.game.players[1].landmarks.is_empty());
    assert_eq!(engine.game.current_turn, 4);
    assert_eq!(engine.game.greater_than_6.face_up.len(), 1);
}

#[test]
fn the_third_landmark_wins_at_the_next_win_check() {
    let mut engine = engine_of(vec![idle(), buys(PurchaseDecision::BuyLandmark(Landmark::Park))]);
    engine.game.landmarks = LandmarkMarket::open(vec![Landmark::Park]);
    engine.game.players[1].landmarks = vec![
        OwnedLandmark { landmark: Landmark::Museum, bought_round: 1 },
        OwnedLandmark { landmark: Landmark::Publisher, bought_round: 2 },
    ];
    engine.game.players[1].coins = 22;
    engine.game.current_turn = 6;
    assert_eq!(engine.game.winner(), None);
    assert_eq!(engine.run(10), Ok(1));
    assert_eq!(engine.game.winner(), Some(1));
    assert_eq!(engine.game.current_turn, 8);
    assert_eq!(engine.game.players[1].landmarks.len(), 3);
    assert_eq!(coins(&engine), vec![3, 3]);
}

#[test]
fn the_launch_pad_wins_at_once() {
    let mut engine = engine_of(vec![buys(PurchaseDecision::BuyLandmark(Landmark::LaunchPad)), idle()]);
    engine.game.landmarks = LandmarkMarket::open(vec![Landmark::LaunchPad]);
    engine.game.players[0].coins = 45;
    engine.game.current_turn = 6;
    assert_eq!(engine.run(10), Ok(0));
    assert_eq!(engine.game.current_turn, 7);
    assert_eq!(engine.game.players[0].landmarks.len(), 1);
    assert_eq!(coins(&engine), vec![0, 5]);
}

#[test]
fn a_match_that_is_won_already_plays_no_turn() {
    let mut engine = engine_of(vec![idle(), idle()]);
    engine.game.players[1].landmarks.push(OwnedLandmark {
        landmark: Landmark::LaunchPad,
        bought_round: 0,
    });
    assert_eq!(engine.run(10), Ok(1));
    assert_eq!(engine.game.current_turn, 0);
}

#[test]
fn red_cards_are_paid_before_the_bank_pays_out() {
    let mut engine = engine_of(vec![idle(), idle(), idle()]);
    engine.game.current_player = 1;
    engine.game.players[1].coins = 1;
    deal(&mut engine, 0, &[Card::FamilyRestaurant]);
    deal(&mut engine, 1, &[Card::AppleOrchard, Card::FoodWarehouse, Card::FamilyRestaurant]);
    deal(&mut engine, 2, &[Card::FamilyRestaurant]);
    assert_eq!(engine.earn_income_phase(10), Ok(()));
    assert_eq!(coins(&engine), vec![6, 5, 5]);
}

#[test]
fn the_seat_before_the_current_one_is_paid_first() {
    let mut engine = engine_of(vec![idle(), idle(), idle()]);
    engine.game.current_player = 0;
    engine.game.players[0].coins = 3;
    deal(&mut engine, 1, &[Card::Cafe]);
    deal(&mut engine, 2, &[Card::Cafe]);
    assert_eq!(engine.earn_income_phase(3), Ok(()));
    assert_eq!(coins(&engine), vec![0, 6, 7]);
}

#[test]
fn income_that_does_not_fit_stops_the_phase() {
    let mut engine = engine_of(vec![idle(), idle()]);
    engine.game.players[0].coins = 65535;
    engine.game.players[1].coins = 2;
    deal(&mut engine, 0, &[Card::Vineyard, Card::WheatField]);
    deal(&mut engine, 1, &[Card::WheatField]);
    assert_eq!(engine.earn_income_phase(1), Err(CoinOverflow));
    assert_eq!(coins(&engine), vec![65535, 2]);
    engine.game.players[0].coins = 65533;
    assert_eq!(engine.earn_income_phase(2), Err(CoinOverflow));
    assert_eq!(coins(&engine), vec![65535, 2]);
    engine.game.players[0].coins = 65532;
    assert_eq!(engine.earn_income_phase(2), Ok(()));
    assert_eq!(coins(&engine), vec![65535, 3]);
}

#[test]
fn a_balance_without_room_stops_the_match() {
    let mut engine = engine_of(vec![idle(), idle()]);
    build(&mut engine, 0, Landmark::Airport);
    engine.game.players[0].coins = 65531;
    engine.game.current_turn = 6;
    assert_eq!(engine.run(50), Err(EngineError::CoinOverflow));
    assert_eq!(engine.game.current_turn, 6);
    assert_eq!(engine.game.current_player, 0);
    assert_eq!(coins(&engine), vec![65531, 5]);
    engine.game.players[0].coins = 65530;
    assert_eq!(engine.play_turn(), Ok(()));
    assert_eq!(coins(&engine), vec![65535, 5]);
    assert_eq!(engine.play_turn(), Ok(()));
    assert_eq!(engine.play_turn(), Err(EngineError::CoinOverflow));
}

#[test]
fn the_business_center_asks_its_owner_for_an_exchange() {
    let mut engine = engine_of(vec![
        Box::new(Fixed {
            dice: DiceRollDecision::RollOne,
            purchase: PurchaseDecision::BuyNothing,
            exchange: ExchangeEstablishmentDecision::Exchange(Card::WheatField, 1, Card::Mine),
            gift: GiveEstablishmentDecision::NoGive,
        }),
        idle(),
    ]);
    engine.game.current_turn = 8;
    deal(&mut engine, 0, &[Card::BusinessCenter, Card::WheatField, Card::BusinessCenter]);
    deal(&mut engine, 1, &[Card::Mine, Card::FlowerShop]);
    assert_eq!(engine.earn_income_phase(6), Ok(()));
    assert_eq!(hand(&engine, 0), vec![Card::BusinessCenter, Card::BusinessCenter, Card::Mine]);
    assert_eq!(hand(&engine, 1), vec![Card::FlowerShop, Card::WheatField]);
    assert_eq!(engine.game.players[0].cards[2].bought_round, 4);
    assert_eq!(engine.game.players[1].cards[1].bought_round, 4);
    assert_eq!(coins(&engine), vec![5, 5]);
}

#[test]
fn the_airport_pays_at_the_end_of_a_turn_without_a_purchase() {
    let mut engine = engine_of(vec![idle(), idle()]);
    build(&mut engine, 0, Landmark::Airport);
    engine.game.current_turn = 6;
    assert_eq!(engine.play_turn(), Ok(()));
    assert_eq!(coins(&engine), vec![10, 5]);
    assert_eq!(engine.play_turn(), Ok(()));
    assert_eq!(coins(&engine), vec![10, 5]);
}

#[test]
fn the_airport_pays_nothing_after_a_purchase() {
    let mut engine = engine_of(vec![buys(PurchaseDecision::BuyCard(Card::Cafe)), idle()]);
    engine.game.less_than_7 = CardMarket::open(vec![Card::Cafe]);
    build(&mut engine, 0, Landmark::Airport);
    engine.game.current_turn = 6;
    assert_eq!(engine.play_turn(), Ok(()));
    assert_eq!(coins(&engine), vec![4, 5]);
}

#[test]
fn the_charterhouse_pays_after_two_dice_that_earned_nothing() {
    let mut engine = engine_of(vec![idle(), idle()]);
    build(&mut engine, 0, Landmark::Charterhouse);
    engine.game.current_turn = 6;
    assert_eq!(engine.play_turn(), Ok(()));
    assert_eq!(coins(&engine), vec![8, 5]);
    let mut single = engine_of(vec![
        Box::new(Fixed {
            dice: DiceRollDecision::RollOne,
            purchase: PurchaseDecision::BuyNothing,
            exchange: ExchangeEstablishmentDecision::NoExchange,
            gift: GiveEstablishmentDecision::NoGive,
        }),
        idle(),
    ]);
    build(&mut single, 0, Landmark::Charterhouse);
    single.game.current_turn = 6;
    assert_eq!(single.play_turn(), Ok(()));
    assert_eq!(coins(&single), vec![5, 5]);
    assert_eq!(single.game.players[0].dice_rolls, vec![(1, 3)]);
}

#[test]
fn a_landmark_is_polled_for_its_builder_only() {
    let mut engine = engine_of(vec![idle(), idle()]);
    build(&mut engine, 1, Landmark::Airport);
    engine.game.current_turn = 6;
    assert_eq!(engine.play_turn(), Ok(()));
    assert_eq!(coins(&engine), vec![5, 5]);
    assert_eq!(engine.play_turn(), Ok(()));
    assert_eq!(coins(&engine), vec![5, 10]);
}

#[test]
fn an_immediate_landmark_acts_when_it_is_built() {
    let mut engine = engine_of(vec![
        buys(PurchaseDecision::BuyLandmark(Landmark::FrenchRestaurant)),
        idle(),
        idle(),
    ]);
    engine.game.landmarks = LandmarkMarket::open(vec![Landmark::FrenchRestaurant]);
    engine.game.players[0].coins = 10;
    engine.game.players[2].coins = 1;
    engine.game.current_turn = 9;
    assert_eq!(engine.play_turn(), Ok(()));
    assert_eq!(coins(&engine), vec![3, 3, 0]);
    assert!(engine.game.active_landmarks.is_empty());
}

#[test]
fn the_same_seed_and_the_same_decisions_give_the_same_match() {
    let mut first = Engine::new_with_seed(42);
    let mut second = Engine::new_with_seed(42);
    for _ in 0..3 {
        assert_eq!(first.add_player_strategy(Box::new(Builder)), Ok(()));
        assert_eq!(second.add_player_strategy(Box::new(Builder)), Ok(()));
    }
    let first_result = first.run(400);
    let second_result = second.run(400);
    assert_eq!(first_result, second_result);
    assert_eq!(first.game.current_turn, second.game.current_turn);
    assert_eq!(first.game.current_player, second.game.current_player);
    assert_eq!(first.game.winner(), second.game.winner());
    assert_eq!(first.game.active_landmarks, second.game.active_landmarks);
    for seat in 0..3 {
        assert_eq!(first.game.players[seat].coins, second.game.players[seat].coins);
        assert_eq!(first.game.players[seat].cards, second.game.players[seat].cards);
        assert_eq!(first.game.players[seat].landmarks, second.game.players[seat].landmarks);
        assert_eq!(first.game.players[seat].dice_rolls, second.game.players[seat].dice_rolls);
    }
    assert_eq!(first.game.less_than_7.deck, second.game.less_than_7.deck);
    assert_eq!(first.game.less_than_7.face_up, second.game.less_than_7.face_up);
    assert_eq!(first.game.greater_than_6.face_up, second.game.greater_than_6.face_up);
    assert_eq!(first.game.landmarks.face_up, second.game.landmarks.face_up);
    assert!(first.game.current_turn > 6);
}

#[test]
fn a_match_of_builders_keeps_its_displays_stocked() {
    let mut engine = Engine::new_with_seed(3);
    for _ in 0..4 {
        assert_eq!(engine.add_player_strategy(Box::new(Builder)), Ok(()));
    }
    for _ in 0..300 {
        if engine.game.winner().is_some() {
            break;
        }
        if engine.play_turn().is_err() {
            break;
        }
        let game = &engine.game;
        assert!(game.less_than_7.face_up.len() == 5 || game.less_than_7.deck.is_empty());
        assert!(game.greater_than_6.face_up.len() == 5 || game.greater_than_6.deck.is_empty());
        assert!(game.landmarks.face_up.len() == 5 || game.landmarks.deck.is_empty());
        assert!(game.less_than_7.face_up.len() <= 5);
        assert!(game.current_player < 4);
    }
    if let Some(winner) = engine.game.winner() {
        assert!(engine.game.players[winner].has_won());
    }
}
