use machi_koro::game::Game;
use machi_koro::market::CardMarket;
use machi_koro::market::LandmarkMarket;
use machi_koro::models::card::Card;
use machi_koro::models::landmark::Landmark;
use machi_koro::models::player::OwnedCard;
use machi_koro::models::player::OwnedLandmark;
use machi_koro::player_strategies::all_player_strategies::get_player_strategy;
use machi_koro::player_strategies::all_player_strategies::get_random_player_strategy;
use machi_koro::player_strategies::all_player_strategies::strategy_type_for_pick;
use machi_koro::player_strategies::all_player_strategies::strategy_types;
use machi_koro::player_strategies::all_player_strategies::PlayerStrategyType;
use machi_koro::player_strategies::greedy_best_card_strategy::cards_to_buy;
use machi_koro::player_strategies::greedy_best_card_strategy::first_affordable;
use machi_koro::player_strategies::greedy_strategy::GreedyStrategy;
use machi_koro::player_strategies::player_strategy::DiceRollDecision;
use machi_koro::player_strategies::player_strategy::ExchangeEstablishmentDecision;
use machi_koro::player_strategies::player_strategy::GiveEstablishmentDecision;
use machi_koro::player_strategies::player_strategy::PlayerStrategy;
use machi_koro::player_strategies::player_strategy::PurchaseDecision;
use machi_koro::player_strategies::strategy_utils::dice_for_flip;
use machi_koro::player_strategies::strategy_utils::exchange_for;
use machi_koro::player_strategies::strategy_utils::gift_for_pick;
use machi_koro::player_strategies::strategy_utils::purchase_for_pick;
use machi_koro::player_strategies::strategy_utils::purchase_options;
use machi_koro::player_strategies::GreedyBestCardStrategy;
use machi_koro::player_strategies::LandmarkRushStrategy;
use machi_koro::player_strategies::OptimizedStrategy;
use machi_koro::player_strategies::RandomStrategy;

fn table(coins: &[u16]) -> Game {
    let mut game = Game::new(Some(7));
    for _ in coins {
        assert!(game.add_player());
    }
    for (seat, amount) in coins.iter().enumerate() {
        game.players[seat].coins = *amount;
    }
    game.less_than_7 = CardMarket::open(vec![
        Card::Forest,
        Card::BusinessCenter,
        Card::Vineyard,
        Card::Cafe,
        Card::WheatField,
    ]);
    game.greater_than_6 = CardMarket::open(vec![Card::Mine, Card::ShoppingDistrict, Card::CornField]);
    game.landmarks = LandmarkMarket::open(vec![
        Landmark::LaunchPad,
        Landmark::Airport,
        Landmark::LoanOffice,
        Landmark::Publisher,
    ]);
    game
}

fn deal(game: &mut Game, seat: usize, cards: &[Card]) {
    for card in cards {
        game.players[seat].cards.push(OwnedCard { card: *card, bought_round: 0 });
    }
}

fn is_valid(game: &Game, decision: PurchaseDecision) -> bool {
    match decision {
        PurchaseDecision::BuyCard(card) => {
            (game.less_than_7.shows(card) || game.greater_than_6.shows(card))
                && game.current_player_can_afford_card(&card)
        }
        PurchaseDecision::BuyLandmark(landmark) => {
            game.landmarks.shows(landmark) && game.current_player_can_afford_landmark(&landmark)
        }
        PurchaseDecision::BuyNothing => true,
    }
}

#[test]
fn the_affordable_cards_are_listed_low_display_first() {
    let mut game = table(&[3, 5]);
    assert_eq!(
        game.get_affordable_cards(),
        vec![
            Card::WheatField,
            Card::Cafe,
            Card::Vineyard,
            Card::BusinessCenter,
            Card::Forest,
            Card::CornField,
            Card::ShoppingDistrict,
        ]
    );
    game.players[0].coins = 2;
    assert_eq!(
        game.get_affordable_cards(),
        vec![Card::WheatField, Card::Cafe, Card::Vineyard, Card::CornField]
    );
    game.players[0].coins = 0;
    assert!(game.get_affordable_cards().is_empty());
    game.current_player = 1;
    assert_eq!(game.get_affordable_cards().len(), 8);
}

#[test]
fn the_affordable_landmarks_respect_price_and_loan_office_rule() {
    let mut game = table(&[12, 5]);
    assert_eq!(game.get_affordable_landmarks(), vec![Landmark::Publisher, Landmark::Airport]);
    game.players[1].landmarks.push(OwnedLandmark { landmark: Landmark::Park, bought_round: 0 });
    assert_eq!(
        game.get_affordable_landmarks(),
        vec![Landmark::Publisher, Landmark::LoanOffice, Landmark::Airport]
    );
    game.players[0].coins = 45;
    assert_eq!(
        game.get_affordable_landmarks(),
        vec![Landmark::Publisher, Landmark::LoanOffice, Landmark::Airport, Landmark::LaunchPad]
    );
    game.players[0].coins = 9;
    assert!(game.get_affordable_landmarks().is_empty());
}

#[test]
fn the_opponents_cards_are_listed_with_their_seats() {
    let mut game = table(&[5, 5, 5]);
    game.current_player = 1;
    deal(&mut game, 0, &[Card::Cafe, Card::Mine]);
    deal(&mut game, 1, &[Card::Forest]);
    deal(&mut game, 2, &[Card::Bakery]);
    assert_eq!(
        game.get_opponents_cards(),
        vec![(Card::Cafe, 0), (Card::Mine, 0), (Card::Bakery, 2)]
    );
    game.current_player = 0;
    assert_eq!(game.get_opponents_cards(), vec![(Card::Forest, 1), (Card::Bakery, 2)]);
}

#[test]
fn the_purchase_options_end_with_buying_nothing() {
    let mut game = table(&[12, 5]);
    game.players[0].coins = 2;
    assert_eq!(
        purchase_options(&game),
        vec![
            PurchaseDecision::BuyCard(Card::WheatField),
            PurchaseDecision::BuyCard(Card::Cafe),
            PurchaseDecision::BuyCard(Card::Vineyard),
            PurchaseDecision::BuyCard(Card::CornField),
            PurchaseDecision::BuyNothing,
        ]
    );
    game.players[0].coins = 10;
    let options = purchase_options(&game);
    assert_eq!(options.len(), 10);
    assert_eq!(options[8], PurchaseDecision::BuyLandmark(Landmark::Publisher));
    assert_eq!(options[9], PurchaseDecision::BuyNothing);
    game.players[0].coins = 0;
    assert_eq!(purchase_options(&game), vec![PurchaseDecision::BuyNothing]);
}

#[test]
fn the_random_strategy_decides_within_the_rules() {
    let mut game = table(&[12, 5, 5]);
    deal(&mut game, 0, &[Card::Cafe, Card::Mine]);
    deal(&mut game, 1, &[Card::Forest]);
    deal(&mut game, 2, &[Card::Bakery, Card::Winery]);
    let mut strategy = RandomStrategy::new();
    let mut one = 0;
    let mut two = 0;
    let mut bought_nothing = 0;
    let mut bought_something = 0;
    let mut exchanged = 0;
    let mut kept = 0;
    for _ in 0..400 {
        match strategy.decide_dice_roll(&game) {
            DiceRollDecision::RollOne => one += 1,
            DiceRollDecision::RollTwo => two += 1,
        }
        let purchase = strategy.decide_purchase(&game);
        assert!(is_valid(&game, purchase));
        if purchase == PurchaseDecision::BuyNothing {
            bought_nothing += 1;
        } else {
            bought_something += 1;
        }
        match strategy.decide_exchange_establishment(&game) {
            ExchangeEstablishmentDecision::Exchange(card, seat, theirs) => {
                assert!(card == Card::Cafe || card == Card::Mine);
                assert!(seat == 1 || seat == 2);
                assert!(game.players[seat].card_position(theirs).is_some());
                exchanged += 1;
            }
            ExchangeEstablishmentDecision::NoExchange => kept += 1,
        }
        match strategy.decide_give_establishment(&game) {
            GiveEstablishmentDecision::Give(card) => assert!(card == Card::Cafe || card == Card::Mine),
            GiveEstablishmentDecision::NoGive => panic!("a player with cards gives one"),
        }
    }
    assert!(one > 0 && two > 0);
    assert!(bought_nothing > 0 && bought_something > 0);
    assert!(exchanged > 0 && kept > 0);
}

#[test]
fn the_random_strategy_gives_and_exchanges_nothing_without_cards() {
    let mut game = table(&[5, 5]);
    let mut strategy = RandomStrategy::new();
    for _ in 0..50 {
        assert_eq!(
            strategy.decide_exchange_establishment(&game),
            ExchangeEstablishmentDecision::NoExchange
        );
        assert_eq!(strategy.decide_give_establishment(&game), GiveEstablishmentDecision::NoGive);
    }
    deal(&mut game, 0, &[Card::Cafe]);
    for _ in 0..50 {
        assert_eq!(
            strategy.decide_exchange_establishment(&game),
            ExchangeEstablishmentDecision::NoExchange
        );
        assert_eq!(
            strategy.decide_give_establishment(&game),
            GiveEstablishmentDecision::Give(Card::Cafe)
        );
    }
}

#[test]
fn the_landmark_rush_builds_the_first_landmark_it_can() {
    let mut game = table(&[12, 5]);
    let mut strategy = LandmarkRushStrategy::new();
    for _ in 0..20 {
        assert_eq!(
            strategy.decide_purchase(&game),
            PurchaseDecision::BuyLandmark(Landmark::Publisher)
        );
    }
    game.players[0].coins = 3;
    for _ in 0..50 {
        let purchase = strategy.decide_purchase(&game);
        assert!(is_valid(&game, purchase));
        assert!(!matches!(purchase, PurchaseDecision::BuyLandmark(_)));
    }
}

#[test]
fn the_greedy_strategy_buys_the_best_card_it_can() {
    let mut game = table(&[3, 5]);
    let mut strategy = GreedyBestCardStrategy::new();
    assert_eq!(strategy.decide_purchase(&game), PurchaseDecision::BuyCard(Card::ShoppingDistrict));
    game.players[0].coins = 2;
    assert_eq!(strategy.decide_purchase(&game), PurchaseDecision::BuyCard(Card::Vineyard));
    game.players[0].coins = 0;
    assert_eq!(strategy.decide_purchase(&game), PurchaseDecision::BuyNothing);
    assert_eq!(
        cards_to_buy(),
        vec![Card::ShoppingDistrict, Card::Vineyard, Card::FlowerGarden]
    );
    assert_eq!(
        first_affordable(&cards_to_buy(), &vec![Card::Cafe, Card::FlowerGarden, Card::Vineyard]),
        Some(Card::Vineyard)
    );
    assert_eq!(first_affordable(&cards_to_buy(), &vec![Card::Cafe]), None);
    assert_eq!(first_affordable(&cards_to_buy(), &vec![]), None);
}

#[test]
fn the_strategies_that_keep_what_they_have() {
    let game = table(&[50, 5]);
    let mut optimized = OptimizedStrategy::new();
    let mut greedy = GreedyStrategy;
    for _ in 0..20 {
        assert_eq!(optimized.decide_purchase(&game), PurchaseDecision::BuyNothing);
        assert_eq!(
            optimized.decide_exchange_establishment(&game),
            ExchangeEstablishmentDecision::NoExchange
        );
        assert_eq!(optimized.decide_give_establishment(&game), GiveEstablishmentDecision::NoGive);
        assert_eq!(greedy.decide_dice_roll(&game), DiceRollDecision::RollTwo);
        assert_eq!(greedy.decide_purchase(&game), PurchaseDecision::BuyNothing);
        assert_eq!(
            greedy.decide_exchange_establishment(&game),
            ExchangeEstablishmentDecision::NoExchange
        );
        assert_eq!(greedy.decide_give_establishment(&game), GiveEstablishmentDecision::NoGive);
    }
}

#[test]
fn every_kind_of_strategy_can_be_made() {
    let game = table(&[12, 5]);
    assert_eq!(
        strategy_types(),
        vec![
            PlayerStrategyType::Random,
            PlayerStrategyType::LandmarkRush,
            PlayerStrategyType::GreedyBestCard,
            PlayerStrategyType::Optimized,
        ]
    );
    for kind in strategy_types() {
        let mut strategy = get_player_strategy(kind);
        let purchase = strategy.decide_purchase(&game);
        assert!(is_valid(&game, purchase));
        match kind {
            PlayerStrategyType::LandmarkRush => {
                assert_eq!(purchase, PurchaseDecision::BuyLandmark(Landmark::Publisher))
            }
            PlayerStrategyType::GreedyBestCard => {
                assert_eq!(purchase, PurchaseDecision::BuyCard(Card::ShoppingDistrict))
            }
            PlayerStrategyType::Optimized => assert_eq!(purchase, PurchaseDecision::BuyNothing),
            PlayerStrategyType::Random => {}
        }
    }
    for _ in 0..20 {
        let mut strategy = get_random_player_strategy();
        let purchase = strategy.decide_purchase(&game);
        assert!(is_valid(&game, purchase));
    }
}

#[test]
fn a_match_of_library_strategies_ends() {
    let mut engine = machi_koro::engine::Engine::new_with_seed(8);
    assert_eq!(engine.add_player_strategy(get_player_strategy(PlayerStrategyType::LandmarkRush)), Ok(()));
    assert_eq!(engine.add_player_strategy(get_player_strategy(PlayerStrategyType::Random)), Ok(()));
    assert_eq!(engine.add_player_strategy(get_player_strategy(PlayerStrategyType::GreedyBestCard)), Ok(()));
    match engine.run(100000) {
        Ok(winner) => {
            assert!(engine.game.players[winner].has_won());
            assert_eq!(engine.game.winner(), Some(winner));
        }
        Err(error) => assert_ne!(error, machi_koro::engine::EngineError::InvalidPlayerCount),
    }
}

#[test]
fn matches_of_every_kind_of_strategy_stay_within_the_rules() {
    for seed in 0..40u64 {
        let mut engine = machi_koro::engine::Engine::new_with_seed(seed);
        let kinds = strategy_types();
        for seat in 0..(2 + (seed as usize) % 3) {
            let kind = kinds[(seat + seed as usize) % kinds.len()];
            assert_eq!(engine.add_player_strategy(get_player_strategy(kind)), Ok(()));
        }
        let seats = engine.game.players.len();
        for _ in 0..3000 {
            if engine.game.winner().is_some() {
                break;
            }
            if engine.play_turn().is_err() {
                break;
            }
            let game = &engine.game;
            assert_eq!(game.players.len(), seats);
            assert!(game.current_player < seats);
            assert!(game.less_than_7.face_up.len() == 5 || game.less_than_7.deck.is_empty());
            assert!(game.greater_than_6.face_up.len() == 5 || game.greater_than_6.deck.is_empty());
            assert!(game.landmarks.face_up.len() == 5 || game.landmarks.deck.is_empty());
            let low: usize = game.less_than_7.deck.len()
                + game.less_than_7.face_up.iter().map(|slot| slot.count as usize).sum::<usize>();
            let high: usize = game.greater_than_6.deck.len()
                + game.greater_than_6.face_up.iter().map(|slot| slot.count as usize).sum::<usize>();
            let held: usize = game.players.iter().map(|player| player.cards.len()).sum();
            assert_eq!(low + high + held, 86);
            let built: usize = game.players.iter().map(|player| player.landmarks.len()).sum();
            assert_eq!(game.landmarks.deck.len() + game.landmarks.face_up.len() + built, 20);
            for landmark in game.active_landmarks.iter() {
                assert!(game.players.iter().any(|player| player.owns_landmark(*landmark)));
            }
        }
    }
}

#[test]
fn a_flipped_coin_decides_on_the_dice() {
    assert_eq!(dice_for_flip(true), DiceRollDecision::RollOne);
    assert_eq!(dice_for_flip(false), DiceRollDecision::RollTwo);
}

#[test]
fn a_draw_decides_on_the_purchase() {
    assert_eq!(
        purchase_for_pick(Some(PurchaseDecision::BuyCard(Card::Mine))),
        PurchaseDecision::BuyCard(Card::Mine)
    );
    assert_eq!(
        purchase_for_pick(Some(PurchaseDecision::BuyLandmark(Landmark::Park))),
        PurchaseDecision::BuyLandmark(Landmark::Park)
    );
    assert_eq!(purchase_for_pick(Some(PurchaseDecision::BuyNothing)), PurchaseDecision::BuyNothing);
    assert_eq!(purchase_for_pick(None), PurchaseDecision::BuyNothing);
}

#[test]
fn two_draws_decide_on_the_exchange() {
    let mut game = table(&[5, 5, 5]);
    game.current_player = 1;
    deal(&mut game, 1, &[Card::Cafe, Card::Mine]);
    deal(&mut game, 2, &[Card::Bakery]);
    assert_eq!(
        exchange_for(&game, 1, Some((Card::Bakery, 2))),
        ExchangeEstablishmentDecision::Exchange(Card::Mine, 2, Card::Bakery)
    );
    assert_eq!(
        exchange_for(&game, 0, Some((Card::Bakery, 2))),
        ExchangeEstablishmentDecision::Exchange(Card::Cafe, 2, Card::Bakery)
    );
    assert_eq!(
        exchange_for(&game, 2, Some((Card::Bakery, 2))),
        ExchangeEstablishmentDecision::NoExchange
    );
    assert_eq!(exchange_for(&game, 0, None), ExchangeEstablishmentDecision::NoExchange);
}

#[test]
fn a_draw_decides_on_the_gift() {
    assert_eq!(
        gift_for_pick(Some(OwnedCard { card: Card::Forest, bought_round: 3 })),
        GiveEstablishmentDecision::Give(Card::Forest)
    );
    assert_eq!(gift_for_pick(None), GiveEstablishmentDecision::NoGive);
}

#[test]
fn a_draw_decides_on_the_kind_of_strategy() {
    for kind in strategy_types() {
        assert_eq!(strategy_type_for_pick(Some(kind)), kind);
    }
    assert_eq!(strategy_type_for_pick(None), PlayerStrategyType::Random);
}

#[test]
fn the_greedy_strategy_prefers_the_wanted_cards_in_their_order() {
    let mut game = table(&[2, 5]);
    game.greater_than_6 = CardMarket::open(vec![Card::CornField]);
    game.less_than_7 = CardMarket::open(vec![Card::FlowerGarden, Card::Cafe, Card::Vineyard]);
    let mut strategy = GreedyBestCardStrategy::new();
    for _ in 0..20 {
        assert_eq!(strategy.decide_purchase(&game), PurchaseDecision::BuyCard(Card::Vineyard));
    }
    game.less_than_7 = CardMarket::open(vec![Card::FlowerGarden, Card::Cafe]);
    for _ in 0..20 {
        assert_eq!(strategy.decide_purchase(&game), PurchaseDecision::BuyCard(Card::FlowerGarden));
    }
    game.less_than_7 = CardMarket::open(vec![Card::Cafe]);
    for _ in 0..50 {
        let purchase = strategy.decide_purchase(&game);
        assert!(purchase_options(&game).contains(&purchase));
    }
}

#[test]
fn the_strategies_that_leave_it_to_chance_give_when_they_can() {
    let mut game = table(&[5, 5]);
    let mut greedy = GreedyBestCardStrategy::new();
    let mut rush = LandmarkRushStrategy::new();
    for _ in 0..20 {
        assert_eq!(greedy.decide_give_establishment(&game), GiveEstablishmentDecision::NoGive);
        assert_eq!(rush.decide_give_establishment(&game), GiveEstablishmentDecision::NoGive);
        assert_eq!(
            greedy.decide_exchange_establishment(&game),
            ExchangeEstablishmentDecision::NoExchange
        );
        assert_eq!(
            rush.decide_exchange_establishment(&game),
            ExchangeEstablishmentDecision::NoExchange
        );
    }
    deal(&mut game, 0, &[Card::Forest]);
    deal(&mut game, 1, &[Card::Mine]);
    let mut exchanged = 0;
    for _ in 0..200 {
        assert_eq!(
            greedy.decide_give_establishment(&game),
            GiveEstablishmentDecision::Give(Card::Forest)
        );
        assert_eq!(
            rush.decide_give_establishment(&game),
            GiveEstablishmentDecision::Give(Card::Forest)
        );
        match rush.decide_exchange_establishment(&game) {
            ExchangeEstablishmentDecision::Exchange(card, seat, theirs) => {
                assert_eq!((card, seat, theirs), (Card::Forest, 1, Card::Mine));
                exchanged += 1;
            }
            ExchangeEstablishmentDecision::NoExchange => {}
        }
    }
    assert!(exchanged > 0);
}
