use machi_koro::game::Game;
use machi_koro::game::InvalidDecision;
use machi_koro::models::card::Card;
use machi_koro::models::card::CardCategory;
use machi_koro::models::card::CardColor;
use machi_koro::models::landmark::Landmark;
use machi_koro::models::player::OwnedCard;
use machi_koro::models::player::OwnedLandmark;
use machi_koro::rules::game_helpers::CoinOverflow;
use machi_koro::rules::game_helpers::Levy;

fn table(coins: &[u16]) -> Game {
    let mut game = Game::new(Some(7));
    for _ in coins {
        assert!(game.add_player());
    }
    for (seat, amount) in coins.iter().enumerate() {
        game.players[seat].coins = *amount;
    }
    game
}

fn coins(game: &Game) -> Vec<u16> {
    game.players.iter().map(|player| player.coins).collect()
}

fn total(game: &Game) -> u32 {
    game.players.iter().map(|player| player.coins as u32).sum()
}

fn deal(game: &mut Game, seat: usize, cards: &[Card]) {
    for card in cards {
        game.players[seat].cards.push(OwnedCard { card: *card, bought_round: 0 });
    }
}

fn build(game: &mut Game, seat: usize, landmarks: &[Landmark]) {
    for landmark in landmarks {
        game.players[seat].landmarks.push(OwnedLandmark { landmark: *landmark, bought_round: 0 });
    }
}

#[test]
fn the_bank_pays_exactly_the_amount() {
    let mut game = table(&[5, 5, 9]);
    let before = total(&game);
    assert_eq!(game.get_coins_from_bank(1, 3), Ok(()));
    assert_eq!(coins(&game), vec![5, 8, 9]);
    assert_eq!(total(&game), before + 3);
    assert_eq!(game.get_coins_from_bank(2, 0), Ok(()));
    assert_eq!(coins(&game), vec![5, 8, 9]);
}

#[test]
fn a_payout_that_does_not_fit_is_refused() {
    let mut game = table(&[65535, 65530]);
    assert_eq!(game.get_coins_from_bank(0, 1), Err(CoinOverflow));
    assert_eq!(game.get_coins_from_bank(1, 6), Err(CoinOverflow));
    assert_eq!(coins(&game), vec![65535, 65530]);
    assert_eq!(game.get_coins_from_bank(1, 5), Ok(()));
    assert_eq!(coins(&game), vec![65535, 65535]);
}

#[test]
fn the_active_player_pays_the_owner() {
    let mut game = table(&[4, 9, 1]);
    assert_eq!(game.take_coins_from_active_player(1, 3), Ok(()));
    assert_eq!(coins(&game), vec![1, 12, 1]);
    assert_eq!(total(&game), 14);
}

#[test]
fn the_active_player_pays_no_more_than_the_balance() {
    let mut game = table(&[2, 9]);
    assert_eq!(game.take_coins_from_active_player(1, 3), Ok(()));
    assert_eq!(coins(&game), vec![0, 11]);
    assert_eq!(game.take_coins_from_active_player(1, 3), Ok(()));
    assert_eq!(coins(&game), vec![0, 11]);
}

#[test]
fn the_active_player_pays_nothing_to_itself() {
    let mut game = table(&[4, 9]);
    game.current_player = 1;
    assert_eq!(game.take_coins_from_active_player(1, 3), Ok(()));
    assert_eq!(coins(&game), vec![4, 9]);
}

#[test]
fn a_transfer_that_does_not_fit_is_refused() {
    let mut game = table(&[10, 65530]);
    assert_eq!(game.take_coins_from_active_player(1, 6), Err(CoinOverflow));
    assert_eq!(coins(&game), vec![10, 65530]);
    assert_eq!(game.take_coins_from_active_player(1, 5), Ok(()));
    assert_eq!(coins(&game), vec![5, 65535]);
}

#[test]
fn stadium_takes_three_from_each_opponent() {
    let mut game = table(&[10, 2, 5, 3]);
    assert_eq!(game.take_coins_from_each_opponent(0, 3), Ok(()));
    assert_eq!(coins(&game), vec![18, 0, 2, 0]);
    assert_eq!(total(&game), 20);
}

#[test]
fn an_owner_in_the_middle_takes_from_both_sides() {
    let mut game = table(&[1, 7, 4, 0]);
    assert_eq!(game.collectable(2, Levy::Flat(3)), 4);
    assert_eq!(game.take_coins_from_each_opponent(2, 3), Ok(()));
    assert_eq!(coins(&game), vec![0, 4, 8, 0]);
}

#[test]
fn a_collection_that_does_not_fit_is_refused() {
    let mut game = table(&[65533, 2, 5]);
    assert_eq!(game.take_coins_from_each_opponent(0, 3), Err(CoinOverflow));
    assert_eq!(coins(&game), vec![65533, 2, 5]);
    assert_eq!(game.take_coins_from_each_opponent(0, 1), Ok(()));
    assert_eq!(coins(&game), vec![65535, 1, 4]);
}

#[test]
fn shopping_district_takes_half_from_those_above_ten() {
    let mut game = table(&[0, 11, 10, 25]);
    assert_eq!(game.take_coins_from_opponents_with_more_than_10_coins(0), Ok(()));
    assert_eq!(coins(&game), vec![17, 6, 10, 13]);
}

#[test]
fn shopping_district_takes_nothing_from_exactly_ten() {
    let mut game = table(&[3, 10]);
    assert_eq!(game.take_coins_from_opponents_with_more_than_10_coins(0), Ok(()));
    assert_eq!(coins(&game), vec![3, 10]);
    let mut other = table(&[3, 11]);
    assert_eq!(other.take_coins_from_opponents_with_more_than_10_coins(0), Ok(()));
    assert_eq!(coins(&other), vec![8, 6]);
}

#[test]
fn the_bank_pays_for_each_card_of_a_category() {
    let mut game = table(&[5, 5]);
    deal(&mut game, 1, &[Card::FlowerGarden, Card::WheatField, Card::FlowerGarden]);
    deal(&mut game, 0, &[Card::FlowerGarden]);
    assert_eq!(
        game.get_coins_from_bank_for_each_card_category(1, 3, CardCategory::Flower),
        Ok(())
    );
    assert_eq!(coins(&game), vec![5, 11]);
    assert_eq!(game.get_coins_from_bank_for_each_card_category(1, 3, CardCategory::Cup), Ok(()));
    assert_eq!(coins(&game), vec![5, 11]);
}

#[test]
fn the_bank_pays_for_each_card_of_a_colour() {
    let mut game = table(&[5, 5]);
    deal(
        &mut game,
        0,
        &[Card::Bakery, Card::ConvenienceStore, Card::FurnitureFactory, Card::WheatField],
    );
    assert_eq!(game.get_coins_from_bank_for_each_card_color(0, 4, CardColor::Green), Ok(()));
    assert_eq!(coins(&game), vec![17, 5]);
}

#[test]
fn a_payout_per_card_that_does_not_fit_is_refused() {
    let mut game = table(&[65530, 5]);
    deal(&mut game, 0, &[Card::FlowerGarden, Card::FlowerGarden]);
    assert_eq!(
        game.get_coins_from_bank_for_each_card_category(0, 3, CardCategory::Flower),
        Err(CoinOverflow)
    );
    assert_eq!(
        game.get_coins_from_bank_for_each_card_category(0, 65535, CardCategory::Flower),
        Err(CoinOverflow)
    );
    assert_eq!(coins(&game), vec![65530, 5]);
    assert_eq!(
        game.get_coins_from_bank_for_each_card_color(0, 3, CardColor::Blue),
        Err(CoinOverflow)
    );
    assert_eq!(game.get_coins_from_bank_for_each_card_color(0, 2, CardColor::Blue), Ok(()));
    assert_eq!(coins(&game), vec![65534, 5]);
}

#[test]
fn coins_are_shared_out_evenly_and_rounded_up() {
    let mut game = table(&[1, 2, 4]);
    game.redistribute_coins_evenly();
    assert_eq!(coins(&game), vec![3, 3, 3]);
    let mut even = table(&[0, 8]);
    even.redistribute_coins_evenly();
    assert_eq!(coins(&even), vec![4, 4]);
    let mut full = table(&[65535, 65535, 65535, 65535]);
    full.redistribute_coins_evenly();
    assert_eq!(coins(&full), vec![65535, 65535, 65535, 65535]);
    let mut broke = table(&[0, 0]);
    broke.redistribute_coins_evenly();
    assert_eq!(coins(&broke), vec![0, 0]);
}

#[test]
fn three_coins_for_each_landmark_of_an_opponent() {
    let mut game = table(&[1, 10, 2, 10]);
    build(&mut game, 1, &[Landmark::Park]);
    build(&mut game, 2, &[Landmark::Temple]);
    build(&mut game, 3, &[Landmark::Forge, Landmark::Airport]);
    build(&mut game, 0, &[Landmark::Museum]);
    assert_eq!(game.take_coins_from_each_opponent_for_each_landmark(0), Ok(()));
    assert_eq!(coins(&game), vec![12, 7, 0, 4]);
}

#[test]
fn coins_for_each_card_of_a_category_of_an_opponent() {
    let mut game = table(&[0, 10, 1, 10]);
    deal(&mut game, 1, &[Card::Bakery, Card::ConvenienceStore, Card::Cafe]);
    deal(&mut game, 2, &[Card::Bakery, Card::Bakery]);
    deal(&mut game, 3, &[Card::Cafe]);
    deal(&mut game, 0, &[Card::Bakery]);
    assert_eq!(game.take_coins_from_each_opponent_for_each_card(0, 1, CardCategory::Bread), Ok(()));
    assert_eq!(coins(&game), vec![3, 8, 0, 10]);
    assert_eq!(game.take_coins_from_each_opponent_for_each_card(0, 4, CardCategory::Cup), Ok(()));
    assert_eq!(coins(&game), vec![11, 4, 0, 6]);
}

#[test]
fn what_a_player_pays_under_each_levy() {
    let mut game = table(&[21, 4]);
    deal(&mut game, 0, &[Card::Cafe, Card::SushiBar]);
    build(&mut game, 0, &[Landmark::Park, Landmark::Forge]);
    assert_eq!(Levy::Flat(7).paid_by_player(&game.players[0]), 7);
    assert_eq!(Levy::Flat(30).paid_by_player(&game.players[0]), 21);
    assert_eq!(Levy::HalfOfBalanceAboveTen.paid_by_player(&game.players[0]), 10);
    assert_eq!(Levy::HalfOfBalanceAboveTen.paid_by_player(&game.players[1]), 0);
    assert_eq!(Levy::PerLandmark(3).paid_by_player(&game.players[0]), 6);
    assert_eq!(Levy::PerLandmark(65535).paid_by_player(&game.players[0]), 21);
    assert_eq!(Levy::PerLandmark(3).paid_by_player(&game.players[1]), 0);
    assert_eq!(Levy::PerCardOfCategory(2, CardCategory::Cup).paid_by_player(&game.players[0]), 4);
    assert_eq!(Levy::PerCardOfCategory(2, CardCategory::Bread).paid_by_player(&game.players[0]), 0);
}

#[test]
fn an_exchange_swaps_the_cards_and_stamps_the_round() {
    let mut game = table(&[5, 5, 5]);
    game.players[0].cards = vec![
        OwnedCard { card: Card::WheatField, bought_round: 0 },
        OwnedCard { card: Card::Bakery, bought_round: 1 },
        OwnedCard { card: Card::Bakery, bought_round: 2 },
    ];
    game.players[2].cards = vec![OwnedCard { card: Card::Mine, bought_round: 1 }];
    game.current_turn = 9;
    assert_eq!(game.exchange_establishment(Card::Bakery, 2, Card::Mine), Ok(()));
    assert_eq!(
        game.players[0].cards,
        vec![
            OwnedCard { card: Card::WheatField, bought_round: 0 },
            OwnedCard { card: Card::Bakery, bought_round: 2 },
            OwnedCard { card: Card::Mine, bought_round: 3 },
        ]
    );
    assert_eq!(game.players[2].cards, vec![OwnedCard { card: Card::Bakery, bought_round: 3 }]);
    assert!(game.players[1].cards.is_empty());
    assert_eq!(coins(&game), vec![5, 5, 5]);
}

#[test]
fn an_exchange_that_cannot_be_made_is_refused() {
    let mut game = table(&[5, 5, 5]);
    deal(&mut game, 0, &[Card::WheatField]);
    deal(&mut game, 1, &[Card::Mine]);
    assert_eq!(
        game.exchange_establishment(Card::WheatField, 3, Card::Mine),
        Err(InvalidDecision::NoSuchOpponent)
    );
    assert_eq!(
        game.exchange_establishment(Card::WheatField, 0, Card::WheatField),
        Err(InvalidDecision::NoSuchOpponent)
    );
    assert_eq!(
        game.exchange_establishment(Card::Bakery, 1, Card::Mine),
        Err(InvalidDecision::NotOwned)
    );
    assert_eq!(
        game.exchange_establishment(Card::WheatField, 1, Card::Forest),
        Err(InvalidDecision::NotOwned)
    );
    assert_eq!(
        game.exchange_establishment(Card::WheatField, 2, Card::Mine),
        Err(InvalidDecision::NotOwned)
    );
    assert_eq!(game.players[0].cards, vec![OwnedCard { card: Card::WheatField, bought_round: 0 }]);
    assert_eq!(game.players[1].cards, vec![OwnedCard { card: Card::Mine, bought_round: 0 }]);
}

#[test]
fn a_gift_goes_to_the_seat_on_the_right() {
    let mut game = table(&[5, 5, 5]);
    deal(&mut game, 0, &[Card::WheatField, Card::Cafe]);
    deal(&mut game, 1, &[Card::Mine]);
    game.current_turn = 6;
    assert_eq!(game.give_establishment_to_right(Card::Cafe), Ok(()));
    assert_eq!(game.players[0].cards, vec![OwnedCard { card: Card::WheatField, bought_round: 0 }]);
    assert_eq!(game.players[2].cards, vec![OwnedCard { card: Card::Cafe, bought_round: 2 }]);
    game.current_player = 1;
    assert_eq!(game.give_establishment_to_right(Card::Mine), Ok(()));
    assert!(game.players[1].cards.is_empty());
    assert_eq!(
        game.players[0].cards,
        vec![
            OwnedCard { card: Card::WheatField, bought_round: 0 },
            OwnedCard { card: Card::Mine, bought_round: 2 },
        ]
    );
    assert_eq!(game.give_establishment_to_right(Card::Mine), Err(InvalidDecision::NotOwned));
}
