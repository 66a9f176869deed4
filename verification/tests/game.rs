use machi_koro::game::Game;
use machi_koro::game::InvalidDecision;
use machi_koro::market::CardMarket;
use machi_koro::market::LandmarkMarket;
use machi_koro::market::Slot;
use machi_koro::models::card::Card;
use machi_koro::models::landmark::Landmark;
use machi_koro::models::player::OwnedCard;
use machi_koro::models::player::OwnedLandmark;

fn table(coins: &[u16]) -> Game {
    let mut game = Game::new(Some(7));
    for _ in coins {
        assert!(game.add_player());
    }
    for (seat, amount) in coins.iter().enumerate() {
        game.players[seat].coins = *amount;
    }
    game
}

fn build(game: &mut Game, seat: usize, landmark: Landmark) {
    game.players[seat].landmarks.push(OwnedLandmark { landmark, bought_round: 0 });
}

fn copies_in(market: &CardMarket) -> usize {
    market.deck.len() + market.face_up.iter().map(|slot| slot.count as usize).sum::<usize>()
}

#[test]
fn a_new_game_has_its_three_displays_filled() {
    let game = Game::new(Some(2024));
    assert_eq!(game.rng.seed(), 2024);
    assert!(game.players.is_empty());
    assert_eq!(game.current_player, 0);
    assert_eq!(game.current_turn, 0);
    assert!(game.active_landmarks.is_empty());
    assert!(!game.take_another_turn);
    assert_eq!(game.less_than_7.face_up.len(), 5);
    assert_eq!(game.greater_than_6.face_up.len(), 5);
    assert_eq!(game.landmarks.face_up.len(), 5);
    assert_eq!(copies_in(&game.less_than_7), 46);
    assert_eq!(copies_in(&game.greater_than_6), 40);
    assert_eq!(game.landmarks.deck.len(), 15);
    assert!(game.less_than_7.deck.iter().all(|card| card.is_low()));
    assert!(game.less_than_7.face_up.iter().all(|slot| slot.tag.is_low()));
    assert!(game.greater_than_6.deck.iter().all(|card| card.is_high()));
    assert!(game.greater_than_6.face_up.iter().all(|slot| slot.tag.is_high()));
    assert!(game.winner().is_none());
}

#[test]
fn the_same_seed_gives_the_same_decks() {
    let first = Game::new(Some(99));
    let second = Game::new(Some(99));
    assert_eq!(first.less_than_7.deck, second.less_than_7.deck);
    assert_eq!(first.less_than_7.face_up, second.less_than_7.face_up);
    assert_eq!(first.greater_than_6.deck, second.greater_than_6.deck);
    assert_eq!(first.greater_than_6.face_up, second.greater_than_6.face_up);
    assert_eq!(first.landmarks.deck, second.landmarks.deck);
    assert_eq!(first.landmarks.face_up, second.landmarks.face_up);
}

#[test]
fn a_game_without_a_seed_remembers_the_seed_it_drew() {
    let game = Game::new(None);
    let replay = Game::new(Some(game.rng.seed()));
    assert_eq!(game.less_than_7.deck, replay.less_than_7.deck);
    assert_eq!(game.landmarks.face_up, replay.landmarks.face_up);
}

#[test]
fn the_shuffle_does_not_leave_the_low_deck_in_catalog_order() {
    let game = Game::new(Some(5));
    let mut all: Vec<Card> = game.less_than_7.deck.clone();
    for slot in game.less_than_7.face_up.iter() {
        for _ in 0..slot.count {
            all.push(slot.tag);
        }
    }
    let unshuffled = machi_koro::rules::card::build_less_than_7_deck();
    assert_eq!(all.len(), unshuffled.len());
    assert_ne!(game.less_than_7.deck[..], unshuffled[..game.less_than_7.deck.len()]);
    for card in Card::all() {
        assert_eq!(
            all.iter().filter(|other| **other == card).count(),
            unshuffled.iter().filter(|other| **other == card).count()
        );
    }
}

#[test]
fn a_fifth_player_is_refused() {
    let mut game = Game::new(Some(1));
    for seats in 1..=4 {
        assert!(game.add_player());
        assert_eq!(game.players.len(), seats);
        assert_eq!(game.players[seats - 1].coins, 5);
    }
    assert!(!game.add_player());
    assert_eq!(game.players.len(), 4);
}

#[test]
fn the_round_is_the_turn_divided_by_the_players() {
    let mut game = table(&[5, 5, 5]);
    assert_eq!(game.get_round(), 0);
    game.current_turn = 7;
    assert_eq!(game.get_round(), 2);
    assert_eq!(game.current_round_stamp(), 2);
    game.current_turn = 9;
    assert_eq!(game.get_round(), 3);
    game.current_turn = 3 * 300;
    assert_eq!(game.get_round(), 300);
    assert_eq!(game.current_round_stamp(), 44);
}

#[test]
fn the_turn_passes_round_the_table() {
    let mut game = table(&[5, 5, 5]);
    let mut seats: Vec<usize> = Vec::new();
    for _ in 0..7 {
        seats.push(game.current_player);
        game.advance_turn();
    }
    assert_eq!(seats, vec![0, 1, 2, 0, 1, 2, 0]);
    assert_eq!(game.current_turn, 7);
    assert_eq!(game.current_player, 1);
}

#[test]
fn another_turn_keeps_the_player_and_the_turn_count() {
    let mut game = table(&[5, 5, 5]);
    game.current_player = 2;
    game.current_turn = 5;
    game.take_another_turn = true;
    game.advance_turn();
    assert_eq!(game.current_player, 2);
    assert_eq!(game.current_turn, 5);
    assert!(!game.take_another_turn);
    game.advance_turn();
    assert_eq!(game.current_player, 0);
    assert_eq!(game.current_turn, 6);
}

#[test]
fn the_other_players_are_walked_backwards() {
    let mut game = table(&[5, 5, 5, 5]);
    game.current_player = 1;
    assert_eq!(game.other_players_reverse(), vec![0, 3, 2]);
    game.current_player = 0;
    assert_eq!(game.other_players_reverse(), vec![3, 2, 1]);
    game.current_player = 3;
    assert_eq!(game.other_players_reverse(), vec![2, 1, 0]);
    let mut pair = table(&[5, 5]);
    pair.current_player = 1;
    assert_eq!(pair.other_players_reverse(), vec![0]);
}

#[test]
fn the_winner_is_the_lowest_seat_that_has_won() {
    let mut game = table(&[5, 5, 5]);
    assert_eq!(game.winner(), None);
    build(&mut game, 2, Landmark::LaunchPad);
    assert_eq!(game.winner(), Some(2));
    build(&mut game, 1, Landmark::Park);
    build(&mut game, 1, Landmark::Museum);
    assert_eq!(game.winner(), Some(2));
    build(&mut game, 1, Landmark::Temple);
    assert_eq!(game.winner(), Some(1));
}

#[test]
fn buying_a_card_takes_it_from_the_display() {
    let mut game = table(&[5, 5]);
    game.less_than_7 = CardMarket::open(vec![Card::Cafe, Card::Forest, Card::Forest]);
    game.greater_than_6 = CardMarket::open(vec![Card::Mine]);
    game.current_turn = 5;
    game.current_player = 1;
    assert_eq!(game.buy_card(Card::Forest), Ok(()));
    assert_eq!(game.players[1].coins, 2);
    assert_eq!(game.players[1].cards, vec![OwnedCard { card: Card::Forest, bought_round: 2 }]);
    assert_eq!(
        game.less_than_7.face_up,
        vec![Slot { tag: Card::Forest, count: 1 }, Slot { tag: Card::Cafe, count: 1 }]
    );
    assert_eq!(game.players[0].coins, 5);
    assert!(game.players[0].cards.is_empty());
}

#[test]
fn buying_from_the_high_display() {
    let mut game = table(&[5, 5]);
    game.less_than_7 = CardMarket::open(vec![Card::Cafe]);
    game.greater_than_6 = CardMarket::open(vec![Card::Mine, Card::Stadium]);
    assert_eq!(game.buy_card(Card::Mine), Ok(()));
    assert_eq!(game.players[0].coins, 1);
    assert_eq!(game.greater_than_6.face_up, vec![Slot { tag: Card::Stadium, count: 1 }]);
    assert_eq!(game.less_than_7.face_up, vec![Slot { tag: Card::Cafe, count: 1 }]);
}

#[test]
fn a_card_that_is_not_shown_or_too_dear_is_refused() {
    let mut game = table(&[3, 5]);
    game.less_than_7 = CardMarket::open(vec![Card::Cafe]);
    game.greater_than_6 = CardMarket::open(vec![Card::Mine]);
    assert_eq!(game.buy_card(Card::Forest), Err(InvalidDecision::NotOnDisplay));
    assert_eq!(game.buy_card(Card::Mine), Err(InvalidDecision::NotAffordable));
    assert_eq!(game.players[0].coins, 3);
    assert!(game.players[0].cards.is_empty());
    assert_eq!(game.greater_than_6.face_up, vec![Slot { tag: Card::Mine, count: 1 }]);
    assert!(game.current_player_can_afford_card(&Card::Cafe));
    assert!(!game.current_player_can_afford_card(&Card::Mine));
}

#[test]
fn building_an_infinite_landmark_makes_it_active() {
    let mut game = table(&[30, 5]);
    game.landmarks = LandmarkMarket::open(vec![Landmark::Park, Landmark::Temple]);
    game.current_turn = 8;
    assert_eq!(game.buy_landmark(Landmark::Temple), Ok(()));
    assert_eq!(game.players[0].coins, 18);
    assert_eq!(
        game.players[0].landmarks,
        vec![OwnedLandmark { landmark: Landmark::Temple, bought_round: 4 }]
    );
    assert_eq!(game.active_landmarks, vec![Landmark::Temple]);
    assert!(game.is_active(Landmark::Temple));
    assert_eq!(game.landmarks.face_up, vec![Slot { tag: Landmark::Park, count: 1 }]);
    assert_eq!(game.buy_landmark(Landmark::Park), Ok(()));
    assert_eq!(game.players[0].coins, 2);
    assert_eq!(game.active_landmarks, vec![Landmark::Temple]);
    assert!(!game.is_active(Landmark::Park));
    assert!(game.landmarks.face_up.is_empty());
}

#[test]
fn a_landmark_that_is_not_shown_or_too_dear_is_refused() {
    let mut game = table(&[11, 5]);
    game.landmarks = LandmarkMarket::open(vec![Landmark::Park, Landmark::Publisher]);
    assert_eq!(game.buy_landmark(Landmark::Temple), Err(InvalidDecision::NotOnDisplay));
    assert_eq!(game.buy_landmark(Landmark::Park), Err(InvalidDecision::NotAffordable));
    assert_eq!(game.players[0].coins, 11);
    assert!(game.players[0].landmarks.is_empty());
    assert_eq!(game.buy_landmark(Landmark::Publisher), Ok(()));
    assert_eq!(game.players[0].coins, 1);
}

#[test]
fn the_loan_office_is_for_the_only_player_without_a_landmark() {
    let mut game = table(&[20, 20, 20]);
    game.landmarks = LandmarkMarket::open(vec![Landmark::LoanOffice, Landmark::Park]);
    assert!(!game.current_player_can_afford_landmark(&Landmark::LoanOffice));
    assert!(game.current_player_can_afford_landmark(&Landmark::Park));
    build(&mut game, 1, Landmark::Temple);
    assert!(!game.current_player_can_afford_landmark(&Landmark::LoanOffice));
    assert_eq!(game.buy_landmark(Landmark::LoanOffice), Err(InvalidDecision::NotAffordable));
    build(&mut game, 2, Landmark::Forge);
    assert!(game.current_player_can_afford_landmark(&Landmark::LoanOffice));
    game.current_player = 1;
    assert!(!game.current_player_can_afford_landmark(&Landmark::LoanOffice));
    game.current_player = 0;
    assert_eq!(game.buy_landmark(Landmark::LoanOffice), Ok(()));
    assert_eq!(game.players[0].coins, 10);
    assert_eq!(game.active_landmarks, vec![Landmark::LoanOffice]);
}

#[test]
fn refilling_the_displays_of_a_game_twice_changes_nothing_more() {
    let mut game = table(&[5, 5]);
    game.less_than_7 = CardMarket {
        deck: vec![Card::Cafe, Card::Bakery, Card::Forest, Card::Cafe],
        face_up: vec![Slot { tag: Card::WheatField, count: 2 }],
    };
    game.refill_face_up_cards();
    let low = game.less_than_7.clone();
    let high = game.greater_than_6.clone();
    let landmarks = game.landmarks.clone();
    assert_eq!(
        low.face_up,
        vec![
            Slot { tag: Card::WheatField, count: 2 },
            Slot { tag: Card::Cafe, count: 2 },
            Slot { tag: Card::Forest, count: 1 },
            Slot { tag: Card::Bakery, count: 1 },
        ]
    );
    game.refill_face_up_cards();
    assert_eq!(game.less_than_7.deck, low.deck);
    assert_eq!(game.less_than_7.face_up, low.face_up);
    assert_eq!(game.greater_than_6.deck, high.deck);
    assert_eq!(game.greater_than_6.face_up, high.face_up);
    assert_eq!(game.landmarks.deck, landmarks.deck);
    assert_eq!(game.landmarks.face_up, landmarks.face_up);
}

#[test]
fn dice_show_one_to_six() {
    let mut game = table(&[5, 5]);
    let mut seen = [false; 7];
    for _ in 0..600 {
        let face = game.roll_one_die();
        assert!((1..=6).contains(&face));
        seen[face as usize] = true;
        let (first, second) = game.roll_two_dice();
        assert!((1..=6).contains(&first));
        assert!((1..=6).contains(&second));
    }
    assert!(seen[1..].iter().all(|face| *face));
}
