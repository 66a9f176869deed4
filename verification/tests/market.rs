use machi_koro::market::CardMarket;
use machi_koro::market::LandmarkMarket;
use machi_koro::market::Slot;
use machi_koro::models::card::Card;
use machi_koro::models::landmark::Landmark;

fn slot(tag: Card, count: u8) -> Slot<Card> {
    Slot { tag, count }
}

fn distinct(cards: &[Card]) -> usize {
    let mut seen: Vec<Card> = Vec::new();
    for card in cards {
        if !seen.contains(card) {
            seen.push(*card);
        }
    }
    seen.len()
}

#[test]
fn opening_a_market_shows_five_types_from_the_top_of_the_pile() {
    let market = CardMarket::open(vec![
        Card::WheatField,
        Card::WheatField,
        Card::Bakery,
        Card::Cafe,
        Card::Forest,
        Card::Mine,
        Card::Stadium,
    ]);
    assert_eq!(
        market.face_up,
        vec![
            slot(Card::Stadium, 1),
            slot(Card::Mine, 1),
            slot(Card::Forest, 1),
            slot(Card::Cafe, 1),
            slot(Card::Bakery, 1),
        ]
    );
    assert_eq!(market.deck, vec![Card::WheatField, Card::WheatField]);
}

#[test]
fn copies_of_a_shown_type_raise_its_count() {
    let market = CardMarket::open(vec![
        Card::Cafe,
        Card::Bakery,
        Card::Bakery,
        Card::Cafe,
        Card::Cafe,
    ]);
    assert_eq!(market.face_up, vec![slot(Card::Cafe, 3), slot(Card::Bakery, 2)]);
    assert!(market.deck.is_empty());
}

#[test]
fn a_market_shows_the_lesser_of_five_and_the_types_that_remain() {
    let piles: Vec<Vec<Card>> = vec![
        vec![],
        vec![Card::Cafe],
        vec![Card::Cafe, Card::Cafe, Card::Cafe],
        vec![Card::Cafe, Card::Bakery, Card::Forest, Card::Mine],
        vec![Card::Cafe, Card::Bakery, Card::Forest, Card::Mine, Card::Stadium],
        vec![
            Card::Cafe,
            Card::Bakery,
            Card::Forest,
            Card::Mine,
            Card::Stadium,
            Card::Winery,
            Card::Cafe,
        ],
    ];
    for pile in piles {
        let remaining = distinct(&pile);
        let market = CardMarket::open(pile);
        assert_eq!(market.face_up.len(), remaining.min(5));
    }
}

#[test]
fn the_invariant_holds_while_a_market_is_bought_empty() {
    let mut market = CardMarket::open(vec![
        Card::Cafe,
        Card::Bakery,
        Card::Forest,
        Card::Mine,
        Card::Stadium,
        Card::Winery,
        Card::Cafe,
        Card::Vineyard,
    ]);
    loop {
        let mut left: Vec<Card> = market.deck.clone();
        for shown in market.face_up.iter() {
            assert!(shown.count >= 1);
            left.push(shown.tag);
        }
        assert_eq!(market.face_up.len(), distinct(&left).min(5));
        if market.face_up.is_empty() {
            break;
        }
        let first = market.face_up[0].tag;
        assert!(market.remove(first));
    }
    assert!(market.deck.is_empty());
}

#[test]
fn refilling_twice_changes_nothing_more() {
    let mut market = CardMarket {
        deck: vec![
            Card::WheatField,
            Card::Bakery,
            Card::Cafe,
            Card::Cafe,
            Card::Forest,
            Card::Mine,
            Card::Stadium,
        ],
        face_up: vec![],
    };
    market.refill();
    let deck_after_one = market.deck.clone();
    let face_up_after_one = market.face_up.clone();
    assert_eq!(deck_after_one, vec![Card::WheatField]);
    assert_eq!(
        face_up_after_one,
        vec![
            slot(Card::Stadium, 1),
            slot(Card::Mine, 1),
            slot(Card::Forest, 1),
            slot(Card::Cafe, 2),
            slot(Card::Bakery, 1),
        ]
    );
    market.refill();
    assert_eq!(market.deck, deck_after_one);
    assert_eq!(market.face_up, face_up_after_one);
}

#[test]
fn refilling_an_exhausted_market_changes_nothing() {
    let mut market = CardMarket::open(vec![Card::Cafe, Card::Bakery]);
    assert_eq!(market.face_up.len(), 2);
    market.refill();
    assert_eq!(market.face_up, vec![slot(Card::Bakery, 1), slot(Card::Cafe, 1)]);
    assert!(market.deck.is_empty());
}

#[test]
fn taking_the_last_copy_drops_the_slot_and_refills() {
    let mut market = CardMarket::open(vec![
        Card::WheatField,
        Card::WheatField,
        Card::Bakery,
        Card::Cafe,
        Card::Forest,
        Card::Mine,
        Card::Stadium,
    ]);
    assert!(market.remove(Card::Stadium));
    assert_eq!(
        market.face_up,
        vec![
            slot(Card::Mine, 1),
            slot(Card::Forest, 1),
            slot(Card::Cafe, 1),
            slot(Card::Bakery, 1),
            slot(Card::WheatField, 1),
        ]
    );
    assert_eq!(market.deck, vec![Card::WheatField]);
}

#[test]
fn taking_one_of_several_copies_lowers_the_count() {
    let mut market = CardMarket::open(vec![Card::Cafe, Card::Bakery, Card::Cafe, Card::Cafe]);
    assert_eq!(market.face_up, vec![slot(Card::Cafe, 3), slot(Card::Bakery, 1)]);
    assert!(market.remove(Card::Cafe));
    assert_eq!(market.face_up, vec![slot(Card::Cafe, 2), slot(Card::Bakery, 1)]);
    assert!(market.remove(Card::Bakery));
    assert_eq!(market.face_up, vec![slot(Card::Cafe, 2)]);
}

#[test]
fn taking_what_is_not_shown_changes_nothing() {
    let mut market = CardMarket::open(vec![Card::Cafe, Card::Bakery]);
    assert!(!market.remove(Card::Mine));
    assert_eq!(market.face_up, vec![slot(Card::Bakery, 1), slot(Card::Cafe, 1)]);
    assert!(!market.shows(Card::Mine));
    assert!(market.shows(Card::Cafe));
    assert_eq!(market.position(Card::Cafe), Some(1));
    assert_eq!(market.position(Card::Mine), None);
}

#[test]
fn an_emptied_market_offers_nothing() {
    let mut market = CardMarket::open(vec![Card::Cafe]);
    assert!(market.remove(Card::Cafe));
    assert!(market.face_up.is_empty());
    assert!(market.deck.is_empty());
    assert!(!market.remove(Card::Cafe));
}

#[test]
fn the_landmark_market_shows_five_landmarks() {
    let mut market = LandmarkMarket::open(vec![
        Landmark::Airport,
        Landmark::Park,
        Landmark::Temple,
        Landmark::Forge,
        Landmark::Museum,
        Landmark::LaunchPad,
        Landmark::LoanOffice,
    ]);
    let shown: Vec<Landmark> = market.face_up.iter().map(|slot| slot.tag).collect();
    assert_eq!(
        shown,
        vec![
            Landmark::LoanOffice,
            Landmark::LaunchPad,
            Landmark::Museum,
            Landmark::Forge,
            Landmark::Temple,
        ]
    );
    assert!(market.face_up.iter().all(|slot| slot.count == 1));
    assert!(market.remove(Landmark::LaunchPad));
    let shown: Vec<Landmark> = market.face_up.iter().map(|slot| slot.tag).collect();
    assert_eq!(
        shown,
        vec![
            Landmark::LoanOffice,
            Landmark::Museum,
            Landmark::Forge,
            Landmark::Temple,
            Landmark::Park,
        ]
    );
    assert_eq!(market.deck, vec![Landmark::Airport]);
    assert!(!market.remove(Landmark::LaunchPad));
    market.refill();
    assert_eq!(market.deck, vec![Landmark::Airport]);
}
