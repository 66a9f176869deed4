use crate::game::Game;
use crate::game::GameView;
use crate::models::card::Card;
use crate::models::card::CardCategory;
use crate::models::card::CardEffect;
use crate::models::landmark::lemma_capability_table_is_consistent;
use crate::models::landmark::LandmarkHook;
use crate::models::player::count_category;
use crate::models::player::count_color;
use crate::models::player::total_earnings_bonus;
use crate::player_strategies::player_strategy::ExchangeEstablishmentDecision;
use crate::player_strategies::player_strategy::PlayerStrategy;
use crate::rules::game_helpers::capped;
use crate::rules::game_helpers::collected;
use crate::rules::game_helpers::CoinOverflow;
use crate::rules::game_helpers::Levy;
use crate::rules::landmark::get_card_earnings_bonus;
use vstd::prelude::*;

verus! {

/// One line of the deck composition: an establishment type and the number of
/// copies of it in the game.
#[derive(Clone, Copy, Debug, PartialEq, Eq, Structural)]
pub struct DeckEntry {
    pub card: Card,
    pub copies: u8,
}

/// The most copies that the game holds of one establishment type.
pub const MAX_COPIES: u8 = 5;

/// The establishments of the game with their numbers of copies, in catalog
/// order.
pub open spec fn spec_deck_composition() -> Seq<DeckEntry> {
    seq![
        DeckEntry { card: Card::SushiBar, copies: 5 },
        DeckEntry { card: Card::WheatField, copies: 5 },
        DeckEntry { card: Card::Vineyard, copies: 5 },
        DeckEntry { card: Card::Bakery, copies: 5 },
        DeckEntry { card: Card::Cafe, copies: 5 },
        DeckEntry { card: Card::FlowerGarden, copies: 5 },
        DeckEntry { card: Card::ConvenienceStore, copies: 5 },
        DeckEntry { card: Card::Forest, copies: 5 },
        DeckEntry { card: Card::CornField, copies: 5 },
        DeckEntry { card: Card::HamburgerStand, copies: 5 },
        DeckEntry { card: Card::FamilyRestaurant, copies: 5 },
        DeckEntry { card: Card::AppleOrchard, copies: 5 },
        DeckEntry { card: Card::Mine, copies: 5 },
        DeckEntry { card: Card::FlowerShop, copies: 3 },
        DeckEntry { card: Card::BusinessCenter, copies: 3 },
        DeckEntry { card: Card::Stadium, copies: 3 },
        DeckEntry { card: Card::FurnitureFactory, copies: 3 },
        DeckEntry { card: Card::ShoppingDistrict, copies: 3 },
        DeckEntry { card: Card::Winery, copies: 3 },
        DeckEntry { card: Card::FoodWarehouse, copies: 3 },
    ]
}

/// The establishments of the game with their numbers of copies.
pub fn deck_composition() -> (entries: Vec<DeckEntry>)
    ensures
        entries@ == spec_deck_composition(),
{
    let entries: Vec<DeckEntry> = vec![
        DeckEntry { card: Card::SushiBar, copies: 5 },
        DeckEntry { card: Card::WheatField, copies: 5 },
        DeckEntry { card: Card::Vineyard, copies: 5 },
        DeckEntry { card: Card::Bakery, copies: 5 },
        DeckEntry { card: Card::Cafe, copies: 5 },
        DeckEntry { card: Card::FlowerGarden, copies: 5 },
        DeckEntry { card: Card::ConvenienceStore, copies: 5 },
        DeckEntry { card: Card::Forest, copies: 5 },
        DeckEntry { card: Card::CornField, copies: 5 },
        DeckEntry { card: Card::HamburgerStand, copies: 5 },
        DeckEntry { card: Card::FamilyRestaurant, copies: 5 },
        DeckEntry { card: Card::AppleOrchard, copies: 5 },
        DeckEntry { card: Card::Mine, copies: 5 },
        DeckEntry { card: Card::FlowerShop, copies: 3 },
        DeckEntry { card: Card::BusinessCenter, copies: 3 },
        DeckEntry { card: Card::Stadium, copies: 3 },
        DeckEntry { card: Card::FurnitureFactory, copies: 3 },
        DeckEntry { card: Card::ShoppingDistrict, copies: 3 },
        DeckEntry { card: Card::Winery, copies: 3 },
        DeckEntry { card: Card::FoodWarehouse, copies: 3 },
    ];
    assert(entries@ =~= spec_deck_composition());
    entries
}

/// The establishment belongs to the deck asked for: the high deck if `high`,
/// else the low deck.
pub open spec fn in_deck(card: Card, high: bool) -> bool {
    if high {
        card.spec_is_high()
    } else {
        card.spec_is_low()
    }
}

/// The unshuffled deck made of `entries`: each entry that belongs to the deck
/// asked for, in order, as many times as it has copies.
pub open spec fn deck_of(entries: Seq<DeckEntry>, high: bool) -> Seq<Card>
    decreases entries.len(),
{
    if entries.len() == 0 {
        Seq::empty()
    } else {
        let last = entries.last();
        let before = deck_of(entries.drop_last(), high);
        if in_deck(last.card, high) {
            before + Seq::new(last.copies as nat, |i: int| last.card)
        } else {
            before
        }
    }
}

/// A deck is no longer than all the copies of its entries.
proof fn lemma_deck_of_len(entries: Seq<DeckEntry>, high: bool)
    requires
        forall|i: int| 0 <= i < entries.len() ==> (#[trigger] entries[i]).copies <= MAX_COPIES,
    ensures
        deck_of(entries, high).len() <= MAX_COPIES * entries.len(),
    decreases entries.len(),
{
    if entries.len() > 0 {
        let rest = entries.drop_last();
        assert forall|i: int| 0 <= i < rest.len() implies (#[trigger] rest[i]).copies <= MAX_COPIES by {
            assert(rest[i] == entries[i]);
        }
        lemma_deck_of_len(rest, high);
        assert(entries[entries.len() - 1].copies <= MAX_COPIES);
    }
}

/// Every card of a deck belongs to that deck.
proof fn lemma_deck_of_members(entries: Seq<DeckEntry>, high: bool, i: int)
    requires
        0 <= i < deck_of(entries, high).len(),
    ensures
        in_deck(deck_of(entries, high)[i], high),
        exists|k: int| 0 <= k < entries.len() && (#[trigger] entries[k]).card == deck_of(entries, high)[i],
    decreases entries.len(),
{
    if entries.len() > 0 {
        let rest = entries.drop_last();
        let before = deck_of(rest, high);
        if i < before.len() {
            lemma_deck_of_members(rest, high, i);
            let k = choose|k: int| 0 <= k < rest.len() && (#[trigger] rest[k]).card == before[i];
            assert(entries[k].card == deck_of(entries, high)[i]);
        } else {
            assert(entries[entries.len() - 1].card == deck_of(entries, high)[i]);
        }
    }
}

/// The unshuffled deck asked for: the high deck if `high`, else the low one.
fn build_deck(high: bool) -> (deck: Vec<Card>)
    ensures
        deck@ == deck_of(spec_deck_composition(), high),
        deck@.len() <= 100,
        forall|i: int| 0 <= i < deck@.len() ==> in_deck(#[trigger] deck@[i], high),
{
    let entries: Vec<DeckEntry> = deck_composition();
    let mut deck: Vec<Card> = Vec::new();
    let mut i: usize = 0;
    while i < entries.len()
        invariant
            entries@ == spec_deck_composition(),
            i <= entries@.len(),
            deck@ == deck_of(entries@.take(i as int), high),
        decreases entries.len() - i,
    {
        let entry: DeckEntry = entries[i];
        proof {
            let next = entries@.take(i + 1);
            assert(next.drop_last() == entries@.take(i as int));
            assert(next.last() == entry);
        }
        let belongs: bool = if high {
            entry.card.is_high()
        } else {
            entry.card.is_low()
        };
        if belongs {
            let ghost before = deck@;
            let mut copy: u8 = 0;
            while copy < entry.copies
                invariant
                    copy <= entry.copies,
                    deck@ == before + Seq::new(copy as nat, |k: int| entry.card),
                decreases entry.copies - copy,
            {
                deck.push(entry.card);
                copy = copy + 1;
                assert(deck@ == before + Seq::new(copy as nat, |k: int| entry.card));
            }
        }
        i = i + 1;
    }
    proof {
        assert(entries@.take(entries@.len() as int) == entries@);
        lemma_deck_of_len(spec_deck_composition(), high);
        assert forall|i: int| 0 <= i < deck@.len() implies in_deck(#[trigger] deck@[i], high) by {
            lemma_deck_of_members(spec_deck_composition(), high, i);
        }
    }
    deck
}

/// The unshuffled low deck: every copy of the establishments that fire only on
/// sums up to 6.
pub fn build_less_than_7_deck() -> (deck: Vec<Card>)
    ensures
        deck@ == deck_of(spec_deck_composition(), false),
        deck@.len() <= 100,
        forall|i: int| 0 <= i < deck@.len() ==> (#[trigger] deck@[i]).spec_is_low(),
{
    build_deck(false)
}

/// The unshuffled high deck: every copy of the establishments that fire only
/// on sums above 6.
pub fn build_greater_than_6_deck() -> (deck: Vec<Card>)
    ensures
        deck@ == deck_of(spec_deck_composition(), true),
        deck@.len() <= 100,
        forall|i: int| 0 <= i < deck@.len() ==> (#[trigger] deck@[i]).spec_is_high(),
{
    build_deck(true)
}

impl GameView {
    /// What the landmarks of the player in seat `owner` add to the earnings of
    /// an activated establishment of `category`.
    pub open spec fn earnings_bonus(self, owner: int, category: CardCategory) -> int {
        total_earnings_bonus(self.players[owner].landmarks, category)
    }

    /// The exchange decided can be made.
    pub open spec fn exchange_decision_is_valid(self, decision: ExchangeEstablishmentDecision) -> bool {
        decision matches ExchangeEstablishmentDecision::Exchange(card, opponent, opponent_card)
            && self.exchange_is_valid(card, opponent as int, opponent_card)
    }

    /// The state after an exchange decision has been carried out. A decision
    /// that cannot be carried out counts as a decision not to exchange.
    pub open spec fn with_exchange_decision(self, decision: ExchangeEstablishmentDecision) -> GameView {
        match decision {
            ExchangeEstablishmentDecision::Exchange(card, opponent, opponent_card) => {
                if self.exchange_is_valid(card, opponent as int, opponent_card) {
                    self.with_exchange(card, opponent as int, opponent_card)
                } else {
                    self
                }
            },
            ExchangeEstablishmentDecision::NoExchange => self,
        }
    }

    /// The coins that the player in seat `owner` gains when `card` fires for
    /// that player.
    pub open spec fn card_gain(self, card: Card, owner: int) -> int {
        let def = card.spec_def();
        let seats = self.players.len() as int;
        match def.effect {
            CardEffect::GetCoinsFromBank(amount) => amount + self.earnings_bonus(owner, def.category),
            CardEffect::TakeCoinsFromActivePlayer(amount) => if owner == self.current_player {
                0
            } else {
                capped(amount + self.earnings_bonus(owner, def.category), self.current().coins)
            },
            CardEffect::TakeCoinsFromEachOpponent(amount) => collected(
                self.players,
                owner,
                Levy::Flat(amount),
                seats,
            ),
            CardEffect::TakeCoinsFromEachOpponentWithMoreThan10Coins => collected(
                self.players,
                owner,
                Levy::HalfOfBalanceAboveTen,
                seats,
            ),
            CardEffect::GetCoinsFromBankForEachCardCategory(amount, category) => amount
                * count_category(self.players[owner].cards, category),
            CardEffect::GetCoinsFromBankForEachCardColor(amount, color) => amount * count_color(
                self.players[owner].cards,
                color,
            ),
            CardEffect::ExchangeEstablishment => 0,
        }
    }

    /// The balance of the player in seat `owner` has room for what `card`
    /// earns.
    pub open spec fn card_effect_fits(self, card: Card, owner: int) -> bool {
        self.players[owner].coins + self.card_gain(card, owner) <= u16::MAX
    }

    /// The state after `card` has fired for the player in seat `owner`. An
    /// establishment that earns a plain amount earns more by what the owner's
    /// landmarks add for its category. `exchange` is what the current player
    /// has decided, and is read only if the establishment lets that player
    /// exchange one.
    pub open spec fn with_card_effect(
        self,
        card: Card,
        owner: int,
        exchange: ExchangeEstablishmentDecision,
    ) -> GameView {
        let def = card.spec_def();
        match def.effect {
            CardEffect::GetCoinsFromBank(amount) => self.with_bank_payout(
                owner,
                amount + self.earnings_bonus(owner, def.category),
            ),
            CardEffect::TakeCoinsFromActivePlayer(amount) => self.with_transfer(
                self.current_player,
                owner,
                amount + self.earnings_bonus(owner, def.category),
            ),
            CardEffect::TakeCoinsFromEachOpponent(amount) => self.with_collection(
                owner,
                Levy::Flat(amount),
            ),
            CardEffect::TakeCoinsFromEachOpponentWithMoreThan10Coins => self.with_collection(
                owner,
                Levy::HalfOfBalanceAboveTen,
            ),
            CardEffect::GetCoinsFromBankForEachCardCategory(amount, category) => self.with_bank_payout(
                owner,
                amount * count_category(self.players[owner].cards, category),
            ),
            CardEffect::GetCoinsFromBankForEachCardColor(amount, color) => self.with_bank_payout(
                owner,
                amount * count_color(self.players[owner].cards, color),
            ),
            CardEffect::ExchangeEstablishment => self.with_exchange_decision(exchange),
        }
    }
}

/// What the landmarks of the player in seat `owner_index` add to the earnings
/// of an activated establishment of `category`.
pub fn earnings_bonus(game: &Game, owner_index: usize, category: CardCategory) -> (bonus: usize)
    requires
        game@.has_seat(owner_index as int),
    ensures
        bonus as int == game@.earnings_bonus(owner_index as int, category),
{
    let owner = &game.players[owner_index];
    let mut bonus: usize = 0;
    let mut i: usize = 0;
    while i < owner.landmarks.len()
        invariant
            i <= owner.landmarks@.len(),
            bonus <= i,
            bonus as int == total_earnings_bonus(owner.landmarks@.take(i as int), category),
        decreases owner.landmarks.len() - i,
    {
        let landmark = owner.landmarks[i].landmark;
        proof {
            let next = owner.landmarks@.take(i + 1);
            assert(next.drop_last() == owner.landmarks@.take(i as int));
            assert(next.last() == owner.landmarks@[i as int]);
            lemma_capability_table_is_consistent(landmark);
        }
        if landmark.hook() == LandmarkHook::EarningsBonus {
            bonus = bonus + get_card_earnings_bonus(landmark, category) as usize;
        }
        i = i + 1;
    }
    proof {
        assert(owner.landmarks@.take(owner.landmarks@.len() as int) == owner.landmarks@);
    }
    bonus
}

/// Carries out an exchange decision. One that cannot be carried out counts as
/// a decision not to exchange.
pub fn resolve_exchange(game: &mut Game, decision: ExchangeEstablishmentDecision) -> (exchanged: bool)
    requires
        old(game)@.seated(),
    ensures
        final(game).wf(),
        exchanged == old(game)@.exchange_decision_is_valid(decision),
        final(game)@ == old(game)@.with_exchange_decision(decision),
{
    match decision {
        ExchangeEstablishmentDecision::Exchange(card, opponent_index, opponent_card) => {
            game.exchange_establishment(card, opponent_index, opponent_card).is_ok()
        },
        ExchangeEstablishmentDecision::NoExchange => false,
    }
}

/// `card` fires for the player in seat `owner_index`, with `exchange` as the
/// current player's answer where the establishment asks for one. Nothing
/// happens, and the error is returned, if the owner's balance has no room for
/// what the establishment earns.
pub fn resolve_card_effect(
    card: Card,
    game: &mut Game,
    owner_index: usize,
    exchange: ExchangeEstablishmentDecision,
) -> (result: Result<(), CoinOverflow>)
    requires
        old(game)@.seated(),
        old(game)@.has_seat(owner_index as int),
    ensures
        final(game).wf(),
        result is Ok <==> old(game)@.card_effect_fits(card, owner_index as int),
        result is Ok ==> final(game)@ == old(game)@.with_card_effect(
            card,
            owner_index as int,
            exchange,
        ),
        result is Err ==> final(game)@ == old(game)@,
{
    let def = card.def();
    match def.effect {
        CardEffect::GetCoinsFromBank(amount) => {
            let bonus: usize = earnings_bonus(game, owner_index, def.category);
            if bonus > (u16::MAX - amount) as usize {
                return Err(CoinOverflow);
            }
            game.get_coins_from_bank(owner_index, amount + bonus as u16)
        },
        CardEffect::TakeCoinsFromActivePlayer(amount) => {
            let bonus: usize = earnings_bonus(game, owner_index, def.category);
            let wanted: u16 = if bonus > (u16::MAX - amount) as usize {
                u16::MAX
            } else {
                amount + bonus as u16
            };
            proof {
                let payer = game@.current();
                assert(capped(wanted as int, payer.coins) == capped(amount + bonus, payer.coins));
            }
            game.take_coins_from_active_player(owner_index, wanted)
        },
        CardEffect::TakeCoinsFromEachOpponent(amount) => {
            game.take_coins_from_each_opponent(owner_index, amount)
        },
        CardEffect::TakeCoinsFromEachOpponentWithMoreThan10Coins => {
            game.take_coins_from_opponents_with_more_than_10_coins(owner_index)
        },
        CardEffect::GetCoinsFromBankForEachCardCategory(amount, category) => {
            game.get_coins_from_bank_for_each_card_category(owner_index, amount, category)
        },
        CardEffect::GetCoinsFromBankForEachCardColor(amount, color) => {
            game.get_coins_from_bank_for_each_card_color(owner_index, amount, color)
        },
        CardEffect::ExchangeEstablishment => {
            resolve_exchange(game, exchange);
            Ok(())
        },
    }
}

/// `card` fires for the player in seat `owner_index`. Where the establishment
/// lets the current player exchange one, `strategy` is asked what to do.
pub fn activate_card<S: PlayerStrategy + ?Sized>(
    card: Card,
    game: &mut Game,
    owner_index: usize,
    strategy: &mut S,
) -> (result: Result<(), CoinOverflow>)
    requires
        old(game)@.seated(),
        old(game)@.has_seat(owner_index as int),
    ensures
        final(game).wf(),
        result is Ok <==> old(game)@.card_effect_fits(card, owner_index as int),
        result is Ok ==> exists|exchange: ExchangeEstablishmentDecision|
            final(game)@ == #[trigger] old(game)@.with_card_effect(card, owner_index as int, exchange),
        result is Ok && card.spec_def().effect != CardEffect::ExchangeEstablishment ==> final(game)@
            == old(game)@.with_card_effect(
            card,
            owner_index as int,
            ExchangeEstablishmentDecision::NoExchange,
        ),
        result is Err ==> final(game)@ == old(game)@,
{
    let exchange: ExchangeEstablishmentDecision = match card.def().effect {
        CardEffect::ExchangeEstablishment => strategy.decide_exchange_establishment(game),
        _ => ExchangeEstablishmentDecision::NoExchange,
    };
    resolve_card_effect(card, game, owner_index, exchange)
}

} // verus!
