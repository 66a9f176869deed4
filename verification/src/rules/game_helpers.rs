use crate::game::Game;
use crate::game::GameView;
use crate::game::InvalidDecision;
use crate::game::round_stamp;
use crate::models::card::Card;
use crate::models::card::CardCategory;
use crate::models::card::CardColor;
use crate::models::player::count_category;
use crate::models::player::count_color;
use crate::models::player::first_position;
use crate::models::player::OwnedCard;
use crate::models::player::Player;
use crate::models::player::PlayerView;
use vstd::prelude::*;

verus! {

/// A gain from the bank that the owner's balance has no room for.
#[derive(Clone, Copy, Debug, PartialEq, Eq, Structural)]
pub struct CoinOverflow;

/// What an owner demands of each opponent.
#[derive(Clone, Copy, Debug, PartialEq, Eq, Structural)]
pub enum Levy {
    /// The same amount of everyone.
    Flat(u16),
    /// Half the balance, rounded down, of those with more than ten coins.
    HalfOfBalanceAboveTen,
    /// An amount for each landmark that the opponent has built.
    PerLandmark(u16),
    /// An amount for each establishment of a category that the opponent holds.
    PerCardOfCategory(u16, CardCategory),
}

impl Levy {
    /// The coins demanded of `payer`.
    pub open spec fn due(self, payer: PlayerView) -> int {
        match self {
            Levy::Flat(amount) => amount as int,
            Levy::HalfOfBalanceAboveTen => if payer.coins > 10 {
                payer.coins / 2
            } else {
                0
            },
            Levy::PerLandmark(amount) => amount * payer.landmarks.len(),
            Levy::PerCardOfCategory(amount, category) => amount * count_category(
                payer.cards,
                category,
            ),
        }
    }

    /// The coins that `payer` hands over: what is demanded, or the whole
    /// balance if that is less. What is missing is not owed.
    pub open spec fn paid_by(self, payer: PlayerView) -> int {
        capped(self.due(payer), payer.coins)
    }
}

/// `amount`, or `balance` if that is less.
pub open spec fn capped(amount: int, balance: int) -> int {
    if amount <= balance {
        amount
    } else {
        balance
    }
}

/// The coins that the players before seat `upto`, but for the owner, hand over
/// under `levy`.
pub open spec fn collected(players: Seq<PlayerView>, owner: int, levy: Levy, upto: int) -> int
    decreases upto,
{
    if upto <= 0 {
        0
    } else {
        collected(players, owner, levy, upto - 1) + if upto - 1 != owner {
            levy.paid_by(players[upto - 1])
        } else {
            0
        }
    }
}

/// The coins of the players before seat `upto`, added up.
pub open spec fn total_coins(players: Seq<PlayerView>, upto: int) -> int
    decreases upto,
{
    if upto <= 0 {
        0
    } else {
        total_coins(players, upto - 1) + players[upto - 1].coins
    }
}

/// `total` coins shared out evenly among `count` players, rounded up.
pub open spec fn even_share(total: int, count: int) -> int {
    (total + count - 1) / count
}

impl GameView {
    /// `index` is a seat at the table.
    pub open spec fn has_seat(self, index: int) -> bool {
        0 <= index < self.players.len()
    }

    /// All the coins that the players hold.
    pub open spec fn coins_in_play(self) -> int {
        total_coins(self.players, self.players.len() as int)
    }

    /// The state after `owner` has had `amount` coins from the bank.
    pub open spec fn with_bank_payout(self, owner: int, amount: int) -> GameView {
        self.with_player(owner, self.players[owner].with_coins_added(amount))
    }

    /// The state after `from` has paid `to` the lesser of `amount` and the
    /// balance of `from`.
    pub open spec fn with_transfer(self, from: int, to: int, amount: int) -> GameView {
        let moved = capped(amount, self.players[from].coins);
        let debited = self.with_player(from, self.players[from].with_coins_added(-moved));
        debited.with_player(to, debited.players[to].with_coins_added(moved))
    }

    /// The state after every opponent of `owner` has paid `owner` what `levy`
    /// demands, as far as the opponent's balance goes.
    pub open spec fn with_collection(self, owner: int, levy: Levy) -> GameView {
        self.with_players(
            Seq::new(
                self.players.len(),
                |i: int|
                    if i == owner {
                        self.players[i].with_coins_added(
                            collected(self.players, owner, levy, self.players.len() as int),
                        )
                    } else {
                        self.players[i].with_coins_added(-levy.paid_by(self.players[i]))
                    },
            ),
        )
    }

    /// The state after all coins in play have been shared out evenly, rounded
    /// up.
    pub open spec fn with_even_split(self) -> GameView {
        let share = even_share(self.coins_in_play(), self.players.len() as int);
        self.with_players(
            Seq::new(self.players.len(), |i: int| PlayerView { coins: share, ..self.players[i] }),
        )
    }

    /// The state after the first establishment of type `card` in the hand of
    /// `from` has moved to the end of the hand of `to`, stamped with the
    /// current round.
    pub open spec fn with_card_moved(self, from: int, to: int, card: Card) -> GameView {
        let giver = self.players[from];
        let taken = self.with_player(
            from,
            PlayerView { cards: giver.cards.remove(first_position(giver.cards, card)), ..giver },
        );
        let receiver = taken.players[to];
        taken.with_player(
            to,
            PlayerView {
                cards: receiver.cards.push(
                    OwnedCard { card, bought_round: round_stamp(self.round()) },
                ),
                ..receiver
            },
        )
    }

    /// The seat to the right of the current player.
    pub open spec fn seat_to_the_right(self) -> int {
        (self.players.len() + self.current_player - 1) % (self.players.len() as int)
    }

    /// The exchange named can be made: the opponent is another player, the
    /// current player holds `card` and the opponent holds `opponent_card`.
    pub open spec fn exchange_is_valid(self, card: Card, opponent: int, opponent_card: Card) -> bool {
        &&& self.has_seat(opponent)
        &&& opponent != self.current_player
        &&& self.current().owns_card(card)
        &&& self.players[opponent].owns_card(opponent_card)
    }

    /// The state after the current player has given `card` to `opponent` and
    /// has had `opponent_card` in return.
    pub open spec fn with_exchange(self, card: Card, opponent: int, opponent_card: Card) -> GameView {
        self.with_card_moved(self.current_player, opponent, card).with_card_moved(
            opponent,
            self.current_player,
            opponent_card,
        )
    }
}

/// Changing one balance changes the coins in play by as much.
proof fn lemma_total_coins_update(players: Seq<PlayerView>, index: int, amount: int, upto: int)
    requires
        0 <= index < players.len(),
        0 <= upto <= players.len(),
    ensures
        total_coins(players.update(index, players[index].with_coins_added(amount)), upto)
            == total_coins(players, upto) + if index < upto {
            amount
        } else {
            0
        },
    decreases upto,
{
    if upto > 0 {
        lemma_total_coins_update(players, index, amount, upto - 1);
    }
}

/// Coin conservation under a payout from the bank: the coins in play grow by
/// exactly the amount paid out.
pub proof fn lemma_bank_payout_adds_exactly(game: GameView, owner: int, amount: int)
    requires
        game.has_seat(owner),
    ensures
        game.with_bank_payout(owner, amount).coins_in_play() == game.coins_in_play() + amount,
        game.with_bank_payout(owner, amount).players[owner].coins == game.players[owner].coins
            + amount,
{
    lemma_total_coins_update(game.players, owner, amount, game.players.len() as int);
}

/// Coin conservation under a transfer: the payer loses the lesser of the
/// amount and the payer's balance, the receiver gains as much, and so the two
/// balances together, and the coins in play, stay what they were.
pub proof fn lemma_transfer_conserves_coins(game: GameView, from: int, to: int, amount: int)
    requires
        game.has_seat(from),
        game.has_seat(to),
        from != to,
        0 <= amount,
        0 <= game.players[from].coins,
    ensures
        game.with_transfer(from, to, amount).players[from].coins == game.players[from].coins
            - capped(amount, game.players[from].coins),
        game.with_transfer(from, to, amount).players[to].coins == game.players[to].coins + capped(
            amount,
            game.players[from].coins,
        ),
        game.with_transfer(from, to, amount).players[from].coins + game.with_transfer(
            from,
            to,
            amount,
        ).players[to].coins == game.players[from].coins + game.players[to].coins,
        game.with_transfer(from, to, amount).coins_in_play() == game.coins_in_play(),
        0 <= game.with_transfer(from, to, amount).players[from].coins,
{
    let moved = capped(amount, game.players[from].coins);
    let debited = game.with_player(from, game.players[from].with_coins_added(-moved));
    lemma_total_coins_update(game.players, from, -moved, game.players.len() as int);
    lemma_total_coins_update(debited.players, to, moved, game.players.len() as int);
}

/// The coins of the first seats after a collection: what they were, less what
/// those seats paid, and with all that was collected if the owner sits among
/// them.
proof fn lemma_collection_totals(game: GameView, owner: int, levy: Levy, upto: int)
    requires
        0 <= upto <= game.players.len(),
    ensures
        total_coins(game.with_collection(owner, levy).players, upto) == total_coins(
            game.players,
            upto,
        ) - collected(game.players, owner, levy, upto) + if 0 <= owner < upto {
            collected(game.players, owner, levy, game.players.len() as int)
        } else {
            0
        },
    decreases upto,
{
    if upto > 0 {
        lemma_collection_totals(game, owner, levy, upto - 1);
    }
}

/// Coin conservation under a collection: what the owner takes in is what the
/// opponents pay, so the coins in play stay what they were.
pub proof fn lemma_collection_conserves_coins(game: GameView, owner: int, levy: Levy)
    requires
        game.has_seat(owner),
    ensures
        game.with_collection(owner, levy).coins_in_play() == game.coins_in_play(),
{
    lemma_collection_totals(game, owner, levy, game.players.len() as int);
}

/// A transfer from a player to that same player changes nothing.
pub proof fn lemma_transfer_to_self_is_noop(game: GameView, seat: int, amount: int)
    requires
        game.has_seat(seat),
    ensures
        game.with_transfer(seat, seat, amount) == game,
{
    let after = game.with_transfer(seat, seat, amount);
    assert(after.players =~= game.players);
}

/// The seat to the right is the seat before, round the table.
pub(crate) proof fn lemma_seat_to_the_right(current: int, count: int)
    requires
        0 <= current < count,
    ensures
        (count + current - 1) % count == if current == 0 {
            count - 1
        } else {
            current - 1
        },
{
    if current == 0 {
        vstd::arithmetic::div_mod::lemma_fundamental_div_mod_converse(
            count + current - 1,
            count,
            0,
            count - 1,
        );
    } else {
        vstd::arithmetic::div_mod::lemma_fundamental_div_mod_converse(
            count + current - 1,
            count,
            1,
            current - 1,
        );
    }
}

/// `amount` times `count`, if that fits sixteen bits.
fn checked_product(amount: u16, count: usize) -> (product: Option<u16>)
    ensures
        product is Some <==> amount * count <= u16::MAX,
        product matches Some(p) ==> p as int == amount * count,
{
    if amount == 0 {
        assert(amount * count == 0) by (nonlinear_arith)
            requires
                amount == 0,
        ;
        return Some(0);
    }
    if count > 0xffff {
        assert(amount * count > u16::MAX) by (nonlinear_arith)
            requires
                amount >= 1,
                count > 0xffff,
        ;
        return None;
    }
    assert(amount * count <= 0xffff * 0xffff) by (nonlinear_arith)
        requires
            0 <= amount <= 0xffff,
            0 <= count <= 0xffff,
    ;
    let wide: u64 = (amount as u64) * (count as u64);
    if wide > 0xffff {
        None
    } else {
        Some(wide as u16)
    }
}

impl Levy {
    /// The coins that `payer` hands over under the levy.
    pub fn paid_by_player(&self, payer: &Player) -> (paid: u16)
        ensures
            paid as int == self.paid_by(payer@),
    {
        let due: Option<u16> = match self {
            Levy::Flat(amount) => Some(*amount),
            Levy::HalfOfBalanceAboveTen => if payer.coins > 10 {
                Some(payer.coins / 2)
            } else {
                Some(0)
            },
            Levy::PerLandmark(amount) => checked_product(*amount, payer.landmarks.len()),
            Levy::PerCardOfCategory(amount, category) => checked_product(
                *amount,
                payer.count_category(*category),
            ),
        };
        match due {
            Some(d) => if d <= payer.coins {
                d
            } else {
                payer.coins
            },
            None => payer.coins,
        }
    }
}

impl Game {
    /// Sets the balance of the player in seat `index`.
    fn set_coins(&mut self, index: usize, coins: u16)
        requires
            old(self)@.has_seat(index as int),
        ensures
            final(self)@ == old(self)@.with_player(
                index as int,
                PlayerView { coins: coins as int, ..old(self)@.players[index as int] },
            ),
            old(self).wf() ==> final(self).wf(),
    {
        self.players[index].coins = coins;
        assert(self@.players =~= old(self)@.players.update(
            index as int,
            PlayerView { coins: coins as int, ..old(self)@.players[index as int] },
        ));
    }

    /// The coins that the opponents of `owner_index` would hand over under
    /// `levy`.
    pub fn collectable(&self, owner_index: usize, levy: Levy) -> (total: u32)
        requires
            self.wf(),
        ensures
            total as int == collected(self@.players, owner_index as int, levy, self@.players.len() as int),
    {
        let mut total: u32 = 0;
        let mut i: usize = 0;
        while i < self.players.len()
            invariant
                self.wf(),
                i <= self.players@.len(),
                total as int == collected(self@.players, owner_index as int, levy, i as int),
                total <= u16::MAX * i,
            decreases self.players.len() - i,
        {
            if i != owner_index {
                let paid: u16 = levy.paid_by_player(&self.players[i]);
                total = total + paid as u32;
            }
            i = i + 1;
        }
        total
    }

    /// Every opponent of `owner_index` pays the owner what `levy` demands, as
    /// far as the opponent's balance goes. Nothing happens, and the error is
    /// returned, if the owner's balance has no room for what would be
    /// collected.
    pub fn collect_from_opponents(&mut self, owner_index: usize, levy: Levy) -> (result: Result<
        (),
        CoinOverflow,
    >)
        requires
            old(self).wf(),
            old(self)@.has_seat(owner_index as int),
        ensures
            final(self).wf(),
            result is Ok <==> old(self)@.players[owner_index as int].coins + collected(
                old(self)@.players,
                owner_index as int,
                levy,
                old(self)@.players.len() as int,
            ) <= u16::MAX,
            result is Ok ==> final(self)@ == old(self)@.with_collection(owner_index as int, levy),
            result is Err ==> final(self)@ == old(self)@,
            final(self)@.coins_in_play() == old(self)@.coins_in_play(),
    {
        proof {
            lemma_collection_conserves_coins(self@, owner_index as int, levy);
        }
        let total: u32 = self.collectable(owner_index, levy);
        let balance: u16 = self.players[owner_index].coins;
        if total > (u16::MAX - balance) as u32 {
            return Err(CoinOverflow);
        }
        let ghost before = self@;
        let mut i: usize = 0;
        while i < self.players.len()
            invariant
                before == old(self)@,
                before.wf(),
                before.has_seat(owner_index as int),
                self.wf(),
                i <= self.players@.len(),
                self@.with_players(before.players) == before,
                self@.players.len() == before.players.len(),
                forall|j: int|
                    0 <= j < before.players.len() ==> #[trigger] self@.players[j] == if j < i && j
                        != owner_index {
                        before.players[j].with_coins_added(-levy.paid_by(before.players[j]))
                    } else {
                        before.players[j]
                    },
            decreases self.players.len() - i,
        {
            if i != owner_index {
                let paid: u16 = levy.paid_by_player(&self.players[i]);
                let coins: u16 = self.players[i].coins;
                self.set_coins(i, coins - paid);
            }
            i = i + 1;
        }
        self.set_coins(owner_index, balance + total as u16);
        assert(self@.players =~= before.with_collection(owner_index as int, levy).players);
        Ok(())
    }

    /// The owner gets `amount` coins from the bank. Nothing happens, and the
    /// error is returned, if the owner's balance has no room for them.
    pub fn get_coins_from_bank(&mut self, owner_index: usize, amount: u16) -> (result: Result<
        (),
        CoinOverflow,
    >)
        requires
            old(self).wf(),
            old(self)@.has_seat(owner_index as int),
        ensures
            final(self).wf(),
            result is Ok <==> old(self)@.players[owner_index as int].coins + amount <= u16::MAX,
            result is Ok ==> final(self)@ == old(self)@.with_bank_payout(
                owner_index as int,
                amount as int,
            ),
            result is Ok ==> final(self)@.coins_in_play() == old(self)@.coins_in_play() + amount,
            result is Err ==> final(self)@ == old(self)@,
    {
        let balance: u16 = self.players[owner_index].coins;
        if amount > u16::MAX - balance {
            return Err(CoinOverflow);
        }
        self.set_coins(owner_index, balance + amount);
        proof {
            lemma_bank_payout_adds_exactly(old(self)@, owner_index as int, amount as int);
        }
        Ok(())
    }

    /// The owner gets `amount` coins from the bank for each establishment of
    /// `category` in the owner's hand.
    pub fn get_coins_from_bank_for_each_card_category(
        &mut self,
        owner_index: usize,
        amount: u16,
        category: CardCategory,
    ) -> (result: Result<(), CoinOverflow>)
        requires
            old(self).wf(),
            old(self)@.has_seat(owner_index as int),
        ensures
            final(self).wf(),
            result is Ok <==> old(self)@.players[owner_index as int].coins + amount * count_category(
                old(self)@.players[owner_index as int].cards,
                category,
            ) <= u16::MAX,
            result is Ok ==> final(self)@ == old(self)@.with_bank_payout(
                owner_index as int,
                amount * count_category(old(self)@.players[owner_index as int].cards, category),
            ),
            result is Err ==> final(self)@ == old(self)@,
    {
        let count: usize = self.players[owner_index].count_category(category);
        match checked_product(amount, count) {
            Some(gain) => self.get_coins_from_bank(owner_index, gain),
            None => {
                assert(0 <= old(self)@.players[owner_index as int].coins);
                Err(CoinOverflow)
            },
        }
    }

    /// The owner gets `amount` coins from the bank for each establishment of
    /// `color` in the owner's hand.
    pub fn get_coins_from_bank_for_each_card_color(
        &mut self,
        owner_index: usize,
        amount: u16,
        color: CardColor,
    ) -> (result: Result<(), CoinOverflow>)
        requires
            old(self).wf(),
            old(self)@.has_seat(owner_index as int),
        ensures
            final(self).wf(),
            result is Ok <==> old(self)@.players[owner_index as int].coins + amount * count_color(
                old(self)@.players[owner_index as int].cards,
                color,
            ) <= u16::MAX,
            result is Ok ==> final(self)@ == old(self)@.with_bank_payout(
                owner_index as int,
                amount * count_color(old(self)@.players[owner_index as int].cards, color),
            ),
            result is Err ==> final(self)@ == old(self)@,
    {
        let count: usize = self.players[owner_index].count_color(color);
        match checked_product(amount, count) {
            Some(gain) => self.get_coins_from_bank(owner_index, gain),
            None => {
                assert(0 <= old(self)@.players[owner_index as int].coins);
                Err(CoinOverflow)
            },
        }
    }

    /// All coins in play are shared out evenly among the players, rounded up.
    pub fn redistribute_coins_evenly(&mut self)
        requires
            old(self)@.seated(),
        ensures
            final(self).wf(),
            final(self)@ == old(self)@.with_even_split(),
    {
        let ghost before = self@;
        let count: usize = self.players.len();
        let mut total: u32 = 0;
        let mut i: usize = 0;
        while i < count
            invariant
                self@ == before,
                before.wf(),
                count == before.players.len(),
                i <= count,
                total as int == total_coins(before.players, i as int),
                total <= u16::MAX * i,
            decreases count - i,
        {
            total = total + self.players[i].coins as u32;
            i = i + 1;
        }
        let share: u32 = (total + count as u32 - 1) / (count as u32);
        proof {
            lemma_even_share_fits(total as int, count as int);
        }
        let mut k: usize = 0;
        while k < count
            invariant
                before.wf(),
                self.wf(),
                count == before.players.len(),
                k <= count,
                share <= u16::MAX,
                self@.with_players(before.players) == before,
                self@.players.len() == before.players.len(),
                forall|j: int|
                    0 <= j < before.players.len() ==> #[trigger] self@.players[j] == if j < k {
                        PlayerView { coins: share as int, ..before.players[j] }
                    } else {
                        before.players[j]
                    },
            decreases count - k,
        {
            self.set_coins(k, share as u16);
            k = k + 1;
        }
        assert(self@.players =~= before.with_even_split().players);
    }

    /// Moves the first establishment of type `card_to_move` in the hand of
    /// `from_index` to the end of the hand of `to_index`, stamped with the
    /// current round.
    fn move_cards_between_players(&mut self, from_index: usize, to_index: usize, card_to_move: Card)
        requires
            old(self)@.seated(),
            old(self)@.has_seat(from_index as int),
            old(self)@.has_seat(to_index as int),
            old(self)@.players[from_index as int].owns_card(card_to_move),
        ensures
            final(self).wf(),
            final(self)@ == old(self)@.with_card_moved(
                from_index as int,
                to_index as int,
                card_to_move,
            ),
    {
        let bought_round: u8 = self.current_round_stamp();
        match self.players[from_index].card_position(card_to_move) {
            Some(card_index) => {
                self.players[from_index].cards.remove(card_index);
            },
            None => {},
        }
        let ghost taken = self@;
        assert(taken.players =~= old(self)@.players.update(
            from_index as int,
            PlayerView {
                cards: old(self)@.players[from_index as int].cards.remove(
                    first_position(old(self)@.players[from_index as int].cards, card_to_move),
                ),
                ..old(self)@.players[from_index as int]
            },
        ));
        self.players[to_index].cards.push(OwnedCard { card: card_to_move, bought_round });
        assert(self@.players =~= old(self)@.with_card_moved(
            from_index as int,
            to_index as int,
            card_to_move,
        ).players);
    }

    /// The current player gives `card` to the player in seat `opponent_index`
    /// and has `opponent_card` in return. Both establishments are stamped with
    /// the current round. Nothing happens, and the reason is returned, if the
    /// opponent is no other player or either does not hold the establishment
    /// named.
    pub fn exchange_establishment(
        &mut self,
        card: Card,
        opponent_index: usize,
        opponent_card: Card,
    ) -> (result: Result<(), InvalidDecision>)
        requires
            old(self)@.seated(),
        ensures
            final(self).wf(),
            result is Ok <==> old(self)@.exchange_is_valid(card, opponent_index as int, opponent_card),
            result is Ok ==> final(self)@ == old(self)@.with_exchange(
                card,
                opponent_index as int,
                opponent_card,
            ),
            result is Err ==> final(self)@ == old(self)@,
            result == Err::<(), InvalidDecision>(InvalidDecision::NoSuchOpponent)
                <==> !old(self)@.has_seat(opponent_index as int)
                || opponent_index == old(self)@.current_player,
    {
        let active: usize = self.current_player;
        if opponent_index >= self.players.len() || opponent_index == active {
            return Err(InvalidDecision::NoSuchOpponent);
        }
        if self.players[active].card_position(card).is_none() {
            return Err(InvalidDecision::NotOwned);
        }
        if self.players[opponent_index].card_position(opponent_card).is_none() {
            return Err(InvalidDecision::NotOwned);
        }
        self.move_cards_between_players(active, opponent_index, card);
        proof {
            let holder = old(self)@.players[opponent_index as int];
            lemma_first_position_after_push(
                holder.cards,
                opponent_card,
                OwnedCard { card, bought_round: round_stamp(old(self)@.round()) },
            );
            crate::models::player::lemma_first_position(holder.cards, opponent_card);
            let i = first_position(holder.cards, opponent_card);
            assert(self@.players[opponent_index as int].cards == holder.cards.push(
                OwnedCard { card, bought_round: round_stamp(old(self)@.round()) },
            ));
            assert(self@.players[opponent_index as int].cards[i].card == opponent_card);
        }
        self.move_cards_between_players(opponent_index, active, opponent_card);
        Ok(())
    }

    /// The current player gives `card` to the player in the seat to the right,
    /// stamped with the current round. Nothing happens, and the reason is
    /// returned, if the current player does not hold it.
    pub fn give_establishment_to_right(&mut self, card: Card) -> (result: Result<(), InvalidDecision>)
        requires
            old(self)@.seated(),
        ensures
            final(self).wf(),
            result is Ok <==> old(self)@.current().owns_card(card),
            result is Ok ==> final(self)@ == old(self)@.with_card_moved(
                old(self)@.current_player,
                old(self)@.seat_to_the_right(),
                card,
            ),
            result is Err ==> final(self)@ == old(self)@ && result == Err::<(), InvalidDecision>(
                InvalidDecision::NotOwned,
            ),
    {
        let active: usize = self.current_player;
        if self.players[active].card_position(card).is_none() {
            return Err(InvalidDecision::NotOwned);
        }
        let right: usize = if active == 0 {
            self.players.len() - 1
        } else {
            active - 1
        };
        proof {
            lemma_seat_to_the_right(active as int, self@.players.len() as int);
        }
        self.move_cards_between_players(active, right, card);
        Ok(())
    }

    /// The owner takes `amount` coins from the player whose turn it is, or all
    /// that player has. Nothing happens if the owner is that player.
    pub fn take_coins_from_active_player(&mut self, owner_index: usize, amount: u16) -> (result:
        Result<(), CoinOverflow>)
        requires
            old(self)@.seated(),
            old(self)@.has_seat(owner_index as int),
        ensures
            final(self).wf(),
            result is Ok <==> owner_index == old(self)@.current_player
                || old(self)@.players[owner_index as int].coins
                + capped(amount as int, old(self)@.current().coins)
                <= u16::MAX,
            result is Ok ==> final(self)@ == old(self)@.with_transfer(
                old(self)@.current_player,
                owner_index as int,
                amount as int,
            ),
            result is Err ==> final(self)@ == old(self)@,
            final(self)@.coins_in_play() == old(self)@.coins_in_play(),
            result is Ok && owner_index != old(self)@.current_player ==> {
                let paid = capped(amount as int, old(self)@.current().coins);
                &&& final(self)@.current().coins == old(self)@.current().coins - paid
                &&& final(self)@.players[owner_index as int].coins
                    == old(self)@.players[owner_index as int].coins + paid
            },
    {
        proof {
            if owner_index != self@.current_player {
                lemma_transfer_conserves_coins(
                    self@,
                    self@.current_player,
                    owner_index as int,
                    amount as int,
                );
            }
        }
        let active: usize = self.current_player;
        if active == owner_index {
            proof {
                lemma_transfer_to_self_is_noop(self@, active as int, amount as int);
            }
            return Ok(());
        }
        let from_coins: u16 = self.players[active].coins;
        let to_coins: u16 = self.players[owner_index].coins;
        let coins_to_move: u16 = if amount <= from_coins {
            amount
        } else {
            from_coins
        };
        if coins_to_move > u16::MAX - to_coins {
            return Err(CoinOverflow);
        }
        self.set_coins(active, from_coins - coins_to_move);
        self.set_coins(owner_index, to_coins + coins_to_move);
        Ok(())
    }

    /// The owner takes `amount` coins from every other player, or all that
    /// player has.
    pub fn take_coins_from_each_opponent(&mut self, owner_index: usize, amount: u16) -> (result:
        Result<(), CoinOverflow>)
        requires
            old(self).wf(),
            old(self)@.has_seat(owner_index as int),
        ensures
            final(self).wf(),
            result is Ok <==> old(self)@.players[owner_index as int].coins + collected(
                old(self)@.players,
                owner_index as int,
                Levy::Flat(amount),
                old(self)@.players.len() as int,
            ) <= u16::MAX,
            result is Ok ==> final(self)@ == old(self)@.with_collection(
                owner_index as int,
                Levy::Flat(amount),
            ),
            result is Err ==> final(self)@ == old(self)@,
            final(self)@.coins_in_play() == old(self)@.coins_in_play(),
    {
        self.collect_from_opponents(owner_index, Levy::Flat(amount))
    }

    /// The owner takes half the coins, rounded down, of every other player who
    /// has more than ten.
    pub fn take_coins_from_opponents_with_more_than_10_coins(&mut self, owner_index: usize) -> (result:
        Result<(), CoinOverflow>)
        requires
            old(self).wf(),
            old(self)@.has_seat(owner_index as int),
        ensures
            final(self).wf(),
            result is Ok <==> old(self)@.players[owner_index as int].coins + collected(
                old(self)@.players,
                owner_index as int,
                Levy::HalfOfBalanceAboveTen,
                old(self)@.players.len() as int,
            ) <= u16::MAX,
            result is Ok ==> final(self)@ == old(self)@.with_collection(
                owner_index as int,
                Levy::HalfOfBalanceAboveTen,
            ),
            result is Err ==> final(self)@ == old(self)@,
            final(self)@.coins_in_play() == old(self)@.coins_in_play(),
    {
        self.collect_from_opponents(owner_index, Levy::HalfOfBalanceAboveTen)
    }

    /// The owner takes three coins from every other player for each landmark
    /// that player has built, or all that player has.
    pub fn take_coins_from_each_opponent_for_each_landmark(&mut self, owner_index: usize) -> (result:
        Result<(), CoinOverflow>)
        requires
            old(self).wf(),
            old(self)@.has_seat(owner_index as int),
        ensures
            final(self).wf(),
            result is Ok <==> old(self)@.players[owner_index as int].coins + collected(
                old(self)@.players,
                owner_index as int,
                Levy::PerLandmark(3),
                old(self)@.players.len() as int,
            ) <= u16::MAX,
            result is Ok ==> final(self)@ == old(self)@.with_collection(
                owner_index as int,
                Levy::PerLandmark(3),
            ),
            result is Err ==> final(self)@ == old(self)@,
            final(self)@.coins_in_play() == old(self)@.coins_in_play(),
    {
        self.collect_from_opponents(owner_index, Levy::PerLandmark(3))
    }

    /// The owner takes `amount` coins from every other player for each
    /// establishment of `category` in that player's hand, or all that player
    /// has.
    pub fn take_coins_from_each_opponent_for_each_card(
        &mut self,
        owner_index: usize,
        amount: u16,
        category: CardCategory,
    ) -> (result: Result<(), CoinOverflow>)
        requires
            old(self).wf(),
            old(self)@.has_seat(owner_index as int),
        ensures
            final(self).wf(),
            result is Ok <==> old(self)@.players[owner_index as int].coins + collected(
                old(self)@.players,
                owner_index as int,
                Levy::PerCardOfCategory(amount, category),
                old(self)@.players.len() as int,
            ) <= u16::MAX,
            result is Ok ==> final(self)@ == old(self)@.with_collection(
                owner_index as int,
                Levy::PerCardOfCategory(amount, category),
            ),
            result is Err ==> final(self)@ == old(self)@,
            final(self)@.coins_in_play() == old(self)@.coins_in_play(),
    {
        self.collect_from_opponents(owner_index, Levy::PerCardOfCategory(amount, category))
    }
}

/// A player who holds an establishment still holds it, at the same first
/// position, after another has been put at the end of the hand.
proof fn lemma_first_position_after_push(cards: Seq<OwnedCard>, card: Card, added: OwnedCard)
    requires
        exists|i: int| 0 <= i < cards.len() && (#[trigger] cards[i]).card == card,
    ensures
        first_position(cards.push(added), card) == first_position(cards, card),
        first_position(cards, card) < cards.len(),
    decreases cards.len(),
{
    let i = choose|i: int| 0 <= i < cards.len() && (#[trigger] cards[i]).card == card;
    if cards[0].card != card {
        let rest = cards.drop_first();
        assert(rest[i - 1] == cards[i]);
        lemma_first_position_after_push(rest, card, added);
        assert(cards.push(added).drop_first() =~= rest.push(added));
    }
}

/// An even share of at most four full balances fits one balance.
proof fn lemma_even_share_fits(total: int, count: int)
    requires
        0 < count,
        0 <= total <= u16::MAX * count,
    ensures
        0 <= even_share(total, count) <= u16::MAX,
{
    assert((total + count - 1) / count <= u16::MAX) by (nonlinear_arith)
        requires
            0 < count,
            0 <= total <= 65535 * count,
    ;
    assert(0 <= (total + count - 1) / count) by (nonlinear_arith)
        requires
            0 < count,
            0 <= total,
    ;
}

} // verus!
