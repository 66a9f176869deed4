use crate::engine::Engine;
use crate::models::player::OwnedCard;
use vstd::prelude::*;

verus! {

/// What is kept of a match that has been won.
pub struct GameResult {
    /// The hand of every player, by seat.
    pub player_cards: Vec<Vec<OwnedCard>>,
    pub winner_index: usize,
    /// The rolls of every player, by seat: the number of dice and the round.
    pub player_dice_rolls: Vec<Vec<(u8, u8)>>,
}

impl GameResult {
    /// The hands, by seat.
    pub open spec fn hands(&self) -> Seq<Seq<OwnedCard>> {
        self.player_cards@.map_values(|hand: Vec<OwnedCard>| hand@)
    }

    /// The rolls, by seat.
    pub open spec fn rolls(&self) -> Seq<Seq<(u8, u8)>> {
        self.player_dice_rolls@.map_values(|rolls: Vec<(u8, u8)>| rolls@)
    }
}

/// A copy of `hand`.
fn copy_hand(hand: &Vec<OwnedCard>) -> (copy: Vec<OwnedCard>)
    ensures
        copy@ == hand@,
{
    let mut copy: Vec<OwnedCard> = Vec::new();
    let mut i: usize = 0;
    while i < hand.len()
        invariant
            i <= hand@.len(),
            copy@ == hand@.take(i as int),
        decreases hand.len() - i,
    {
        copy.push(hand[i]);
        assert(copy@ =~= hand@.take(i + 1));
        i = i + 1;
    }
    assert(hand@.take(hand@.len() as int) == hand@);
    copy
}

/// A copy of `rolls`.
fn copy_rolls(rolls: &Vec<(u8, u8)>) -> (copy: Vec<(u8, u8)>)
    ensures
        copy@ == rolls@,
{
    let mut copy: Vec<(u8, u8)> = Vec::new();
    let mut i: usize = 0;
    while i < rolls.len()
        invariant
            i <= rolls@.len(),
            copy@ == rolls@.take(i as int),
        decreases rolls.len() - i,
    {
        copy.push(rolls[i]);
        assert(copy@ =~= rolls@.take(i + 1));
        i = i + 1;
    }
    assert(rolls@.take(rolls@.len() as int) == rolls@);
    copy
}

impl Engine {
    /// The result of the match, if it has been won: the winner's seat and
    /// every player's hand and rolls as they stand.
    pub fn collect_data_for_simulation(&self) -> (result: Option<GameResult>)
        ensures
            result is Some <==> self.game@.winner() is Some,
            result matches Some(data) ==> {
                &&& self.game@.winner() == Some(data.winner_index as int)
                &&& data.winner_index < self.game@.players.len()
                &&& data.hands().len() == self.game@.players.len()
                &&& data.rolls().len() == self.game@.players.len()
                &&& forall|i: int|
                    0 <= i < self.game@.players.len() ==> #[trigger] data.hands()[i]
                        == self.game@.players[i].cards
                &&& forall|i: int|
                    0 <= i < self.game@.players.len() ==> #[trigger] data.rolls()[i]
                        == self.game@.players[i].dice_rolls
            },
    {
        let winner_index: usize = match self.game.winner() {
            Some(winner) => winner,
            None => {
                return None;
            },
        };
        let mut player_cards: Vec<Vec<OwnedCard>> = Vec::new();
        let mut player_dice_rolls: Vec<Vec<(u8, u8)>> = Vec::new();
        let mut i: usize = 0;
        while i < self.game.players.len()
            invariant
                i <= self.game.players@.len(),
                player_cards@.len() == i,
                player_dice_rolls@.len() == i,
                forall|k: int| 0 <= k < i ==> (#[trigger] player_cards@[k])@ == self.game@.players[k].cards,
                forall|k: int|
                    0 <= k < i ==> (#[trigger] player_dice_rolls@[k])@
                        == self.game@.players[k].dice_rolls,
            decreases self.game.players.len() - i,
        {
            player_cards.push(copy_hand(&self.game.players[i].cards));
            player_dice_rolls.push(copy_rolls(&self.game.players[i].dice_rolls));
            i = i + 1;
        }
        Some(GameResult { player_cards, winner_index, player_dice_rolls })
    }
}

} // verus!
