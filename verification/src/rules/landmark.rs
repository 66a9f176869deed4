use crate::game::Game;
use crate::game::GameView;
use crate::models::card::CardCategory;
use crate::models::landmark::all_landmarks;
use crate::models::landmark::Landmark;
use crate::models::landmark::LandmarkHook;
use crate::player_strategies::player_strategy::GiveEstablishmentDecision;
use crate::player_strategies::player_strategy::PlayerStrategy;
use crate::rules::game_helpers::collected;
use crate::rules::game_helpers::CoinOverflow;
use crate::rules::game_helpers::Levy;
use vstd::prelude::*;

verus! {

/// The price reduction that a cost-reducing landmark grants on
/// `target_landmark`.
pub fn get_landmark_cost_reduction(landmark: Landmark, target_landmark: Landmark) -> (reduction: u8)
    requires
        landmark.spec_hook() == LandmarkHook::CostReduction,
    ensures
        reduction as int == landmark.spec_cost_reduction(target_landmark),
        reduction <= 5,
{
    match landmark {
        Landmark::LoanOffice => 2,
        Landmark::Observatory => if target_landmark == Landmark::LaunchPad {
            5
        } else {
            0
        },
        _ => 0,
    }
}

/// The extra coins that an earnings landmark grants when an establishment of
/// `card_category` is activated.
pub fn get_card_earnings_bonus(landmark: Landmark, card_category: CardCategory) -> (bonus: u8)
    requires
        landmark.spec_hook() == LandmarkHook::EarningsBonus,
    ensures
        bonus as int == landmark.spec_earnings_bonus(card_category),
        bonus <= 1,
{
    let favoured: bool = match landmark {
        Landmark::FarmersMarket => card_category == CardCategory::Wheat,
        Landmark::Forge => card_category == CardCategory::Gear,
        Landmark::SodaBottlingPlant => card_category == CardCategory::Cup,
        Landmark::ShoppingMall => card_category == CardCategory::Bread,
        _ => false,
    };
    if favoured {
        1
    } else {
        0
    }
}

/// The coins that the Tech Startup pays on a roll of twelve.
pub const TECH_STARTUP_PAYOUT: u16 = 8;

/// The coins that the Temple takes from each opponent on doubles.
pub const TEMPLE_LEVY: u16 = 2;

/// The coins that the French Restaurant takes from each opponent.
pub const FRENCH_RESTAURANT_LEVY: u16 = 2;

/// The coins that the Museum takes for each landmark of an opponent.
pub const MUSEUM_LEVY: u16 = 3;

/// The coins that the Airport pays for a turn without a purchase.
pub const AIRPORT_PAYOUT: u16 = 5;

/// The coins that the Charterhouse pays for a roll of two dice that earned
/// nothing.
pub const CHARTERHOUSE_PAYOUT: u16 = 3;

/// The roll shows the same face on both dice.
pub open spec fn is_doubles(roll: (u8, u8)) -> bool {
    roll.0 == roll.1
}

/// What a landmark that acts at build time demands of each opponent of its
/// builder, if it demands anything.
pub open spec fn activation_levy(landmark: Landmark) -> Option<Levy> {
    match landmark {
        Landmark::ExhibitHall => Some(Levy::HalfOfBalanceAboveTen),
        Landmark::FrenchRestaurant => Some(Levy::Flat(FRENCH_RESTAURANT_LEVY)),
        Landmark::Museum => Some(Levy::PerLandmark(MUSEUM_LEVY)),
        Landmark::Publisher => Some(Levy::PerCardOfCategory(1, CardCategory::Bread)),
        Landmark::TvStation => Some(Levy::PerCardOfCategory(1, CardCategory::Cup)),
        _ => None,
    }
}

impl GameView {
    /// The same state with the flag for another turn set.
    pub open spec fn with_another_turn(self) -> GameView {
        GameView { take_another_turn: true, ..self }
    }

    /// The coins that the builder in seat `owner` gains when `landmark` acts at
    /// build time.
    pub open spec fn activation_gain(self, landmark: Landmark, owner: int) -> int {
        match activation_levy(landmark) {
            Some(levy) => collected(self.players, owner, levy, self.players.len() as int),
            None => 0,
        }
    }

    /// The state after `landmark`, just built by the player in seat `owner`,
    /// has acted: a levy on the opponents, an even split of all coins (Park),
    /// another turn (Radio Tower), or nothing at all (Launch Pad, which wins
    /// at the next win check).
    pub open spec fn with_landmark_activated(self, landmark: Landmark, owner: int) -> GameView {
        match activation_levy(landmark) {
            Some(levy) => self.with_collection(owner, levy),
            None => match landmark {
                Landmark::Park => self.with_even_split(),
                Landmark::RadioTower => self.with_another_turn(),
                _ => self,
            },
        }
    }

    /// The state after a gift decision of the current player has been carried
    /// out. A decision that cannot be carried out counts as a decision not to
    /// give.
    pub open spec fn with_gift_decision(self, decision: GiveEstablishmentDecision) -> GameView {
        match decision {
            GiveEstablishmentDecision::Give(card) => if self.current().owns_card(card) {
                self.with_card_moved(self.current_player, self.seat_to_the_right(), card)
            } else {
                self
            },
            GiveEstablishmentDecision::NoGive => self,
        }
    }

    /// The coins that the player in seat `owner` gains when `landmark` is
    /// polled after the roll.
    pub open spec fn dice_roll_gain(self, landmark: Landmark, owner: int, roll: (u8, u8)) -> int {
        match landmark {
            Landmark::TechStartup => if roll.0 + roll.1 == 12 {
                TECH_STARTUP_PAYOUT as int
            } else {
                0
            },
            Landmark::Temple => if is_doubles(roll) {
                collected(self.players, owner, Levy::Flat(TEMPLE_LEVY), self.players.len() as int)
            } else {
                0
            },
            _ => 0,
        }
    }

    /// The state after `landmark`, held by the player in seat `owner`, has
    /// been polled after the roll: on doubles, another turn (Amusement Park),
    /// a gift to the right as decided in `gift` (Moving Company), or two coins
    /// from each opponent (Temple); on a twelve, eight coins from the bank
    /// (Tech Startup).
    pub open spec fn with_dice_roll_hook(
        self,
        landmark: Landmark,
        owner: int,
        roll: (u8, u8),
        gift: GiveEstablishmentDecision,
    ) -> GameView {
        match landmark {
            Landmark::AmusementPark => if is_doubles(roll) {
                self.with_another_turn()
            } else {
                self
            },
            Landmark::MovingCompany => if is_doubles(roll) {
                self.with_gift_decision(gift)
            } else {
                self
            },
            Landmark::TechStartup => if roll.0 + roll.1 == 12 {
                self.with_bank_payout(owner, TECH_STARTUP_PAYOUT as int)
            } else {
                self
            },
            Landmark::Temple => if is_doubles(roll) {
                self.with_collection(owner, Levy::Flat(TEMPLE_LEVY))
            } else {
                self
            },
            _ => self,
        }
    }

    /// The coins that the Airport pays at the end of a turn.
    pub open spec fn turn_end_gain(self, built_something: bool) -> int {
        if built_something {
            0
        } else {
            AIRPORT_PAYOUT as int
        }
    }

    /// The player in seat `owner` threw two dice in that player's last roll.
    pub open spec fn last_roll_was_two_dice(self, owner: int) -> bool {
        let rolls = self.players[owner].dice_rolls;
        rolls.len() > 0 && rolls.last().0 == 2
    }

    /// The coins that the Charterhouse pays after the establishments have
    /// fired.
    pub open spec fn after_activation_gain(self, owner: int, coins_received: bool) -> int {
        if self.last_roll_was_two_dice(owner) && !coins_received {
            CHARTERHOUSE_PAYOUT as int
        } else {
            0
        }
    }
}

/// A landmark acts at the moment it is built, for the builder in seat
/// `owner_index`. Nothing happens, and the error is returned, if the builder's
/// balance has no room for what the landmark takes in.
pub fn activate_landmark(landmark: Landmark, game: &mut Game, owner_index: usize) -> (result: Result<
    (),
    CoinOverflow,
>)
    requires
        landmark.spec_hook() == LandmarkHook::Activation,
        old(game)@.seated(),
        old(game)@.has_seat(owner_index as int),
    ensures
        final(game).wf(),
        result is Ok <==> old(game)@.players[owner_index as int].coins + old(game)@.activation_gain(
            landmark,
            owner_index as int,
        ) <= u16::MAX,
        result is Ok ==> final(game)@ == old(game)@.with_landmark_activated(
            landmark,
            owner_index as int,
        ),
        result is Err ==> final(game)@ == old(game)@,
{
    match landmark {
        Landmark::ExhibitHall => game.take_coins_from_opponents_with_more_than_10_coins(owner_index),
        Landmark::FrenchRestaurant => game.take_coins_from_each_opponent(
            owner_index,
            FRENCH_RESTAURANT_LEVY,
        ),
        Landmark::Museum => game.take_coins_from_each_opponent_for_each_landmark(owner_index),
        Landmark::Park => {
            game.redistribute_coins_evenly();
            Ok(())
        },
        Landmark::Publisher => game.take_coins_from_each_opponent_for_each_card(
            owner_index,
            1,
            CardCategory::Bread,
        ),
        Landmark::RadioTower => {
            game.take_another_turn = true;
            Ok(())
        },
        Landmark::TvStation => game.take_coins_from_each_opponent_for_each_card(
            owner_index,
            1,
            CardCategory::Cup,
        ),
        _ => Ok(()),
    }
}

/// Carries out a gift decision of the current player. One that cannot be
/// carried out counts as a decision not to give.
pub fn resolve_gift(game: &mut Game, decision: GiveEstablishmentDecision) -> (given: bool)
    requires
        old(game)@.seated(),
    ensures
        final(game).wf(),
        given == (decision matches GiveEstablishmentDecision::Give(card) && old(game)@.current().owns_card(card)),
        final(game)@ == old(game)@.with_gift_decision(decision),
{
    match decision {
        GiveEstablishmentDecision::Give(card) => game.give_establishment_to_right(card).is_ok(),
        GiveEstablishmentDecision::NoGive => false,
    }
}

/// A landmark held by the player in seat `owner_index` is polled after that
/// player's roll, with `gift` as the player's answer where the landmark asks
/// for one. `roll` holds the two faces; the second is 0 where one die was
/// thrown. Nothing happens, and the error is returned, if the owner's balance
/// has no room for what the landmark earns.
pub fn resolve_dice_roll(
    landmark: Landmark,
    game: &mut Game,
    owner_index: usize,
    roll: (u8, u8),
    gift: GiveEstablishmentDecision,
) -> (result: Result<(), CoinOverflow>)
    requires
        landmark.spec_hook() == LandmarkHook::DiceRoll,
        old(game)@.seated(),
        old(game)@.has_seat(owner_index as int),
    ensures
        final(game).wf(),
        result is Ok <==> old(game)@.players[owner_index as int].coins + old(game)@.dice_roll_gain(
            landmark,
            owner_index as int,
            roll,
        ) <= u16::MAX,
        result is Ok ==> final(game)@ == old(game)@.with_dice_roll_hook(
            landmark,
            owner_index as int,
            roll,
            gift,
        ),
        result is Err ==> final(game)@ == old(game)@,
{
    let (roll1, roll2) = roll;
    let doubles: bool = roll1 == roll2;
    match landmark {
        Landmark::AmusementPark => {
            if doubles {
                game.take_another_turn = true;
            }
            Ok(())
        },
        Landmark::MovingCompany => {
            if doubles {
                resolve_gift(game, gift);
            }
            Ok(())
        },
        Landmark::TechStartup => {
            if roll1 as u16 + roll2 as u16 == 12 {
                game.get_coins_from_bank(owner_index, TECH_STARTUP_PAYOUT)
            } else {
                Ok(())
            }
        },
        Landmark::Temple => {
            if doubles {
                game.take_coins_from_each_opponent(owner_index, TEMPLE_LEVY)
            } else {
                Ok(())
            }
        },
        _ => Ok(()),
    }
}

/// A landmark held by the player in seat `owner_index` is polled after that
/// player's roll. Where the landmark makes the player give an establishment
/// away, `strategy` is asked which.
pub fn on_dice_roll<S: PlayerStrategy + ?Sized>(
    landmark: Landmark,
    game: &mut Game,
    owner_index: usize,
    roll: (u8, u8),
    strategy: &mut S,
) -> (result: Result<(), CoinOverflow>)
    requires
        landmark.spec_hook() == LandmarkHook::DiceRoll,
        old(game)@.seated(),
        old(game)@.has_seat(owner_index as int),
    ensures
        final(game).wf(),
        result is Ok <==> old(game)@.players[owner_index as int].coins + old(game)@.dice_roll_gain(
            landmark,
            owner_index as int,
            roll,
        ) <= u16::MAX,
        result is Ok ==> exists|gift: GiveEstablishmentDecision|
            final(game)@ == #[trigger] old(game)@.with_dice_roll_hook(
                landmark,
                owner_index as int,
                roll,
                gift,
            ),
        result is Ok && !(landmark == Landmark::MovingCompany && is_doubles(roll)) ==> final(game)@
            == old(game)@.with_dice_roll_hook(
            landmark,
            owner_index as int,
            roll,
            GiveEstablishmentDecision::NoGive,
        ),
        result is Err ==> final(game)@ == old(game)@,
{
    let gift: GiveEstablishmentDecision = if landmark == Landmark::MovingCompany && roll.0
        == roll.1 {
        strategy.decide_give_establishment(game)
    } else {
        GiveEstablishmentDecision::NoGive
    };
    resolve_dice_roll(landmark, game, owner_index, roll, gift)
}

/// A landmark held by the player in seat `owner_index` is polled at the end of
/// that player's buy phase: the Airport pays five coins if nothing was bought.
/// Nothing happens, and the error is returned, if the owner's balance has no
/// room for them.
pub fn on_turn_end(landmark: Landmark, game: &mut Game, owner_index: usize, built_something: bool) -> (result:
    Result<(), CoinOverflow>)
    requires
        landmark.spec_hook() == LandmarkHook::TurnEnd,
        old(game)@.seated(),
        old(game)@.has_seat(owner_index as int),
    ensures
        final(game).wf(),
        result is Ok <==> old(game)@.players[owner_index as int].coins + old(game)@.turn_end_gain(
            built_something,
        ) <= u16::MAX,
        result is Ok ==> final(game)@ == old(game)@.with_bank_payout(
            owner_index as int,
            old(game)@.turn_end_gain(built_something),
        ),
        result is Err ==> final(game)@ == old(game)@,
{
    let payout: u16 = if built_something {
        0
    } else {
        AIRPORT_PAYOUT
    };
    game.get_coins_from_bank(owner_index, payout)
}

/// A landmark held by the player in seat `owner_index` is polled after the
/// establishments of that player's roll have fired: the Charterhouse pays
/// three coins if the player threw two dice and received nothing. Nothing
/// happens, and the error is returned, if the owner's balance has no room for
/// them.
pub fn on_after_card_activation(
    landmark: Landmark,
    game: &mut Game,
    owner_index: usize,
    coins_received: bool,
) -> (result: Result<(), CoinOverflow>)
    requires
        landmark.spec_hook() == LandmarkHook::AfterCardActivation,
        old(game)@.seated(),
        old(game)@.has_seat(owner_index as int),
    ensures
        final(game).wf(),
        result is Ok <==> old(game)@.players[owner_index as int].coins
            + old(game)@.after_activation_gain(owner_index as int, coins_received) <= u16::MAX,
        result is Ok ==> final(game)@ == old(game)@.with_bank_payout(
            owner_index as int,
            old(game)@.after_activation_gain(owner_index as int, coins_received),
        ),
        result is Err ==> final(game)@ == old(game)@,
{
    let rolls = &game.players[owner_index].dice_rolls;
    let two_dice: bool = rolls.len() > 0 && rolls[rolls.len() - 1].0 == 2;
    let payout: u16 = if two_dice && !coins_received {
        CHARTERHOUSE_PAYOUT
    } else {
        0
    };
    game.get_coins_from_bank(owner_index, payout)
}

/// The landmark deck before shuffling: every landmark type once, in catalog
/// order.
pub fn build_landmark_deck() -> (deck: Vec<Landmark>)
    ensures
        deck@ == all_landmarks(),
{
    let deck: Vec<Landmark> = vec![
        Landmark::Airport,
        Landmark::AmusementPark,
        Landmark::Charterhouse,
        Landmark::ExhibitHall,
        Landmark::FarmersMarket,
        Landmark::Forge,
        Landmark::FrenchRestaurant,
        Landmark::LaunchPad,
        Landmark::LoanOffice,
        Landmark::MovingCompany,
        Landmark::Museum,
        Landmark::Observatory,
        Landmark::Park,
        Landmark::Publisher,
        Landmark::RadioTower,
        Landmark::SodaBottlingPlant,
        Landmark::ShoppingMall,
        Landmark::TechStartup,
        Landmark::Temple,
        Landmark::TvStation,
    ];
    assert(deck@ =~= all_landmarks());
    deck
}

} // verus!
