use crate::models::card::CardCategory;
use vstd::prelude::*;

verus! {

/// Whether a landmark acts once, when it is built, or for the rest of the game.
#[derive(Clone, Copy, Debug, Hash, PartialEq, Eq, Structural)]
pub enum LandmarkType {
    Immediate,
    Infinite,
}

impl LandmarkType {
    /// The display name.
    pub open spec fn spec_label(self) -> &'static str {
        match self {
            LandmarkType::Immediate => "Immediate",
            LandmarkType::Infinite => "Infinite",
        }
    }

    /// The kind's display name.
    pub fn label(&self) -> (s: &'static str)
        ensures
            s == self.spec_label(),
    {
        match self {
            LandmarkType::Immediate => "Immediate",
            LandmarkType::Infinite => "Infinite",
        }
    }
}

/// The one point of a turn at which a landmark takes part.
#[derive(Clone, Copy, Debug, Hash, PartialEq, Eq, Structural)]
pub enum LandmarkHook {
    /// Acts once, at the moment it is built.
    Activation,
    /// Polled after its owner has rolled the dice.
    DiceRoll,
    /// Polled after the establishments of a roll have fired.
    AfterCardActivation,
    /// Polled at the end of its owner's buy phase.
    TurnEnd,
    /// Raises what its owner's establishments of one category earn.
    EarningsBonus,
    /// Lowers what its owner pays for later landmarks.
    CostReduction,
}

/// The immutable definition of one landmark type. `cost` is indexed by the
/// number of landmarks that the buyer already owns.
#[derive(Clone, Copy, Debug, Hash, PartialEq, Eq)]
pub struct LandmarkDef {
    pub name: &'static str,
    pub cost: &'static [u16],
    pub landmark_type: LandmarkType,
}

/// The landmark types of the game.
#[derive(Clone, Copy, Debug, Hash, PartialEq, Eq, Structural)]
pub enum Landmark {
    Airport,
    AmusementPark,
    Charterhouse,
    ExhibitHall,
    FarmersMarket,
    Forge,
    FrenchRestaurant,
    LaunchPad,
    LoanOffice,
    MovingCompany,
    Museum,
    Observatory,
    Park,
    Publisher,
    RadioTower,
    SodaBottlingPlant,
    ShoppingMall,
    TechStartup,
    Temple,
    TvStation,
}

/// Every landmark type once, in catalog order.
pub open spec fn all_landmarks() -> Seq<Landmark> {
    seq![
        Landmark::Airport,
        Landmark::AmusementPark,
        Landmark::Charterhouse,
        Landmark::ExhibitHall,
        Landmark::FarmersMarket,
        Landmark::Forge,
        Landmark::FrenchRestaurant,
        Landmark::LaunchPad,
        Landmark::LoanOffice,
        Landmark::MovingCompany,
        Landmark::Museum,
        Landmark::Observatory,
        Landmark::Park,
        Landmark::Publisher,
        Landmark::RadioTower,
        Landmark::SodaBottlingPlant,
        Landmark::ShoppingMall,
        Landmark::TechStartup,
        Landmark::Temple,
        Landmark::TvStation,
    ]
}

impl Landmark {
    /// The catalog: the definition of each landmark type.
    pub open spec fn spec_def(&self) -> LandmarkDef {
        match self {
            Landmark::Airport => LandmarkDef {
                name: "Airport",
                cost: &[12u16, 16u16, 22u16],
                landmark_type: LandmarkType::Infinite,
            },
            Landmark::AmusementPark => LandmarkDef {
                name: "Amusement Park",
                cost: &[12u16, 16u16, 22u16],
                landmark_type: LandmarkType::Infinite,
            },
            Landmark::Charterhouse => LandmarkDef {
                name: "Charterhouse",
                cost: &[12u16, 16u16, 22u16],
                landmark_type: LandmarkType::Infinite,
            },
            Landmark::ExhibitHall => LandmarkDef {
                name: "Exhibit Hall",
                cost: &[12u16, 16u16, 22u16],
                landmark_type: LandmarkType::Immediate,
            },
            Landmark::FarmersMarket => LandmarkDef {
                name: "Farmers Market",
                cost: &[10u16, 14u16, 22u16],
                landmark_type: LandmarkType::Infinite,
            },
            Landmark::Forge => LandmarkDef {
                name: "Forge",
                cost: &[12u16, 16u16, 22u16],
                landmark_type: LandmarkType::Infinite,
            },
            Landmark::FrenchRestaurant => LandmarkDef {
                name: "French Restaurant",
                cost: &[10u16, 14u16, 22u16],
                landmark_type: LandmarkType::Immediate,
            },
            Landmark::LaunchPad => LandmarkDef {
                name: "Launch Pad",
                cost: &[45u16, 38u16, 25u16],
                landmark_type: LandmarkType::Immediate,
            },
            Landmark::LoanOffice => LandmarkDef {
                name: "Loan Office",
                cost: &[10u16],
                landmark_type: LandmarkType::Infinite,
            },
            Landmark::MovingCompany => LandmarkDef {
                name: "Moving Company",
                cost: &[10u16, 14u16, 22u16],
                landmark_type: LandmarkType::Infinite,
            },
            Landmark::Museum => LandmarkDef {
                name: "Museum",
                cost: &[12u16, 16u16, 22u16],
                landmark_type: LandmarkType::Immediate,
            },
            Landmark::Observatory => LandmarkDef {
                name: "Observatory",
                cost: &[10u16, 14u16, 22u16],
                landmark_type: LandmarkType::Infinite,
            },
            Landmark::Park => LandmarkDef {
                name: "Park",
                cost: &[12u16, 16u16, 22u16],
                landmark_type: LandmarkType::Immediate,
            },
            Landmark::Publisher => LandmarkDef {
                name: "Publisher",
                cost: &[10u16, 14u16, 22u16],
                landmark_type: LandmarkType::Immediate,
            },
            Landmark::RadioTower => LandmarkDef {
                name: "Radio Tower",
                cost: &[12u16, 16u16, 22u16],
                landmark_type: LandmarkType::Immediate,
            },
            Landmark::SodaBottlingPlant => LandmarkDef {
                name: "Soda Bottling Plant",
                cost: &[12u16, 16u16, 22u16],
                landmark_type: LandmarkType::Infinite,
            },
            Landmark::ShoppingMall => LandmarkDef {
                name: "Shopping Mall",
                cost: &[10u16, 14u16, 22u16],
                landmark_type: LandmarkType::Infinite,
            },
            Landmark::TechStartup => LandmarkDef {
                name: "Tech Startup",
                cost: &[10u16, 14u16, 22u16],
                landmark_type: LandmarkType::Infinite,
            },
            Landmark::Temple => LandmarkDef {
                name: "Temple",
                cost: &[12u16, 16u16, 22u16],
                landmark_type: LandmarkType::Infinite,
            },
            Landmark::TvStation => LandmarkDef {
                name: "TV Station",
                cost: &[12u16, 16u16, 22u16],
                landmark_type: LandmarkType::Immediate,
            },
        }
    }

    /// Looks the landmark up in the catalog.
    #[verifier::when_used_as_spec(spec_def)]
    pub fn def(&self) -> (d: LandmarkDef)
        ensures
            d == self.spec_def(),
    {
        match self {
            Landmark::Airport => LandmarkDef {
                name: "Airport",
                cost: &[12u16, 16u16, 22u16],
                landmark_type: LandmarkType::Infinite,
            },
            Landmark::AmusementPark => LandmarkDef {
                name: "Amusement Park",
                cost: &[12u16, 16u16, 22u16],
                landmark_type: LandmarkType::Infinite,
            },
            Landmark::Charterhouse => LandmarkDef {
                name: "Charterhouse",
                cost: &[12u16, 16u16, 22u16],
                landmark_type: LandmarkType::Infinite,
            },
            Landmark::ExhibitHall => LandmarkDef {
                name: "Exhibit Hall",
                cost: &[12u16, 16u16, 22u16],
                landmark_type: LandmarkType::Immediate,
            },
            Landmark::FarmersMarket => LandmarkDef {
                name: "Farmers Market",
                cost: &[10u16, 14u16, 22u16],
                landmark_type: LandmarkType::Infinite,
            },
            Landmark::Forge => LandmarkDef {
                name: "Forge",
                cost: &[12u16, 16u16, 22u16],
                landmark_type: LandmarkType::Infinite,
            },
            Landmark::FrenchRestaurant => LandmarkDef {
                name: "French Restaurant",
                cost: &[10u16, 14u16, 22u16],
                landmark_type: LandmarkType::Immediate,
            },
            Landmark::LaunchPad => LandmarkDef {
                name: "Launch Pad",
                cost: &[45u16, 38u16, 25u16],
                landmark_type: LandmarkType::Immediate,
            },
            Landmark::LoanOffice => LandmarkDef {
                name: "Loan Office",
                cost: &[10u16],
                landmark_type: LandmarkType::Infinite,
            },
            Landmark::MovingCompany => LandmarkDef {
                name: "Moving Company",
                cost: &[10u16, 14u16, 22u16],
                landmark_type: LandmarkType::Infinite,
            },
            Landmark::Museum => LandmarkDef {
                name: "Museum",
                cost: &[12u16, 16u16, 22u16],
                landmark_type: LandmarkType::Immediate,
            },
            Landmark::Observatory => LandmarkDef {
                name: "Observatory",
                cost: &[10u16, 14u16, 22u16],
                landmark_type: LandmarkType::Infinite,
            },
            Landmark::Park => LandmarkDef {
                name: "Park",
                cost: &[12u16, 16u16, 22u16],
                landmark_type: LandmarkType::Immediate,
            },
            Landmark::Publisher => LandmarkDef {
                name: "Publisher",
                cost: &[10u16, 14u16, 22u16],
                landmark_type: LandmarkType::Immediate,
            },
            Landmark::RadioTower => LandmarkDef {
                name: "Radio Tower",
                cost: &[12u16, 16u16, 22u16],
                landmark_type: LandmarkType::Immediate,
            },
            Landmark::SodaBottlingPlant => LandmarkDef {
                name: "Soda Bottling Plant",
                cost: &[12u16, 16u16, 22u16],
                landmark_type: LandmarkType::Infinite,
            },
            Landmark::ShoppingMall => LandmarkDef {
                name: "Shopping Mall",
                cost: &[10u16, 14u16, 22u16],
                landmark_type: LandmarkType::Infinite,
            },
            Landmark::TechStartup => LandmarkDef {
                name: "Tech Startup",
                cost: &[10u16, 14u16, 22u16],
                landmark_type: LandmarkType::Infinite,
            },
            Landmark::Temple => LandmarkDef {
                name: "Temple",
                cost: &[12u16, 16u16, 22u16],
                landmark_type: LandmarkType::Infinite,
            },
            Landmark::TvStation => LandmarkDef {
                name: "TV Station",
                cost: &[12u16, 16u16, 22u16],
                landmark_type: LandmarkType::Immediate,
            },
        }
    }

    /// The capability table: the hook that each landmark takes part in.
    pub open spec fn spec_hook(&self) -> LandmarkHook {
        match self {
            Landmark::ExhibitHall
            | Landmark::FrenchRestaurant
            | Landmark::LaunchPad
            | Landmark::Museum
            | Landmark::Park
            | Landmark::Publisher
            | Landmark::RadioTower
            | Landmark::TvStation => LandmarkHook::Activation,
            Landmark::AmusementPark
            | Landmark::MovingCompany
            | Landmark::TechStartup
            | Landmark::Temple => LandmarkHook::DiceRoll,
            Landmark::Charterhouse => LandmarkHook::AfterCardActivation,
            Landmark::Airport => LandmarkHook::TurnEnd,
            Landmark::FarmersMarket
            | Landmark::Forge
            | Landmark::SodaBottlingPlant
            | Landmark::ShoppingMall => LandmarkHook::EarningsBonus,
            Landmark::LoanOffice
            | Landmark::Observatory => LandmarkHook::CostReduction,
        }
    }

    /// The hook that the landmark takes part in.
    #[verifier::when_used_as_spec(spec_hook)]
    pub fn hook(&self) -> (h: LandmarkHook)
        ensures
            h == self.spec_hook(),
    {
        match self {
            Landmark::ExhibitHall
            | Landmark::FrenchRestaurant
            | Landmark::LaunchPad
            | Landmark::Museum
            | Landmark::Park
            | Landmark::Publisher
            | Landmark::RadioTower
            | Landmark::TvStation => LandmarkHook::Activation,
            Landmark::AmusementPark
            | Landmark::MovingCompany
            | Landmark::TechStartup
            | Landmark::Temple => LandmarkHook::DiceRoll,
            Landmark::Charterhouse => LandmarkHook::AfterCardActivation,
            Landmark::Airport => LandmarkHook::TurnEnd,
            Landmark::FarmersMarket
            | Landmark::Forge
            | Landmark::SodaBottlingPlant
            | Landmark::ShoppingMall => LandmarkHook::EarningsBonus,
            Landmark::LoanOffice
            | Landmark::Observatory => LandmarkHook::CostReduction,
        }
    }

    /// Owning this landmark wins the game at once.
    pub open spec fn spec_is_win_condition(&self) -> bool {
        *self == Landmark::LaunchPad
    }

    /// Whether owning this landmark wins the game at once.
    #[verifier::when_used_as_spec(spec_is_win_condition)]
    pub fn is_win_condition(&self) -> (win: bool)
        ensures
            win == self.spec_is_win_condition(),
    {
        *self == Landmark::LaunchPad
    }

    /// By how much owning this landmark lowers the price of `target`.
    pub open spec fn spec_cost_reduction(&self, target: Landmark) -> int {
        match self {
            Landmark::LoanOffice => 2,
            Landmark::Observatory => if target == Landmark::LaunchPad {
                5
            } else {
                0
            },
            _ => 0,
        }
    }

    /// How much more an activated establishment of `category` earns its owner
    /// when the owner holds this landmark.
    pub open spec fn spec_earnings_bonus(&self, category: CardCategory) -> int {
        match (*self, category) {
            (Landmark::FarmersMarket, CardCategory::Wheat) => 1,
            (Landmark::Forge, CardCategory::Gear) => 1,
            (Landmark::SodaBottlingPlant, CardCategory::Cup) => 1,
            (Landmark::ShoppingMall, CardCategory::Bread) => 1,
            _ => 0,
        }
    }
}

/// The capability table agrees with the catalog: a landmark acts at build time
/// exactly when it is of the immediate kind, its cost schedule has three tiers
/// unless it is the Loan Office, which has one, and only landmarks with the
/// matching hook lower a price or raise earnings.
pub proof fn lemma_capability_table_is_consistent(landmark: Landmark)
    ensures
        (landmark.spec_hook() == LandmarkHook::Activation) <==> (landmark.spec_def().landmark_type
            == LandmarkType::Immediate),
        landmark.spec_def().cost@.len() == if landmark == Landmark::LoanOffice {
            1nat
        } else {
            3nat
        },
        forall|target: Landmark|
            landmark.spec_hook() != LandmarkHook::CostReduction ==> #[trigger] landmark.spec_cost_reduction(
                target,
            ) == 0,
        forall|category: CardCategory|
            landmark.spec_hook() != LandmarkHook::EarningsBonus ==> #[trigger] landmark.spec_earnings_bonus(
                category,
            ) == 0,
        all_landmarks().contains(landmark),
{
    let i = catalog_position(landmark);
    assert(all_landmarks()[i] == landmark);
}

/// The position of a landmark in catalog order.
pub open spec fn catalog_position(landmark: Landmark) -> int {
    match landmark {
        Landmark::Airport => 0,
        Landmark::AmusementPark => 1,
        Landmark::Charterhouse => 2,
        Landmark::ExhibitHall => 3,
        Landmark::FarmersMarket => 4,
        Landmark::Forge => 5,
        Landmark::FrenchRestaurant => 6,
        Landmark::LaunchPad => 7,
        Landmark::LoanOffice => 8,
        Landmark::MovingCompany => 9,
        Landmark::Museum => 10,
        Landmark::Observatory => 11,
        Landmark::Park => 12,
        Landmark::Publisher => 13,
        Landmark::RadioTower => 14,
        Landmark::SodaBottlingPlant => 15,
        Landmark::ShoppingMall => 16,
        Landmark::TechStartup => 17,
        Landmark::Temple => 18,
        Landmark::TvStation => 19,
    }
}

} // verus!
