use vstd::prelude::*;

verus! {

/// Colour tier of an establishment: who may activate it, and when in the
/// income phase it fires.
#[derive(Clone, Copy, Debug, Hash, PartialEq, Eq, Structural)]
pub enum CardColor {
    Blue,
    Green,
    Purple,
    Red,
}

impl CardColor {
    /// The display name.
    pub open spec fn spec_label(self) -> &'static str {
        match self {
            CardColor::Blue => "Blue",
            CardColor::Green => "Green",
            CardColor::Purple => "Purple",
            CardColor::Red => "Red",
        }
    }

    /// The colour's display name.
    pub fn label(&self) -> (s: &'static str)
        ensures
            s == self.spec_label(),
    {
        match self {
            CardColor::Blue => "Blue",
            CardColor::Green => "Green",
            CardColor::Purple => "Purple",
            CardColor::Red => "Red",
        }
    }
}

/// Category symbol printed on an establishment.
#[derive(Clone, Copy, Debug, Hash, PartialEq, Eq, Structural)]
pub enum CardCategory {
    Bread,
    Building,
    Combo,
    Cup,
    Flower,
    Fruit,
    Gear,
    Wheat,
}

impl CardCategory {
    /// The display name.
    pub open spec fn spec_label(self) -> &'static str {
        match self {
            CardCategory::Bread => "Bread",
            CardCategory::Building => "Building",
            CardCategory::Combo => "Combo",
            CardCategory::Cup => "Cup",
            CardCategory::Flower => "Flower",
            CardCategory::Fruit => "Fruit",
            CardCategory::Gear => "Gear",
            CardCategory::Wheat => "Wheat",
        }
    }

    /// The category's display name.
    pub fn label(&self) -> (s: &'static str)
        ensures
            s == self.spec_label(),
    {
        match self {
            CardCategory::Bread => "Bread",
            CardCategory::Building => "Building",
            CardCategory::Combo => "Combo",
            CardCategory::Cup => "Cup",
            CardCategory::Flower => "Flower",
            CardCategory::Fruit => "Fruit",
            CardCategory::Gear => "Gear",
            CardCategory::Wheat => "Wheat",
        }
    }
}

/// What an establishment does when it is activated.
#[derive(Clone, Copy, Debug, Hash, PartialEq, Eq, Structural)]
pub enum CardEffect {
    TakeCoinsFromActivePlayer(u16),
    TakeCoinsFromEachOpponent(u16),
    TakeCoinsFromEachOpponentWithMoreThan10Coins,
    GetCoinsFromBank(u16),
    GetCoinsFromBankForEachCardCategory(u16, CardCategory),
    GetCoinsFromBankForEachCardColor(u16, CardColor),
    ExchangeEstablishment,
}

/// The immutable definition of one establishment type.
#[derive(Clone, Copy, Debug, Hash, PartialEq, Eq)]
pub struct CardDef {
    pub name: &'static str,
    pub cost: u16,
    pub activation: &'static [u8],
    pub color: CardColor,
    pub category: CardCategory,
    pub effect: CardEffect,
}

/// The establishment types of the game.
#[derive(Clone, Copy, Debug, Hash, PartialEq, Eq, Structural)]
pub enum Card {
    SushiBar,
    WheatField,
    Vineyard,
    Bakery,
    Cafe,
    FlowerGarden,
    ConvenienceStore,
    Forest,
    CornField,
    HamburgerStand,
    FamilyRestaurant,
    AppleOrchard,
    Mine,
    FlowerShop,
    BusinessCenter,
    Stadium,
    FurnitureFactory,
    ShoppingDistrict,
    Winery,
    FoodWarehouse,
}

/// Every number in `numbers` is at most `bound`.
pub open spec fn all_at_most(numbers: Seq<u8>, bound: u8) -> bool {
    forall|i: int| 0 <= i < numbers.len() ==> numbers[i] <= bound
}

/// Every number in `numbers` is greater than `bound`.
pub open spec fn all_above(numbers: Seq<u8>, bound: u8) -> bool {
    forall|i: int| 0 <= i < numbers.len() ==> numbers[i] > bound
}

impl Card {
    /// The catalog: the definition of each establishment type.
    pub open spec fn spec_def(&self) -> CardDef {
        match self {
            Card::SushiBar => CardDef {
                name: "Sushi Bar",
                cost: 2,
                activation: &[1u8],
                color: CardColor::Red,
                category: CardCategory::Cup,
                effect: CardEffect::TakeCoinsFromActivePlayer(3),
            },
            Card::WheatField => CardDef {
                name: "Wheat Field",
                cost: 1,
                activation: &[1u8, 2u8],
                color: CardColor::Blue,
                category: CardCategory::Wheat,
                effect: CardEffect::GetCoinsFromBank(1),
            },
            Card::Vineyard => CardDef {
                name: "Vineyard",
                cost: 1,
                activation: &[1u8, 2u8],
                color: CardColor::Blue,
                category: CardCategory::Fruit,
                effect: CardEffect::GetCoinsFromBank(2),
            },
            Card::Bakery => CardDef {
                name: "Bakery",
                cost: 1,
                activation: &[2u8, 3u8],
                color: CardColor::Green,
                category: CardCategory::Bread,
                effect: CardEffect::GetCoinsFromBank(2),
            },
            Card::Cafe => CardDef {
                name: "Cafe",
                cost: 1,
                activation: &[3u8],
                color: CardColor::Red,
                category: CardCategory::Cup,
                effect: CardEffect::TakeCoinsFromActivePlayer(2),
            },
            Card::FlowerGarden => CardDef {
                name: "Flower Garden",
                cost: 2,
                activation: &[4u8],
                color: CardColor::Blue,
                category: CardCategory::Flower,
                effect: CardEffect::GetCoinsFromBank(2),
            },
            Card::ConvenienceStore => CardDef {
                name: "Convenience Store",
                cost: 1,
                activation: &[4u8],
                color: CardColor::Green,
                category: CardCategory::Bread,
                effect: CardEffect::GetCoinsFromBank(3),
            },
            Card::Forest => CardDef {
                name: "Forest",
                cost: 3,
                activation: &[5u8],
                color: CardColor::Blue,
                category: CardCategory::Gear,
                effect: CardEffect::GetCoinsFromBank(2),
            },
            Card::CornField => CardDef {
                name: "Corn Field",
                cost: 2,
                activation: &[7u8],
                color: CardColor::Blue,
                category: CardCategory::Wheat,
                effect: CardEffect::GetCoinsFromBank(3),
            },
            Card::HamburgerStand => CardDef {
                name: "Hamburger Stand",
                cost: 1,
                activation: &[8u8],
                color: CardColor::Red,
                category: CardCategory::Cup,
                effect: CardEffect::TakeCoinsFromActivePlayer(2),
            },
            Card::FamilyRestaurant => CardDef {
                name: "Family Restaurant",
                cost: 2,
                activation: &[9u8, 10u8],
                color: CardColor::Red,
                category: CardCategory::Cup,
                effect: CardEffect::TakeCoinsFromActivePlayer(2),
            },
            Card::AppleOrchard => CardDef {
                name: "Apple Orchard",
                cost: 1,
                activation: &[10u8],
                color: CardColor::Blue,
                category: CardCategory::Fruit,
                effect: CardEffect::GetCoinsFromBank(3),
            },
            Card::Mine => CardDef {
                name: "Mine",
                cost: 4,
                activation: &[11u8, 12u8],
                color: CardColor::Blue,
                category: CardCategory::Gear,
                effect: CardEffect::GetCoinsFromBank(6),
            },
            Card::FlowerShop => CardDef {
                name: "Flower Shop",
                cost: 1,
                activation: &[6u8],
                color: CardColor::Green,
                category: CardCategory::Combo,
                effect: CardEffect::GetCoinsFromBankForEachCardCategory(3, CardCategory::Flower),
            },
            Card::BusinessCenter => CardDef {
                name: "Business Center",
                cost: 3,
                activation: &[6u8],
                color: CardColor::Purple,
                category: CardCategory::Building,
                effect: CardEffect::ExchangeEstablishment,
            },
            Card::Stadium => CardDef {
                name: "Stadium",
                cost: 3,
                activation: &[7u8],
                color: CardColor::Purple,
                category: CardCategory::Building,
                effect: CardEffect::TakeCoinsFromEachOpponent(3),
            },
            Card::FurnitureFactory => CardDef {
                name: "Furniture Factory",
                cost: 4,
                activation: &[8u8],
                color: CardColor::Green,
                category: CardCategory::Combo,
                effect: CardEffect::GetCoinsFromBankForEachCardColor(4, CardColor::Green),
            },
            Card::ShoppingDistrict => CardDef {
                name: "Shopping District",
                cost: 3,
                activation: &[8u8, 9u8],
                color: CardColor::Purple,
                category: CardCategory::Building,
                effect: CardEffect::TakeCoinsFromEachOpponentWithMoreThan10Coins,
            },
            Card::Winery => CardDef {
                name: "Winery",
                cost: 3,
                activation: &[9u8],
                color: CardColor::Green,
                category: CardCategory::Combo,
                effect: CardEffect::GetCoinsFromBankForEachCardCategory(3, CardCategory::Fruit),
            },
            Card::FoodWarehouse => CardDef {
                name: "Food Warehouse",
                cost: 2,
                activation: &[10u8, 11u8],
                color: CardColor::Green,
                category: CardCategory::Combo,
                effect: CardEffect::GetCoinsFromBankForEachCardCategory(2, CardCategory::Cup),
            },
        }
    }

    /// Looks the establishment up in the catalog.
    #[verifier::when_used_as_spec(spec_def)]
    pub fn def(&self) -> (d: CardDef)
        ensures
            d == self.spec_def(),
    {
        match self {
            Card::SushiBar => CardDef {
                name: "Sushi Bar",
                cost: 2,
                activation: &[1u8],
                color: CardColor::Red,
                category: CardCategory::Cup,
                effect: CardEffect::TakeCoinsFromActivePlayer(3),
            },
            Card::WheatField => CardDef {
                name: "Wheat Field",
                cost: 1,
                activation: &[1u8, 2u8],
                color: CardColor::Blue,
                category: CardCategory::Wheat,
                effect: CardEffect::GetCoinsFromBank(1),
            },
            Card::Vineyard => CardDef {
                name: "Vineyard",
                cost: 1,
                activation: &[1u8, 2u8],
                color: CardColor::Blue,
                category: CardCategory::Fruit,
                effect: CardEffect::GetCoinsFromBank(2),
            },
            Card::Bakery => CardDef {
                name: "Bakery",
                cost: 1,
                activation: &[2u8, 3u8],
                color: CardColor::Green,
                category: CardCategory::Bread,
                effect: CardEffect::GetCoinsFromBank(2),
            },
            Card::Cafe => CardDef {
                name: "Cafe",
                cost: 1,
                activation: &[3u8],
                color: CardColor::Red,
                category: CardCategory::Cup,
                effect: CardEffect::TakeCoinsFromActivePlayer(2),
            },
            Card::FlowerGarden => CardDef {
                name: "Flower Garden",
                cost: 2,
                activation: &[4u8],
                color: CardColor::Blue,
                category: CardCategory::Flower,
                effect: CardEffect::GetCoinsFromBank(2),
            },
            Card::ConvenienceStore => CardDef {
                name: "Convenience Store",
                cost: 1,
                activation: &[4u8],
                color: CardColor::Green,
                category: CardCategory::Bread,
                effect: CardEffect::GetCoinsFromBank(3),
            },
            Card::Forest => CardDef {
                name: "Forest",
                cost: 3,
                activation: &[5u8],
                color: CardColor::Blue,
                category: CardCategory::Gear,
                effect: CardEffect::GetCoinsFromBank(2),
            },
            Card::CornField => CardDef {
                name: "Corn Field",
                cost: 2,
                activation: &[7u8],
                color: CardColor::Blue,
                category: CardCategory::Wheat,
                effect: CardEffect::GetCoinsFromBank(3),
            },
            Card::HamburgerStand => CardDef {
                name: "Hamburger Stand",
                cost: 1,
                activation: &[8u8],
                color: CardColor::Red,
                category: CardCategory::Cup,
                effect: CardEffect::TakeCoinsFromActivePlayer(2),
            },
            Card::FamilyRestaurant => CardDef {
                name: "Family Restaurant",
                cost: 2,
                activation: &[9u8, 10u8],
                color: CardColor::Red,
                category: CardCategory::Cup,
                effect: CardEffect::TakeCoinsFromActivePlayer(2),
            },
            Card::AppleOrchard => CardDef {
                name: "Apple Orchard",
                cost: 1,
                activation: &[10u8],
                color: CardColor::Blue,
                category: CardCategory::Fruit,
                effect: CardEffect::GetCoinsFromBank(3),
            },
            Card::Mine => CardDef {
                name: "Mine",
                cost: 4,
                activation: &[11u8, 12u8],
                color: CardColor::Blue,
                category: CardCategory::Gear,
                effect: CardEffect::GetCoinsFromBank(6),
            },
            Card::FlowerShop => CardDef {
                name: "Flower Shop",
                cost: 1,
                activation: &[6u8],
                color: CardColor::Green,
                category: CardCategory::Combo,
                effect: CardEffect::GetCoinsFromBankForEachCardCategory(3, CardCategory::Flower),
            },
            Card::BusinessCenter => CardDef {
                name: "Business Center",
                cost: 3,
                activation: &[6u8],
                color: CardColor::Purple,
                category: CardCategory::Building,
                effect: CardEffect::ExchangeEstablishment,
            },
            Card::Stadium => CardDef {
                name: "Stadium",
                cost: 3,
                activation: &[7u8],
                color: CardColor::Purple,
                category: CardCategory::Building,
                effect: CardEffect::TakeCoinsFromEachOpponent(3),
            },
            Card::FurnitureFactory => CardDef {
                name: "Furniture Factory",
                cost: 4,
                activation: &[8u8],
                color: CardColor::Green,
                category: CardCategory::Combo,
                effect: CardEffect::GetCoinsFromBankForEachCardColor(4, CardColor::Green),
            },
            Card::ShoppingDistrict => CardDef {
                name: "Shopping District",
                cost: 3,
                activation: &[8u8, 9u8],
                color: CardColor::Purple,
                category: CardCategory::Building,
                effect: CardEffect::TakeCoinsFromEachOpponentWithMoreThan10Coins,
            },
            Card::Winery => CardDef {
                name: "Winery",
                cost: 3,
                activation: &[9u8],
                color: CardColor::Green,
                category: CardCategory::Combo,
                effect: CardEffect::GetCoinsFromBankForEachCardCategory(3, CardCategory::Fruit),
            },
            Card::FoodWarehouse => CardDef {
                name: "Food Warehouse",
                cost: 2,
                activation: &[10u8, 11u8],
                color: CardColor::Green,
                category: CardCategory::Combo,
                effect: CardEffect::GetCoinsFromBankForEachCardCategory(2, CardCategory::Cup),
            },
        }
    }

    /// The establishment fires on a dice sum of `roll`.
    pub open spec fn spec_activates_on(&self, roll: u8) -> bool {
        self.spec_def().activation@.contains(roll)
    }

    /// Whether the establishment fires on a dice sum of `roll`.
    #[verifier::when_used_as_spec(spec_activates_on)]
    pub fn activates_on(&self, roll: u8) -> (hit: bool)
        ensures
            hit == self.spec_activates_on(roll),
    {
        let numbers: &[u8] = self.def().activation;
        let mut i: usize = 0;
        while i < numbers.len()
            invariant
                numbers@ == self.spec_def().activation@,
                i <= numbers.len(),
                forall|j: int| 0 <= j < i ==> numbers@[j] != roll,
            decreases numbers.len() - i,
        {
            if numbers[i] == roll {
                assert(numbers@[i as int] == roll);
                return true;
            }
            i = i + 1;
        }
        false
    }

    /// The establishment belongs to the low deck: it fires only on sums up to 6.
    pub open spec fn spec_is_low(&self) -> bool {
        all_at_most(self.spec_def().activation@, 6)
    }

    /// The establishment belongs to the high deck: it fires only on sums above 6.
    pub open spec fn spec_is_high(&self) -> bool {
        all_above(self.spec_def().activation@, 6)
    }

    /// Whether every activation number is at most 6.
    #[verifier::when_used_as_spec(spec_is_low)]
    pub fn is_low(&self) -> (low: bool)
        ensures
            low == self.spec_is_low(),
            low != self.spec_is_high(),
    {
        proof {
            lemma_catalog_is_partitioned(*self);
        }
        let numbers: &[u8] = self.def().activation;
        let mut i: usize = 0;
        while i < numbers.len()
            invariant
                numbers@ == self.spec_def().activation@,
                i <= numbers.len(),
                forall|j: int| 0 <= j < i ==> numbers@[j] <= 6,
            decreases numbers.len() - i,
        {
            if numbers[i] > 6 {
                assert(numbers@[i as int] > 6);
                return false;
            }
            i = i + 1;
        }
        true
    }

    /// Whether every activation number is above 6.
    #[verifier::when_used_as_spec(spec_is_high)]
    pub fn is_high(&self) -> (high: bool)
        ensures
            high == self.spec_is_high(),
            high != self.spec_is_low(),
    {
        proof {
            lemma_catalog_is_partitioned(*self);
        }
        let numbers: &[u8] = self.def().activation;
        let mut i: usize = 0;
        while i < numbers.len()
            invariant
                numbers@ == self.spec_def().activation@,
                i <= numbers.len(),
                forall|j: int| 0 <= j < i ==> numbers@[j] > 6,
            decreases numbers.len() - i,
        {
            if numbers[i] <= 6 {
                assert(numbers@[i as int] <= 6);
                return false;
            }
            i = i + 1;
        }
        true
    }
}

/// The number of establishment types.
pub const CARD_TYPES: usize = 20;

/// Every establishment type once, in catalog order.
pub open spec fn all_cards() -> Seq<Card> {
    seq![
        Card::SushiBar,
        Card::WheatField,
        Card::Vineyard,
        Card::Bakery,
        Card::Cafe,
        Card::FlowerGarden,
        Card::ConvenienceStore,
        Card::Forest,
        Card::CornField,
        Card::HamburgerStand,
        Card::FamilyRestaurant,
        Card::AppleOrchard,
        Card::Mine,
        Card::FlowerShop,
        Card::BusinessCenter,
        Card::Stadium,
        Card::FurnitureFactory,
        Card::ShoppingDistrict,
        Card::Winery,
        Card::FoodWarehouse,
    ]
}

impl Card {
    /// The position of the establishment in catalog order.
    pub open spec fn spec_index(&self) -> usize {
        match self {
            Card::SushiBar => 0,
            Card::WheatField => 1,
            Card::Vineyard => 2,
            Card::Bakery => 3,
            Card::Cafe => 4,
            Card::FlowerGarden => 5,
            Card::ConvenienceStore => 6,
            Card::Forest => 7,
            Card::CornField => 8,
            Card::HamburgerStand => 9,
            Card::FamilyRestaurant => 10,
            Card::AppleOrchard => 11,
            Card::Mine => 12,
            Card::FlowerShop => 13,
            Card::BusinessCenter => 14,
            Card::Stadium => 15,
            Card::FurnitureFactory => 16,
            Card::ShoppingDistrict => 17,
            Card::Winery => 18,
            Card::FoodWarehouse => 19,
        }
    }

    /// The position of the establishment in catalog order.
    #[verifier::when_used_as_spec(spec_index)]
    pub fn index(&self) -> (index: usize)
        ensures
            index == self.spec_index(),
            index < CARD_TYPES,
    {
        match self {
            Card::SushiBar => 0,
            Card::WheatField => 1,
            Card::Vineyard => 2,
            Card::Bakery => 3,
            Card::Cafe => 4,
            Card::FlowerGarden => 5,
            Card::ConvenienceStore => 6,
            Card::Forest => 7,
            Card::CornField => 8,
            Card::HamburgerStand => 9,
            Card::FamilyRestaurant => 10,
            Card::AppleOrchard => 11,
            Card::Mine => 12,
            Card::FlowerShop => 13,
            Card::BusinessCenter => 14,
            Card::Stadium => 15,
            Card::FurnitureFactory => 16,
            Card::ShoppingDistrict => 17,
            Card::Winery => 18,
            Card::FoodWarehouse => 19,
        }
    }

    /// Every establishment type once, in catalog order.
    pub fn all() -> (cards: Vec<Card>)
        ensures
            cards@ == all_cards(),
    {
        let cards: Vec<Card> = vec![
            Card::SushiBar,
            Card::WheatField,
            Card::Vineyard,
            Card::Bakery,
            Card::Cafe,
            Card::FlowerGarden,
            Card::ConvenienceStore,
            Card::Forest,
            Card::CornField,
            Card::HamburgerStand,
            Card::FamilyRestaurant,
            Card::AppleOrchard,
            Card::Mine,
            Card::FlowerShop,
            Card::BusinessCenter,
            Card::Stadium,
            Card::FurnitureFactory,
            Card::ShoppingDistrict,
            Card::Winery,
            Card::FoodWarehouse,
        ];
        assert(cards@ =~= all_cards());
        cards
    }
}

/// Catalog order: every establishment type stands at its index, and nowhere
/// else.
pub proof fn lemma_catalog_order(card: Card)
    ensures
        card.spec_index() < CARD_TYPES,
        all_cards().len() == CARD_TYPES,
        all_cards()[card.spec_index() as int] == card,
        forall|i: int| 0 <= i < CARD_TYPES && #[trigger] all_cards()[i] == card ==> i == card.spec_index(),
{
}

/// The catalog puts every establishment in exactly one of the two decks.
pub proof fn lemma_catalog_is_partitioned(card: Card)
    ensures
        card.spec_is_low() != card.spec_is_high(),
        1 <= card.spec_def().activation@.len() <= 2,
        forall|i: int|
            0 <= i < card.spec_def().activation@.len() ==> 1 <= #[trigger] card.spec_def().activation@[i] <= 12,
{
    let numbers = card.spec_def().activation@;
    assert(numbers.len() >= 1);
    if card.spec_is_low() {
        assert(numbers[0] <= 6);
    }
}

} // verus!
