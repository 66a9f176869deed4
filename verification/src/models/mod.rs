pub mod card;
pub mod landmark;
pub mod player;

pub use card::Card;
pub use card::CardCategory;
pub use card::CardColor;
pub use card::CardDef;
pub use card::CardEffect;
pub use landmark::Landmark;
pub use landmark::LandmarkDef;
pub use landmark::LandmarkHook;
pub use landmark::LandmarkType;
pub use player::OwnedCard;
pub use player::OwnedLandmark;
pub use player::Player;
pub use player::PlayerView;
