pub mod all_player_strategies;
pub mod game_extensions;
pub mod greedy_best_card_strategy;
pub mod greedy_strategy;
pub mod landmark_rush_strategy;
pub mod optimized_strategy;
pub mod player_strategy;
pub mod random_strategy;
pub mod strategy_utils;

pub use greedy_best_card_strategy::GreedyBestCardStrategy;
pub use landmark_rush_strategy::LandmarkRushStrategy;
pub use optimized_strategy::OptimizedStrategy;
pub use player_strategy::PlayerStrategy;
pub use random_strategy::RandomStrategy;
