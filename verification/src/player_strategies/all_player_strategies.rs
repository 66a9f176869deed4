use crate::player_strategies::greedy_best_card_strategy::GreedyBestCardStrategy;
use crate::player_strategies::landmark_rush_strategy::LandmarkRushStrategy;
use crate::player_strategies::optimized_strategy::OptimizedStrategy;
use crate::player_strategies::player_strategy::PlayerStrategy;
use crate::player_strategies::random_strategy::RandomStrategy;
use crate::rng::entropy_generator;
use crate::rng::pick;
use vstd::prelude::*;

verus! {

/// The decision makers that the library offers.
#[derive(Debug, Clone, Copy, PartialEq, Eq, Hash, Structural)]
pub enum PlayerStrategyType {
    Random,
    LandmarkRush,
    GreedyBestCard,
    Optimized,
}

/// Every kind of decision maker once.
pub open spec fn all_strategy_types() -> Seq<PlayerStrategyType> {
    seq![
        PlayerStrategyType::Random,
        PlayerStrategyType::LandmarkRush,
        PlayerStrategyType::GreedyBestCard,
        PlayerStrategyType::Optimized,
    ]
}

/// A new decision maker of the kind asked for.
pub fn get_player_strategy(strategy_type: PlayerStrategyType) -> Box<dyn PlayerStrategy> {
    match strategy_type {
        PlayerStrategyType::Random => Box::new(RandomStrategy::new()),
        PlayerStrategyType::LandmarkRush => Box::new(LandmarkRushStrategy::new()),
        PlayerStrategyType::GreedyBestCard => Box::new(GreedyBestCardStrategy::new()),
        PlayerStrategyType::Optimized => Box::new(OptimizedStrategy::new()),
    }
}

/// The kinds of decision maker to pick from.
pub fn strategy_types() -> (types: Vec<PlayerStrategyType>)
    ensures
        types@ == all_strategy_types(),
{
    let types: Vec<PlayerStrategyType> = vec![
        PlayerStrategyType::Random,
        PlayerStrategyType::LandmarkRush,
        PlayerStrategyType::GreedyBestCard,
        PlayerStrategyType::Optimized,
    ];
    assert(types@ =~= all_strategy_types());
    types
}

/// The kind that a draw among the kinds decides on: the kind drawn, and the
/// random decision maker where nothing was drawn.
pub fn strategy_type_for_pick(picked: Option<PlayerStrategyType>) -> (strategy_type:
    PlayerStrategyType)
    ensures
        strategy_type == match picked {
            Some(drawn) => drawn,
            None => PlayerStrategyType::Random,
        },
{
    match picked {
        Some(drawn) => drawn,
        None => PlayerStrategyType::Random,
    }
}

/// A new decision maker of a kind picked at random, each kind with the same
/// chance.
pub fn get_random_player_strategy() -> Box<dyn PlayerStrategy> {
    let mut rng = entropy_generator();
    let strategies: Vec<PlayerStrategyType> = strategy_types();
    let strategy_type: PlayerStrategyType = strategy_type_for_pick(pick(&mut rng, &strategies));
    assert(all_strategy_types().contains(strategy_type)) by {
        assert(all_strategy_types()[0] == PlayerStrategyType::Random);
    }
    get_player_strategy(strategy_type)
}

} // verus!
