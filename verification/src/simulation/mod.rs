pub mod accumulator;
pub mod simulator;
