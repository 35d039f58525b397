pub mod rng;
pub mod logic;
pub mod mcts;
pub mod encode;
pub mod predict;
pub mod records;
