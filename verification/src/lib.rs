pub mod evaluator;
pub mod normalize;
pub mod session;
