pub mod board;
pub mod walker;
pub mod random;
pub mod rules;
pub mod life;
pub mod history;
pub mod laws;
