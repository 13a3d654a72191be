//! Search bookkeeping and deal analysis for a Klondike solitaire solver.

pub mod tracking;
pub mod confidence;
pub mod deal;
pub mod search_stats;
pub mod moves;
pub mod session;
pub mod play;
