pub mod state;
pub mod grammar;
pub mod pieces;
pub mod desugar;
pub mod descent;
pub mod sequence;
pub mod entry;
pub mod traits;
pub mod session;
pub mod fold;
