//! What holds of the library as a whole.
pub mod accounting;
pub mod counts;
pub mod delivery;
pub mod handlers;
pub mod receiving;
pub mod relay;
pub mod rounds;
pub mod runs;
pub mod sending;
pub mod steps;
pub mod texts;
pub mod tracking;
