//! Session core of an arcade game: a ranked high-score table with
//! deduplicating merge, the session state machine that drives the game's
//! screens, and the decision logic of the background leaderboard
//! synchronisation, all with verified contracts.

pub mod api;
pub mod highscores;
pub mod scoring;
pub mod session;
