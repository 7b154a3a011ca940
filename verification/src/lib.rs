//! Top Doggo: a pairwise-comparison voting game.
//!
//! The library holds the game's verified core: the Elo rating engine with its
//! two rating tracks, the XP/leveling formulas, the matchmaker with its
//! no-repeat and exhaustion rules, the session-continuity state machine, and
//! the magic-link authentication flow, all stated over an in-memory model of
//! the persistent store.

use vstd::prelude::*;

pub mod cookie;
pub mod decimal;
pub mod elo;
pub mod leaderboard;
pub mod magic_link;
pub mod matchmaker;
pub mod name_dog;
pub mod pick;
pub mod ratings;
pub mod session;
pub mod store;
pub mod upload;
mod rng;
pub mod xp;

pub use elo::{get_max_rating_change, MatchOutcome, RatingType};

verus! {

/// Which navigation tab the rendered page highlights.
#[derive(Clone, Copy, Debug, PartialEq, Eq, Structural)]
pub enum NavLink {
    Root,
    Leaderboard,
}

} // verus!
