//! The errors of the engine.

use vstd::prelude::*;

verus! {

/// Why a command of the engine was refused. Each of them leaves the table
/// usable: the caller may correct the request and ask again.
#[derive(Debug, Clone, Copy, PartialEq, Eq, Structural)]
pub enum GameError {
    /// The requested number of players is not between 1 and 7.
    InvalidPlayerCount,
    /// No player has the given index.
    InvalidPlayerIndex,
    /// The bet is greater than the player's bank.
    BetExceedsBank,
    /// A card was needed and both piles of the shoe are empty.
    ShoeExhausted,
    /// A hit or stand was requested for a player who may not act.
    IllegalAction,
}

} // verus!
