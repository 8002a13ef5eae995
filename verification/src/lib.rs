//! A multi-player blackjack round engine: a card shoe, hands with soft-ace
//! totals, hit/stand rules, dealer play and settlement against the players'
//! banks.
//!
//! The engine does no input or output and never blocks. A front end calls one
//! command of [`Game`] for each action at the table and shows what the command
//! left behind.

pub mod card;
pub mod deal;
pub mod dealer_play;
pub mod deck;
pub mod error;
pub mod game;
pub mod hand;
pub mod player;
pub mod settlement;
pub mod state;
pub mod table;

pub use card::{Card, Color, Paint, Value};
pub use deck::Deck;
pub use error::GameError;
pub use game::Game;
pub use hand::Hand;
pub use player::{Dealer, Player, Who};
pub use settlement::{net_change, settle, Outcome};
pub use state::{Action, GameState, HitResult};
