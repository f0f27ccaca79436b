//! Pattern of Doom: a terminal game of number patterns with a global chat.
//!
//! The library holds the game's verified logic: sequence generation, the
//! chat and command state machine of the terminal client, the account
//! lookups over stored user documents, and the text the client shows.

pub mod ai;
pub mod client;
pub mod database;
pub mod game_functions;
pub mod models;
pub mod signup;
pub mod text;
pub mod ui;
