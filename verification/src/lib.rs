//! Rules engine of a five-player game of Mighty: dealing, the bidding for
//! the presidency, the legality of each play, the trick winner, and scoring,
//! together with the room registry that seats the players of a game.

pub mod cards;
pub mod lobby;
pub mod deal;
pub mod table;
pub mod trick;
pub mod scoring;
pub mod bidding;
