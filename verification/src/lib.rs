//! Replay of recorded chess games with engine-backed analysis.
//!
//! The crate replays a game move by move against an external rules engine,
//! obtains one evaluation per move from an external UCI engine, and derives
//! three artifacts from the score stream: the move indices at which the game
//! enters the middlegame and the endgame, the set of moves classified as
//! blunders (bucketed by phase), and the catalogued opening whose canonical
//! move sequence best matches the game's move prefix.

pub mod blunder;
pub mod board;
pub mod engine;
pub mod game;
pub mod lichess;
pub mod opening;
pub mod opening_counter;
pub mod opening_tree;
pub mod phase;
pub mod player;
pub mod replay;
pub mod report;
pub mod score;
pub mod text;
