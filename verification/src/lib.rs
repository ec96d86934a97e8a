//! Two-player board games over compact boards, with a depth-bounded game-tree
//! search shared by all of them.
//!
//! - `pattern` and `cards`: the move cards of the grid game, each a pattern of
//!   cells, and the transforms that move and turn a pattern.
//! - `bits`: occupancy masks, one bit for each cell.
//! - `onitama`: the grid game.
//! - `mancala`: the pit game.
//! - `search`: what a game and an evaluator must offer, and the search that
//!   picks a move.
//! - `network`: the evaluator that is a feed-forward network.
//! - `driver`: the turn loop.
//! - `layout`: where the board lies in a window.
//! - `struggle`: bookkeeping for a card game played against a server.

pub mod bits;
pub mod cards;
pub mod driver;
pub mod layout;
pub mod mancala;
pub mod network;
pub mod onitama;
pub mod pattern;
pub mod search;
pub mod struggle;
