//! Hexagonal game-board model: storage-grid to hex-coordinate mapping, the
//! liveness rule that trims a rectangular grid into a hexagon, the board
//! builder, and the closed-form count of hexes on a board.

pub mod csvmfr;
pub mod hex_board;
pub mod hexagon;
pub mod util;

pub use hex_board::{BoardError, HexBoard};
pub use hexagon::{GridId, HexId, HexState, Hexagon};
pub use util::hex_count;

