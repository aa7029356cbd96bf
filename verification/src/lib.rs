//! A minimal chess position library: an 8x8 board of optionally occupied
//! squares, a piece model, a square-addressing scheme, and a bidirectional
//! textual encoding compatible with the FEN board and side-to-move fields.

pub mod board;
pub mod fen;
pub mod piece;
pub mod square;
mod text;

pub use board::Board;
pub use fen::FenError;
pub use piece::Piece;
pub use piece::PieceColor;
pub use piece::PieceKind;
pub use square::ParseSquareError;
pub use square::Square;
