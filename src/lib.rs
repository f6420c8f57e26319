pub mod database;
pub mod element;
pub mod error;
pub mod movetext;
pub mod san_move;
pub mod symbol;
pub mod tags;
pub mod text;
pub mod tokens;

pub use database::{parse_pgn, PgnDatabase, PgnGame};
pub use element::{
    if_some_with, Element, ElementP, ElementSuffix, GameTermination, MoveNumberIndication,
};
pub use error::PgnError;
pub use movetext::{ElementSequence, MovetextSection, SequenceMember};
pub use san_move::{
    Capture, Check, Disambiguation, File, Piece, PieceSpec, Promotion, Rank, SanMove, SanMoveDetail,
    SanMoveType, Square,
};
pub use symbol::Symbol;
pub use tags::{TagPair, TagSection};
pub use tokens::{parse_pgn_string, NumericAnnotationGlyph};
