//! Runtime string templating: format strings are parsed at call time into
//! literal text and placeholders, and placeholders are resolved against a
//! table of formattable values.

pub mod error;
pub mod fmt;
pub mod grammar;
pub mod impls;
pub mod integer;
pub mod laws;
pub mod name_map;
pub mod number;
pub mod parse;
pub mod piece;
pub mod table;
pub mod tables;
pub mod text;
pub mod util;

pub use error::{FormattingError, ParseError, SingleFmtError};
pub use fmt::{BoxOrRef, Fmt};
pub use name_map::NameMap;
pub use parse::parse;
pub use piece::Piece;
pub use table::{format_one, format_pieces, FormatTable, FormatTableExt};
