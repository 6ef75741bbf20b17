//! A whitespace-token reader: sequential, typed extraction of
//! whitespace-delimited tokens from an in-memory text buffer.

pub mod parse;
pub mod reader;
pub mod tokens;
pub mod tuple;

pub use parse::FromToken;
pub use reader::InputReader;
pub use tokens::is_space;
pub use tokens::tokens_from;
pub use tuple::TupleFromStr;
