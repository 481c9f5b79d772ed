//! Readers for the resource files of a classic top-down racing game: FXT
//! text resources (a positional byte cipher, then `[key]value\0` records),
//! bitmap fonts, and G24 graphics headers.
pub mod cipher;
pub mod errors;
pub mod file_decoder;
pub mod font;
pub mod fxt;
pub mod fxt_map;
pub mod g24;
pub mod records;

pub use errors::{FXTError, RNCError};
pub use file_decoder::{Decoder, FileDecoder, TextDecoder};
pub use font::{Character, Font, FontParser};
pub use fxt::{parse_fxt, parse_fxt_impl};
pub use fxt_map::FxtMap;
pub use g24::{G24Header, G24Parser, G24ParserError};
