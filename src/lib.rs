//! Length-prefixed, type-tagged, CRC-checked byte records, as found in PNG
//! files, with their four-letter type tags.

pub mod chunk_type;
mod text;
pub mod chunk;
pub mod args;
