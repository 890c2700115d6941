//! Read-only access to Quake-style `PACK` archives: a flat, indexed bundle
//! of named byte blobs.
//!
//! The library decodes the 12-byte header and the fixed-size entry index of
//! an archive held in memory, and extracts the payload of a named entry on
//! demand. Every decoding step is specified against the on-disk byte layout
//! and verified.

pub mod layout;
pub mod pak_error;
pub mod pak_file;
pub mod pak_file_entry;
pub mod pak_header;

pub use pak_error::PakError;
pub use pak_file::PakFile;
