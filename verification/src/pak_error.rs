//! The error taxonomy of the archive reader.

use vstd::prelude::*;
use vstd::string::StringExecFns;

verus! {

/// Everything that can go wrong while opening an archive or extracting an
/// entry.  The first detected violation aborts the operation; nothing is
/// retried.
#[derive(Debug)]
pub enum PakError {
    /// A failure reported by the byte source itself, carrying the text of
    /// the underlying error.  The in-memory decoder never produces it; it is
    /// the variant through which a caller that reads archives from I/O
    /// reports the source's own failures.
    Io(String),
    /// A decoded field violated a structural constraint; the payload names
    /// the field, for example `"header.id"`.
    InvalidField(&'static str),
    /// Extraction found no entry with the requested name, carried here.
    MissingEntry(String),
    /// A read needed more bytes than the source holds.
    UnexpectedEof,
}

/// The short, deterministic rendering of an error: `Io` delegates to the
/// underlying error's text, the other kinds name themselves and carry
/// their payload.
pub open spec fn spec_message(e: PakError) -> Seq<char> {
    match e {
        PakError::Io(text) => text@,
        PakError::InvalidField(field) => "Invalid field ("@ + field@ + ")"@,
        PakError::MissingEntry(entry) => "Missing entry ("@ + entry@ + ")"@,
        PakError::UnexpectedEof => "Unexpected EOF"@,
    }
}

impl PakError {
    /// Renders the error as its short, deterministic text.
    pub fn message(&self) -> (r: String)
        ensures
            r@ == spec_message(*self),
    {
        match self {
            PakError::Io(text) => text.clone(),
            PakError::InvalidField(field) => {
                let mut text = String::from_str("Invalid field (");
                text.append(field);
                text.append(")");
                text
            },
            PakError::MissingEntry(entry) => {
                let mut text = String::from_str("Missing entry (");
                text.append(entry.as_str());
                text.append(")");
                text
            },
            PakError::UnexpectedEof => String::from_str("Unexpected EOF"),
        }
    }
}

} // verus!
