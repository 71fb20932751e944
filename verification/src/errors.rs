//! Error taxonomy of the jump list decoders.

use vstd::prelude::*;

verus! {

/// The errors that decoding a jump list artifact can surface.
///
/// Each variant carries a message describing the field or structure that
/// could not be decoded.
#[derive(Debug)]
pub enum JumplistParserError {
    /// A `DestList` stream could not be decoded as a whole.
    DestList(String),
    /// The fixed header of a `DestList` stream is malformed or incomplete.
    DestListHeader(String),
    /// A single `DestList` entry is malformed or incomplete.
    DestListEntry(String),
    /// An embedded shell-link record was rejected by the shell-link decoder.
    LnkEntry(String),
    /// A failure above the level of a single structure.
    JumplistParser(String),
    /// A field of the flat CustomDestinations stream is malformed, missing,
    /// or carries a value outside the closed set the format allows.
    FileStructure(String),
    /// Any other failure.
    General(String),
    /// The compound container holds no usable `DestList` stream.
    NoDestList(String),
    /// The file name ends in neither of the two recognised suffixes.
    FileType(String),
}

impl JumplistParserError {
    /// The message carried by the error, whatever the variant.
    pub open spec fn spec_message(&self) -> Seq<char> {
        match self {
            JumplistParserError::DestList(m) => m@,
            JumplistParserError::DestListHeader(m) => m@,
            JumplistParserError::DestListEntry(m) => m@,
            JumplistParserError::LnkEntry(m) => m@,
            JumplistParserError::JumplistParser(m) => m@,
            JumplistParserError::FileStructure(m) => m@,
            JumplistParserError::General(m) => m@,
            JumplistParserError::NoDestList(m) => m@,
            JumplistParserError::FileType(m) => m@,
        }
    }

    /// A copy of the message carried by the error.
    pub fn message(&self) -> (r: String)
        ensures
            r@ == self.spec_message(),
    {
        match self {
            JumplistParserError::DestList(m) => m.clone(),
            JumplistParserError::DestListHeader(m) => m.clone(),
            JumplistParserError::DestListEntry(m) => m.clone(),
            JumplistParserError::LnkEntry(m) => m.clone(),
            JumplistParserError::JumplistParser(m) => m.clone(),
            JumplistParserError::FileStructure(m) => m.clone(),
            JumplistParserError::General(m) => m.clone(),
            JumplistParserError::NoDestList(m) => m.clone(),
            JumplistParserError::FileType(m) => m.clone(),
        }
    }
}

} // verus!
