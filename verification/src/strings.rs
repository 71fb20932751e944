//! Decoding of the two on-disk string shapes: length-prefixed UTF-16 and
//! fixed-width NUL-padded UTF-8.  The decoding itself is done by an outside
//! routine; each result is a function of the input bytes alone and is given
//! a name here, so that the decoders' contracts can speak of it exactly.

use vstd::prelude::*;

verus! {

/// What decoding a buffer of UTF-16 code units yields: `None` when the
/// units are not valid UTF-16, otherwise the decoded characters, stopping
/// at the first NUL unit.
pub uninterp spec fn utf16_units_decoded(s: Seq<u8>) -> Option<Seq<char>>;

/// What decoding a fixed-width UTF-8 field yields: `None` when the bytes
/// are not valid UTF-8, otherwise the decoded characters, stopping at the
/// first NUL byte (the fields are NUL-padded on disk).
pub uninterp spec fn utf8_trimmed_decoded(s: Seq<u8>) -> Option<Seq<char>>;

/// Relies on winparsingtools::utils::read_utf16_string: over a buffer of
/// exactly `2 * units` bytes it reads `units` little-endian code units and
/// decodes them as UTF-16, stopping at the first NUL unit; the outcome
/// depends on the bytes alone.
#[verifier::external_body]
pub(crate) fn utf16_string_from_units(data: &Vec<u8>, units: usize) -> (r: Option<String>)
    requires
        data@.len() == 2 * units,
    ensures
        r is Some <==> utf16_units_decoded(data@) is Some,
        r is Some ==> r->0@ == utf16_units_decoded(data@)->0,
{
    let mut cur = std::io::Cursor::new(data.as_slice());
    winparsingtools::utils::read_utf16_string(&mut cur, Some(units)).ok()
}

/// Relies on winparsingtools::utils::read_utf8_string: over a buffer it
/// reads every byte and decodes the bytes before the first NUL as UTF-8;
/// the outcome depends on the bytes alone.
#[verifier::external_body]
pub(crate) fn utf8_string_trimmed(data: &Vec<u8>) -> (r: Option<String>)
    ensures
        r is Some <==> utf8_trimmed_decoded(data@) is Some,
        r is Some ==> r->0@ == utf8_trimmed_decoded(data@)->0,
{
    let mut cur = std::io::Cursor::new(data.as_slice());
    winparsingtools::utils::read_utf8_string(&mut cur, Some(data.len())).ok()
}

} // verus!
