//! The outside shell-link decoder, consumed as an opaque component: it
//! turns a byte buffer (or a position in one) into a structured shell-link
//! record, or fails.  Its record type is declared here so that decoded
//! entries can carry one, and each call the decoders make gets a wrapper.

use vstd::prelude::*;
use vstd::string::StringExecFns;

use std::collections::HashMap;

verus! {

#[verifier::external_type_specification]
#[verifier::external_body]
pub struct ExLNKParser(lnk_parser::LNKParser);

/// Whether the shell-link decoder accepts a whole buffer as one record.
/// The outcome depends on the bytes alone.
pub uninterp spec fn lnk_buffer_decodes(s: Seq<u8>) -> bool;

/// Where the shell-link decoder leaves the cursor after reading one record
/// that starts at `pos`, or `None` when it rejects the bytes.  The outcome
/// depends on the buffer and the start position alone.
pub uninterp spec fn lnk_stream_consumed(s: Seq<u8>, pos: int) -> Option<int>;

/// The flat field set the outside normalizer reports for one record,
/// keyed and valued by character content; a function of the record alone.
pub uninterp spec fn lnk_normal_fields(l: lnk_parser::LNKParser) -> Map<Seq<char>, Seq<char>>;

/// The record's optional display-name field, as the derived getter
/// renders it; a function of the record alone.
pub uninterp spec fn lnk_display_name(l: lnk_parser::LNKParser) -> Option<Seq<char>>;

/// The record's optional command-line-arguments field, as the derived
/// getter renders it; a function of the record alone.
pub uninterp spec fn lnk_arguments(l: lnk_parser::LNKParser) -> Option<Seq<char>>;

/// The flat row this library reports for one shell-link record: the
/// outside normalizer's field set, extended with the display name and the
/// command-line arguments, each empty when the record lacks the field.
pub open spec fn spec_lnk_row(l: lnk_parser::LNKParser) -> Map<Seq<char>, Seq<char>> {
    lnk_normal_fields(l).insert(
        "name_string"@,
        match lnk_display_name(l) {
            Some(n) => n,
            None => Seq::<char>::empty(),
        },
    ).insert(
        "command_line_arguments"@,
        match lnk_arguments(l) {
            Some(a) => a,
            None => Seq::<char>::empty(),
        },
    )
}

/// Relies on lnk_parser::LNKParser::from_buffer: decodes the whole buffer
/// as one shell-link record; deterministic in the bytes.
///
/// The decoder is not total: on an extra-data block whose size field is
/// below its own fixed overhead it under-flows the block length and stops
/// by panic (or a failing over-allocation) instead of by error.  Nothing
/// short of re-implementing the shell-link grammar could exclude such
/// inputs here, so freedom from panic at this call rests on the outside
/// crate, not on this library's proofs.
#[verifier::external_body]
pub(crate) fn lnk_from_buffer(data: &Vec<u8>) -> (r: Option<lnk_parser::LNKParser>)
    ensures
        r is Some <==> lnk_buffer_decodes(data@),
{
    lnk_parser::LNKParser::from_buffer(data.as_slice()).ok()
}

/// Relies on lnk_parser::LNKParser::from_reader: decodes one shell-link
/// record starting at `pos` and reports where the cursor ended up;
/// deterministic in the buffer and the start position.  On failure it
/// hands back the decoder's message.
///
/// The same caveat as for the buffer form holds: a malformed extra-data
/// block makes the decoder stop by panic rather than by error, so freedom
/// from panic at this call rests on the outside crate.
#[verifier::external_body]
pub(crate) fn lnk_from_stream(data: &Vec<u8>, pos: usize) -> (r: Result<
    (lnk_parser::LNKParser, usize),
    String,
>)
    ensures
        r is Ok <==> lnk_stream_consumed(data@, pos as int) is Some,
        r matches Ok(p) ==> lnk_stream_consumed(data@, pos as int) == Some(p.1 as int),
{
    let mut cur = std::io::Cursor::new(data.as_slice());
    cur.set_position(pos as u64);
    match lnk_parser::LNKParser::from_reader(&mut cur) {
        Ok(l) => Ok((l, cur.position() as usize)),
        Err(e) => Err(e.to_string()),
    }
}

/// Relies on the getter that lnk_parser derives for the record's optional
/// display-name field, and on StringData's rendering being a function of
/// the field's value.
#[verifier::external_body]
pub(crate) fn lnk_name_string(l: &lnk_parser::LNKParser) -> (r: Option<String>)
    ensures
        r is Some <==> lnk_display_name(*l) is Some,
        r matches Some(n) ==> n@ == lnk_display_name(*l)->0,
{
    l.get_name_string().as_ref().map(|s| s.to_string())
}

/// Relies on the getter that lnk_parser derives for the record's optional
/// command-line-arguments field.
#[verifier::external_body]
pub(crate) fn lnk_command_line_arguments(l: &lnk_parser::LNKParser) -> (r: Option<String>)
    ensures
        r is Some <==> lnk_arguments(*l) is Some,
        r matches Some(a) ==> a@ == lnk_arguments(*l)->0,
{
    l.get_command_line_arguments().as_ref().map(|s| s.to_string())
}

/// Relies on lnk_parser's Normalize impl: flattens a shell-link record
/// into a mapping of its most important fields, deterministic in the
/// record's value.
#[verifier::external_body]
pub(crate) fn lnk_normalize(l: &lnk_parser::LNKParser) -> (r: HashMap<String, String>)
    ensures
        r.deep_view() == lnk_normal_fields(*l),
{
    winparsingtools::traits::Normalize::normalize(l)
}

/// Relies on std's HashMap::insert at String keys: the map's deep view —
/// the content-keyed mapping — gains exactly the inserted pair.  Stated
/// here because vstd's map model conditions every clause on a key-model
/// fact it provides for no String key.
#[verifier::external_body]
pub(crate) fn map_insert_string(m: &mut HashMap<String, String>, k: String, v: String)
    ensures
        final(m).deep_view() == old(m).deep_view().insert(k@, v@),
{
    m.insert(k, v);
}

/// The flat field set of one shell-link record: its own normalized fields
/// plus a display name and the command-line arguments, each defaulting to
/// the empty string when the record lacks them.
pub(crate) fn normalized_lnk_fields(l: &lnk_parser::LNKParser) -> (r: HashMap<String, String>)
    ensures
        r.deep_view() == spec_lnk_row(*l),
{
    let mut m = lnk_normalize(l);
    let name_string = match lnk_name_string(l) {
        Some(s) => s,
        None => String::new(),
    };
    let command_line_arguments = match lnk_command_line_arguments(l) {
        Some(s) => s,
        None => String::new(),
    };
    map_insert_string(&mut m, String::from_str("name_string"), name_string);
    map_insert_string(&mut m, String::from_str("command_line_arguments"), command_line_arguments);
    m
}

} // verus!
