//! The outside compound-binary-container reader, consumed as an opaque
//! component over an in-memory buffer: list the named streams, and read one
//! stream to completion.  Opening, walking and reading are deterministic in
//! the container's bytes, so each outcome is given a spec-level name here;
//! the decoders' contracts then say exactly which stream was looked up and
//! what came back.

use vstd::prelude::*;

verus! {

#[verifier::external_type_specification]
#[verifier::external_body]
#[verifier::reject_recursive_types(F)]
pub struct ExCompoundFile<F>(cfb::CompoundFile<F>);

#[verifier::external_type_specification]
#[verifier::external_body]
pub struct ExEntry(cfb::Entry);

#[verifier::external_type_specification]
#[verifier::external_body]
#[verifier::reject_recursive_types(T)]
pub struct ExCursor<T>(std::io::Cursor<T>);

/// The name of a stream entry of the container.
pub uninterp spec fn entry_stream_name(e: cfb::Entry) -> Seq<char>;

/// The length, in bytes, of a stream entry of the container.
pub uninterp spec fn entry_stream_size(e: cfb::Entry) -> u64;

/// The full path of a stream entry within the container's storage tree.
pub uninterp spec fn entry_stream_path(e: cfb::Entry) -> Seq<char>;

/// Whether the container reader accepts a buffer as a compound container.
pub uninterp spec fn cfb_accepts(s: Seq<u8>) -> bool;

/// The bytes an opened container was opened from.
pub uninterp spec fn cfb_data(c: cfb::CompoundFile<std::io::Cursor<Vec<u8>>>) -> Seq<u8>;

/// The names of the container's entries, in the walk's preorder.
pub uninterp spec fn cfb_stream_names(s: Seq<u8>) -> Seq<Seq<char>>;

/// The lengths of the container's entries, in the walk's preorder.
pub uninterp spec fn cfb_stream_sizes(s: Seq<u8>) -> Seq<u64>;

/// The full paths of the container's entries, in the walk's preorder.
pub uninterp spec fn cfb_stream_paths(s: Seq<u8>) -> Seq<Seq<char>>;

/// What reading the stream at `path` of a container holding `s` yields:
/// `None` when no stream stands at that path.
pub uninterp spec fn cfb_stream_bytes(s: Seq<u8>, path: Seq<char>) -> Option<Seq<u8>>;

/// The names of a listing's entries, in order.
pub open spec fn listing_names(es: Seq<cfb::Entry>) -> Seq<Seq<char>> {
    es.map_values(|e: cfb::Entry| entry_stream_name(e))
}

/// The lengths of a listing's entries, in order.
pub open spec fn listing_sizes(es: Seq<cfb::Entry>) -> Seq<u64> {
    es.map_values(|e: cfb::Entry| entry_stream_size(e))
}

/// The full paths of a listing's entries, in order.
pub open spec fn listing_paths(es: Seq<cfb::Entry>) -> Seq<Seq<char>> {
    es.map_values(|e: cfb::Entry| entry_stream_path(e))
}

/// Relies on cfb::CompoundFile::open: parses an in-memory buffer as a
/// compound container; acceptance and the resulting container depend on
/// the bytes alone.  On failure it hands back the reader's message.
#[verifier::external_body]
pub(crate) fn cfb_open(data: Vec<u8>) -> (r: Result<
    cfb::CompoundFile<std::io::Cursor<Vec<u8>>>,
    String,
>)
    ensures
        r is Ok <==> cfb_accepts(data@),
        r matches Ok(c) ==> cfb_data(c) == data@,
{
    cfb::CompoundFile::open(std::io::Cursor::new(data)).map_err(|e| e.to_string())
}

/// Relies on cfb::CompoundFile::walk: lists every entry of the container,
/// in preorder of its storage tree; deterministic in the container's bytes.
#[verifier::external_body]
pub(crate) fn cfb_walk(c: &cfb::CompoundFile<std::io::Cursor<Vec<u8>>>) -> (r: Vec<cfb::Entry>)
    ensures
        listing_names(r@) == cfb_stream_names(cfb_data(*c)),
        listing_sizes(r@) == cfb_stream_sizes(cfb_data(*c)),
        listing_paths(r@) == cfb_stream_paths(cfb_data(*c)),
{
    c.walk().collect()
}

/// Relies on cfb::Entry::name.
#[verifier::external_body]
pub(crate) fn cfb_entry_name(e: &cfb::Entry) -> (r: String)
    ensures
        r@ == entry_stream_name(*e),
{
    e.name().to_string()
}

/// Relies on cfb::Entry::len.
#[verifier::external_body]
pub(crate) fn cfb_entry_len(e: &cfb::Entry) -> (r: u64)
    ensures
        r == entry_stream_size(*e),
{
    e.len()
}

/// Relies on cfb::CompoundFile::open_stream and std::io::Read::read_to_end:
/// reads the whole stream at `e`'s path, or fails if no stream stands
/// there.  Reading only caches: the container's bytes stay what they were.
#[verifier::external_body]
pub(crate) fn cfb_read_stream(
    c: &mut cfb::CompoundFile<std::io::Cursor<Vec<u8>>>,
    e: &cfb::Entry,
) -> (r: Option<Vec<u8>>)
    ensures
        cfb_data(*final(c)) == cfb_data(*old(c)),
        r is Some <==> cfb_stream_bytes(cfb_data(*old(c)), entry_stream_path(*e)) is Some,
        r matches Some(b) ==> b@ == cfb_stream_bytes(
            cfb_data(*old(c)),
            entry_stream_path(*e),
        )->0,
{
    let mut stream = match c.open_stream(e.path()) {
        Ok(s) => s,
        Err(_) => { return None },
    };
    let mut buffer = Vec::new();
    match std::io::Read::read_to_end(&mut stream, &mut buffer) {
        Ok(_) => Some(buffer),
        Err(_) => None,
    }
}

} // verus!
