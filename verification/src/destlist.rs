//! Decoder for `DestList` index streams of automatic jump lists, and the
//! correlation of their entries to the embedded shell-link streams stored
//! beside them in the same compound container.
//!
//! Decoding is lenient at the granularity of whole entries: a malformed
//! entry ends the entry loop, and everything decoded before it is kept,
//! because these streams are frequently truncated in the wild.

use vstd::prelude::*;
use vstd::string::StringExecFns;

use std::collections::HashMap;

use crate::bytes::{le16_at, le32_at, le64_at, ByteReader};
use crate::compound::{cfb_data, cfb_entry_len, cfb_entry_name, cfb_read_stream,
    cfb_stream_bytes, entry_stream_name, entry_stream_path, entry_stream_size, listing_names,
    listing_paths, listing_sizes};
use crate::errors::JumplistParserError;
use crate::guid::{spec_guid_at, Guid};
use crate::hex::{lower_hex_no_pad, lower_hex_string};
use crate::lnk::{lnk_buffer_decodes, lnk_from_buffer, normalized_lnk_fields, spec_lnk_row};
use crate::strings::{utf16_string_from_units, utf16_units_decoded, utf8_string_trimmed,
    utf8_trimmed_decoded};

verus! {

/// The fixed header of a `DestList` stream: three counters followed by 20
/// reserved bytes.
#[derive(Debug, Clone, Copy, PartialEq, Eq, Structural)]
pub struct DestListHeader {
    pub version: u32,
    pub number_of_entries: u32,
    pub number_of_pinned_entries: u32,
}

/// `x`, stopped at `hi`.
pub open spec fn clamp_to(x: int, hi: int) -> int {
    if x <= hi {
        x
    } else {
        hi
    }
}

/// The header whose bytes start at `pos`, with the position after it, or
/// `None` when fewer than twelve bytes remain for its counters.  The 20
/// reserved bytes are skipped without being required to be present.
pub open spec fn spec_header_at(s: Seq<u8>, pos: int) -> Option<(DestListHeader, int)> {
    if pos + 12 <= s.len() {
        Some(
            (
                DestListHeader {
                    version: le32_at(s, pos) as u32,
                    number_of_entries: le32_at(s, pos + 4) as u32,
                    number_of_pinned_entries: le32_at(s, pos + 8) as u32,
                },
                clamp_to(pos + 32, s.len() as int),
            ),
        )
    } else {
        None
    }
}

/// Which header field fails first when the bytes end inside the header.
pub open spec fn spec_header_fail_message(s: Seq<u8>, pos: int) -> Seq<char> {
    if pos + 4 > s.len() {
        "Can't parse the 'version'"@
    } else if pos + 8 > s.len() {
        "Can't parse the 'number_of_entries'"@
    } else {
        "Can't parse the 'number_of_pinned_entries'"@
    }
}

impl DestListHeader {
    /// Decodes the header from the start of a buffer.
    pub fn from_buffer(buf: &[u8]) -> (res: Result<DestListHeader, JumplistParserError>)
        ensures
            res is Ok <==> spec_header_at(buf@, 0) is Some,
            res is Ok ==> res->Ok_0 == (spec_header_at(buf@, 0)->0).0,
            res is Err ==> (res->Err_0 is DestListHeader && res->Err_0.spec_message()
                == spec_header_fail_message(buf@, 0)),
    {
        let data = vstd::slice::slice_to_vec(buf);
        let mut r = ByteReader::new(data);
        DestListHeader::from_reader(&mut r)
    }

    /// Decodes the header at the reader's position.
    pub fn from_reader(r: &mut ByteReader) -> (res: Result<DestListHeader, JumplistParserError>)
        requires
            old(r).wf(),
        ensures
            final(r).wf(),
            final(r).bytes() == old(r).bytes(),
            res is Ok <==> spec_header_at(old(r).bytes(), old(r).position()) is Some,
            res is Ok ==> {
                &&& res->Ok_0 == (spec_header_at(old(r).bytes(), old(r).position())->0).0
                &&& final(r).position() == (spec_header_at(old(r).bytes(), old(r).position())->0).1
            },
            res is Err ==> (res->Err_0 is DestListHeader && res->Err_0.spec_message()
                == spec_header_fail_message(old(r).bytes(), old(r).position())),
    {
        let version = match r.read_u32_le() {
            Some(v) => v,
            None => {
                return Err(
                    JumplistParserError::DestListHeader(
                        String::from_str("Can't parse the 'version'"),
                    ),
                );
            },
        };
        let number_of_entries = match r.read_u32_le() {
            Some(v) => v,
            None => {
                return Err(
                    JumplistParserError::DestListHeader(
                        String::from_str("Can't parse the 'number_of_entries'"),
                    ),
                );
            },
        };
        let number_of_pinned_entries = match r.read_u32_le() {
            Some(v) => v,
            None => {
                return Err(
                    JumplistParserError::DestListHeader(
                        String::from_str("Can't parse the 'number_of_pinned_entries'"),
                    ),
                );
            },
        };
        r.skip(20);
        Ok(DestListHeader { version, number_of_entries, number_of_pinned_entries })
    }
}

/// A single entry of a `DestList` stream.  The shell-link record, if one
/// was resolved during correlation, hangs off `lnk`; everything else comes
/// straight from the entry's bytes.
#[derive(Debug)]
pub struct DestListEntry {
    pub entry_id: Option<usize>,
    /// GUID of the volume the target resides on.
    pub volume_droid: Guid,
    /// GUID of the target itself.
    pub file_droid: Guid,
    /// Volume birth GUID.
    pub volume_birth_droid: Guid,
    /// File birth GUID.
    pub file_birth_droid: Guid,
    /// Hostname where the target was accessed, a 16-byte NUL-padded field.
    pub hostname: String,
    /// The ordinal correlating this entry to the embedded shell-link stream
    /// named by its lowercase hexadecimal form.
    pub entry_number: u32,
    /// Last modification time, as a raw 64-bit file time.
    pub mtime: u64,
    /// Whether the entry is pinned.
    pub pined: bool,
    /// UTF-16 path of the target.
    pub path: String,
    /// The shell-link record resolved for this entry, if any.
    pub lnk: Option<lnk_parser::LNKParser>,
}

/// What an entry's bytes say, independent of any resolved shell-link.
#[verifier::ext_equal]
pub struct DestListEntryView {
    pub volume_droid: Guid,
    pub file_droid: Guid,
    pub volume_birth_droid: Guid,
    pub file_birth_droid: Guid,
    pub hostname: Seq<char>,
    pub entry_number: u32,
    pub mtime: u64,
    pub pined: bool,
    pub path: Seq<char>,
}

impl View for DestListEntry {
    type V = DestListEntryView;

    open spec fn view(&self) -> DestListEntryView {
        DestListEntryView {
            volume_droid: self.volume_droid,
            file_droid: self.file_droid,
            volume_birth_droid: self.volume_birth_droid,
            file_birth_droid: self.file_birth_droid,
            hostname: self.hostname@,
            entry_number: self.entry_number,
            mtime: self.mtime,
            pined: self.pined,
            path: self.path@,
        }
    }
}

/// How many bytes an entry occupies before its path-length field: versions
/// above 1 carry one more 16-byte reserved block.
pub open spec fn entry_fixed_len(version: u32) -> int {
    if version > 1 {
        128
    } else {
        112
    }
}

/// The entry whose bytes start at `pos`, with the position after it, or
/// `None` when the bytes do not hold one whole entry.  The trailing
/// four-byte reserved block of versions above 1 is skipped without being
/// required to be present.
pub open spec fn spec_entry_at(s: Seq<u8>, pos: int, version: u32) -> Option<
    (DestListEntryView, int),
> {
    let f = entry_fixed_len(version);
    if pos + f + 2 > s.len() {
        None
    } else {
        let hostname = utf8_trimmed_decoded(s.subrange(pos + 72, pos + 88));
        let plen = le16_at(s, pos + f) as int;
        if hostname is None {
            None
        } else if pos + f + 2 + 2 * plen > s.len() {
            None
        } else {
            let path = utf16_units_decoded(s.subrange(pos + f + 2, pos + f + 2 + 2 * plen));
            if path is None {
                None
            } else {
                let end = if version > 1 {
                    clamp_to(pos + f + 2 + 2 * plen + 4, s.len() as int)
                } else {
                    pos + f + 2 + 2 * plen
                };
                Some(
                    (
                        DestListEntryView {
                            volume_droid: spec_guid_at(s, pos + 8),
                            file_droid: spec_guid_at(s, pos + 24),
                            volume_birth_droid: spec_guid_at(s, pos + 40),
                            file_birth_droid: spec_guid_at(s, pos + 56),
                            hostname: hostname->0,
                            entry_number: le32_at(s, pos + 88) as u32,
                            mtime: le64_at(s, pos + 100) as u64,
                            pined: le32_at(s, pos + 108) != 0xFFFFFFFF,
                            path: path->0,
                        },
                        end,
                    ),
                )
            }
        }
    }
}

/// Which entry field fails first when the bytes do not hold one whole
/// entry: the name the structural error carries.
pub open spec fn spec_entry_fail_message(s: Seq<u8>, pos: int, version: u32) -> Seq<char> {
    let f = entry_fixed_len(version);
    if pos + 24 > s.len() {
        "Can't parse the 'volume_droid'"@
    } else if pos + 40 > s.len() {
        "Can't parse the 'file_droid'"@
    } else if pos + 56 > s.len() {
        "Can't parse the 'volume_birth_droid'"@
    } else if pos + 72 > s.len() {
        "Can't parse the 'file_birth_droid'"@
    } else if pos + 88 > s.len() {
        "Can't parse the 'hostname'"@
    } else if utf8_trimmed_decoded(s.subrange(pos + 72, pos + 88)) is None {
        "Can't parse the 'hostname'"@
    } else if pos + 92 > s.len() {
        "Can't parse the 'entry_number'"@
    } else if pos + 108 > s.len() {
        "Can't parse the 'mtime'"@
    } else if pos + 112 > s.len() {
        "Can't parse the 'pined'"@
    } else if pos + f + 2 > s.len() {
        "Can't parse the 'path_size'"@
    } else {
        "Can't parse the 'path'"@
    }
}

/// The views of a sequence of decoded entries.
pub open spec fn entry_views(s: Seq<DestListEntry>) -> Seq<DestListEntryView> {
    s.map_values(|e: DestListEntry| e@)
}

/// Every whole entry from `pos` on: decoding stops at the first entry the
/// bytes do not hold whole.
pub open spec fn spec_entries_at(s: Seq<u8>, pos: int, version: u32) -> Seq<DestListEntryView>
    decreases s.len() - pos,
{
    if pos < 0 || pos > s.len() {
        Seq::empty()
    } else {
        match spec_entry_at(s, pos, version) {
            None => Seq::empty(),
            Some(ep) => seq![ep.0] + spec_entries_at(s, ep.1, version),
        }
    }
}

impl DestListEntry {
    /// Decodes one entry from the start of a buffer.
    pub fn from_buffer(buf: &[u8], version: u32) -> (res: Result<
        DestListEntry,
        JumplistParserError,
    >)
        ensures
            res is Ok <==> spec_entry_at(buf@, 0, version) is Some,
            res is Ok ==> {
                &&& res->Ok_0@ == (spec_entry_at(buf@, 0, version)->0).0
                &&& res->Ok_0.lnk is None
                &&& res->Ok_0.entry_id is None
            },
            res is Err ==> (res->Err_0 is DestListEntry && res->Err_0.spec_message()
                == spec_entry_fail_message(buf@, 0, version)),
    {
        let data = vstd::slice::slice_to_vec(buf);
        let mut r = ByteReader::new(data);
        DestListEntry::from_reader(&mut r, version)
    }

    /// Decodes one entry at the reader's position, at the layout that
    /// `version` selects.
    pub fn from_reader(r: &mut ByteReader, version: u32) -> (res: Result<
        DestListEntry,
        JumplistParserError,
    >)
        requires
            old(r).wf(),
        ensures
            final(r).wf(),
            final(r).bytes() == old(r).bytes(),
            res is Ok <==> spec_entry_at(old(r).bytes(), old(r).position(), version) is Some,
            res is Ok ==> {
                &&& res->Ok_0@ == (spec_entry_at(old(r).bytes(), old(r).position(), version)->0).0
                &&& res->Ok_0.lnk is None
                &&& res->Ok_0.entry_id is None
                &&& final(r).position() == (spec_entry_at(
                    old(r).bytes(),
                    old(r).position(),
                    version,
                )->0).1
            },
            res is Err ==> (res->Err_0 is DestListEntry && res->Err_0.spec_message()
                == spec_entry_fail_message(old(r).bytes(), old(r).position(), version)),
    {
        r.skip(8);
        let volume_droid = match Guid::from_reader(r) {
            Some(g) => g,
            None => {
                return Err(
                    JumplistParserError::DestListEntry(
                        String::from_str("Can't parse the 'volume_droid'"),
                    ),
                );
            },
        };
        let file_droid = match Guid::from_reader(r) {
            Some(g) => g,
            None => {
                return Err(
                    JumplistParserError::DestListEntry(
                        String::from_str("Can't parse the 'file_droid'"),
                    ),
                );
            },
        };
        let volume_birth_droid = match Guid::from_reader(r) {
            Some(g) => g,
            None => {
                return Err(
                    JumplistParserError::DestListEntry(
                        String::from_str("Can't parse the 'volume_birth_droid'"),
                    ),
                );
            },
        };
        let file_birth_droid = match Guid::from_reader(r) {
            Some(g) => g,
            None => {
                return Err(
                    JumplistParserError::DestListEntry(
                        String::from_str("Can't parse the 'file_birth_droid'"),
                    ),
                );
            },
        };
        let hostname_bytes = match r.read_bytes(16) {
            Some(b) => b,
            None => {
                return Err(
                    JumplistParserError::DestListEntry(
                        String::from_str("Can't parse the 'hostname'"),
                    ),
                );
            },
        };
        let hostname = match utf8_string_trimmed(&hostname_bytes) {
            Some(h) => h,
            None => {
                return Err(
                    JumplistParserError::DestListEntry(
                        String::from_str("Can't parse the 'hostname'"),
                    ),
                );
            },
        };
        let entry_number = match r.read_u32_le() {
            Some(v) => v,
            None => {
                return Err(
                    JumplistParserError::DestListEntry(
                        String::from_str("Can't parse the 'entry_number'"),
                    ),
                );
            },
        };
        r.skip(8);
        let mtime = match r.read_u64_le() {
            Some(v) => v,
            None => {
                return Err(
                    JumplistParserError::DestListEntry(String::from_str("Can't parse the 'mtime'")),
                );
            },
        };
        // Any value but the sentinel means pinned; the value's ordering is
        // not interpreted further.
        let pined = match r.read_u32_le() {
            Some(v) => v != 0xFFFFFFFF,
            None => {
                return Err(
                    JumplistParserError::DestListEntry(String::from_str("Can't parse the 'pined'")),
                );
            },
        };
        if version > 1 {
            r.skip(16);
        }
        let path_size = match r.read_u16_le() {
            Some(v) => v,
            None => {
                return Err(
                    JumplistParserError::DestListEntry(
                        String::from_str("Can't parse the 'path_size'"),
                    ),
                );
            },
        };
        let path_bytes = match r.read_bytes(2 * (path_size as usize)) {
            Some(b) => b,
            None => {
                return Err(
                    JumplistParserError::DestListEntry(String::from_str("Can't parse the 'path'")),
                );
            },
        };
        let path = match utf16_string_from_units(&path_bytes, path_size as usize) {
            Some(p) => p,
            None => {
                return Err(
                    JumplistParserError::DestListEntry(String::from_str("Can't parse the 'path'")),
                );
            },
        };
        if version > 1 {
            r.skip(4);
        }
        Ok(
            DestListEntry {
                entry_id: None,
                volume_droid,
                file_droid,
                volume_birth_droid,
                file_birth_droid,
                hostname,
                entry_number,
                mtime,
                pined,
                path,
                lnk: None,
            },
        )
    }
}

/// Decodes entries until the bytes run out or an entry is malformed; what
/// was decoded before that point is kept.
fn decode_entries(r: &mut ByteReader, version: u32) -> (entries: Vec<DestListEntry>)
    requires
        old(r).wf(),
    ensures
        final(r).wf(),
        final(r).bytes() == old(r).bytes(),
        entry_views(entries@) == spec_entries_at(old(r).bytes(), old(r).position(), version),
        forall|i: int|
            0 <= i < entries@.len() ==> (#[trigger] entries@[i]).lnk is None
                && entries@[i].entry_id is None,
{
    let mut entries: Vec<DestListEntry> = Vec::new();
    loop
        invariant
            r.wf(),
            r.bytes() == old(r).bytes(),
            spec_entries_at(old(r).bytes(), old(r).position(), version) == entry_views(entries@)
                + spec_entries_at(r.bytes(), r.position(), version),
            forall|i: int|
                0 <= i < entries@.len() ==> (#[trigger] entries@[i]).lnk is None
                    && entries@[i].entry_id is None,
        decreases r.bytes().len() - r.position(),
    {
        let ghost pre_views = entry_views(entries@);
        let ghost cur = r.position();
        match DestListEntry::from_reader(r, version) {
            Ok(e) => {
                proof {
                    let ep = spec_entry_at(r.bytes(), cur, version)->0;
                    assert(entry_views(entries@.push(e)) =~= pre_views.push(e@));
                    assert(spec_entries_at(r.bytes(), cur, version) == seq![ep.0]
                        + spec_entries_at(r.bytes(), ep.1, version));
                    assert(pre_views.push(e@) + spec_entries_at(r.bytes(), r.position(), version)
                        =~= pre_views + spec_entries_at(r.bytes(), cur, version));
                }
                entries.push(e);
            },
            Err(_) => {
                proof {
                    assert(spec_entries_at(r.bytes(), cur, version) =~= Seq::empty());
                    assert(entry_views(entries@) + Seq::<DestListEntryView>::empty() =~= entry_views(
                        entries@,
                    ));
                }
                return entries;
            },
        }
    }
}

/// Entries in descending ordinal order.
pub open spec fn sorted_desc(s: Seq<DestListEntryView>) -> bool {
    forall|i: int, j: int|
        0 <= i < j < s.len() ==> s[i].entry_number >= s[j].entry_number
}

/// Where a stable descending insertion places an element with ordinal
/// `key`: after every element whose ordinal is at least `key`.
pub open spec fn insert_pos_desc(s: Seq<DestListEntryView>, key: u32) -> int
    decreases s.len(),
{
    if s.len() == 0 {
        0
    } else if s[0].entry_number < key {
        0
    } else {
        1 + insert_pos_desc(s.drop_first(), key)
    }
}

pub open spec fn spec_insert_desc(s: Seq<DestListEntryView>, e: DestListEntryView) -> Seq<
    DestListEntryView,
> {
    s.insert(insert_pos_desc(s, e.entry_number), e)
}

/// Stable sort by ordinal, descending: higher ordinals were assigned
/// later, so this reconstructs most-recently-used-first order; entries
/// with equal ordinals keep their input order.
pub open spec fn spec_sort_desc(s: Seq<DestListEntryView>) -> Seq<DestListEntryView>
    decreases s.len(),
{
    if s.len() == 0 {
        Seq::empty()
    } else {
        spec_insert_desc(spec_sort_desc(s.drop_last()), s.last())
    }
}

proof fn lemma_insert_pos_desc_props(s: Seq<DestListEntryView>, key: u32)
    ensures
        0 <= insert_pos_desc(s, key) <= s.len(),
        forall|k: int| 0 <= k < insert_pos_desc(s, key) ==> s[k].entry_number >= key,
        insert_pos_desc(s, key) < s.len() ==> s[insert_pos_desc(s, key)].entry_number < key,
    decreases s.len(),
{
    if s.len() == 0 {
    } else if s[0].entry_number < key {
    } else {
        lemma_insert_pos_desc_props(s.drop_first(), key);
        let p = insert_pos_desc(s, key);
        assert forall|k: int| 0 <= k < p implies s[k].entry_number >= key by {
            if k >= 1 {
                assert(s.drop_first()[k - 1] == s[k]);
            }
        }
        if p < s.len() {
            assert(s.drop_first()[p - 1] == s[p]);
        }
    }
}

/// Inserts `e` after every element whose ordinal is at least as large.
fn insert_entry_desc(out: &mut Vec<DestListEntry>, e: DestListEntry)
    ensures
        entry_views(final(out)@) == spec_insert_desc(entry_views(old(out)@), e@),
        final(out)@.to_multiset() == old(out)@.to_multiset().insert(e),
{
    let ghost views = entry_views(old(out)@);
    let ghost key = e@.entry_number;
    let mut j: usize = 0;
    while j < out.len() && out[j].entry_number >= e.entry_number
        invariant
            j <= out@.len(),
            *out == *old(out),
            forall|k: int| 0 <= k < j ==> entry_views(out@)[k].entry_number >= e@.entry_number,
        decreases out@.len() - j,
    {
        proof {
            assert(entry_views(out@)[j as int] == out@[j as int]@);
        }
        j = j + 1;
    }
    proof {
        lemma_insert_pos_desc_props(views, key);
        let p = insert_pos_desc(views, key);
        if j < out@.len() {
            assert(entry_views(out@)[j as int] == out@[j as int]@);
        }
        assert(j == p) by {
            if (j as int) < p {
                assert(views[j as int].entry_number >= key);
                assert(views[j as int] == out@[j as int]@);
            }
            if p < (j as int) {
                assert(views[p].entry_number >= key);
            }
        }
    }
    out.insert(j, e);
    proof {
        assert(entry_views(out@) =~= spec_insert_desc(views, e@));
        broadcast use vstd::seq_lib::group_seq_properties;

        let pre = old(out)@;
        let p = insert_pos_desc(views, key) as int;
        assert(out@ == pre.subrange(0, p).push(e) + pre.subrange(p, pre.len() as int));
        vstd::seq_lib::lemma_multiset_commutative(pre.subrange(0, p).push(e), pre.subrange(p, pre.len() as int));
        vstd::seq_lib::lemma_multiset_commutative(pre.subrange(0, p), pre.subrange(p, pre.len() as int));
        pre.subrange(0, p).to_multiset_ensures();
        assert(pre.subrange(0, p) + pre.subrange(p, pre.len() as int) =~= pre);
        assert(out@.to_multiset() =~= pre.to_multiset().insert(e));
    }
}

/// Sorts decoded entries by ordinal, descending and stable.
fn sort_entries_desc(entries: Vec<DestListEntry>) -> (out: Vec<DestListEntry>)
    ensures
        entry_views(out@) == spec_sort_desc(entry_views(entries@)),
        out@.to_multiset() == entries@.to_multiset(),
{
    let ghost orig = entries@;
    let mut src = entries;
    let mut out: Vec<DestListEntry> = Vec::new();
    proof {
        assert(Seq::<DestListEntry>::empty() + orig =~= orig);
        vstd::seq_lib::lemma_multiset_commutative(Seq::<DestListEntry>::empty(), orig);
        assert(entry_views(orig.subrange(0, 0)) =~= Seq::<DestListEntryView>::empty());
        assert(src@ =~= orig.subrange(0, orig.len() as int));
    }
    while src.len() > 0
        invariant
            src@.len() <= orig.len(),
            src@ == orig.subrange(orig.len() - src@.len(), orig.len() as int),
            entry_views(out@) == spec_sort_desc(
                entry_views(orig.subrange(0, orig.len() - src@.len())),
            ),
            out@.to_multiset().add(src@.to_multiset()) == orig.to_multiset(),
        decreases src@.len(),
    {
        let ghost k = orig.len() - src@.len();
        let ghost pre_out = out@;
        let ghost pre_src = src@;
        let e = src.remove(0);
        insert_entry_desc(&mut out, e);
        proof {
            assert(e == pre_src[0] && pre_src[0] == orig[k]);
            assert(src@ =~= orig.subrange(k + 1, orig.len() as int));
            let done = orig.subrange(0, k + 1);
            assert(done.drop_last() =~= orig.subrange(0, k));
            assert(done.last() == orig[k]);
            assert(entry_views(done).drop_last() =~= entry_views(done.drop_last()));
            assert(entry_views(done).len() > 0);
            assert(entry_views(done).last() == orig[k]@);
            assert(spec_sort_desc(entry_views(done)) == spec_insert_desc(
                spec_sort_desc(entry_views(done).drop_last()),
                entry_views(done).last(),
            ));
            assert(entry_views(out@) == spec_sort_desc(entry_views(done)));
            // multisets: out gained e, src lost its front element, which is e
            pre_src.to_multiset_ensures();
            assert(src@ =~= pre_src.remove(0));
            assert(src@.to_multiset() =~= pre_src.to_multiset().remove(e));
            assert forall|x: DestListEntry|
                out@.to_multiset().add(src@.to_multiset()).count(x) == orig.to_multiset().count(
                    x,
                ) by {
                assert(out@.to_multiset().count(x) == pre_out.to_multiset().insert(e).count(x));
                assert(pre_src.to_multiset().count(e) > 0);
            }
            assert(out@.to_multiset().add(src@.to_multiset()) =~= orig.to_multiset());
        }
    }
    proof {
        assert(orig.subrange(0, orig.len() as int) =~= orig);
        assert(src@ =~= Seq::<DestListEntry>::empty());
        assert(Seq::<DestListEntry>::empty() + src@ =~= src@);
        vstd::seq_lib::lemma_multiset_commutative(Seq::<DestListEntry>::empty(), src@);
        assert forall|x: DestListEntry|
            out@.to_multiset().count(x) == orig.to_multiset().count(x) by {
            assert(out@.to_multiset().add(src@.to_multiset()).count(x) == orig.to_multiset().count(
                x,
            ));
            src@.to_multiset_ensures();
            assert(src@.to_multiset().len() == 0);
        }
        assert(out@.to_multiset() =~= orig.to_multiset());
    }
    out
}

/// Inserting into a descending-sorted sequence keeps it sorted, so the
/// whole sort is sorted.
pub proof fn lemma_sort_desc_sorted(s: Seq<DestListEntryView>)
    ensures
        sorted_desc(spec_sort_desc(s)),
    decreases s.len(),
{
    if s.len() > 0 {
        lemma_sort_desc_sorted(s.drop_last());
        let t = spec_sort_desc(s.drop_last());
        let e = s.last();
        lemma_insert_pos_desc_props(t, e.entry_number);
        let p = insert_pos_desc(t, e.entry_number);
        let u = spec_insert_desc(t, e);
        t.insert_ensures(p, e);
        assert forall|i: int, j: int|
            0 <= i < j < u.len() implies u[i].entry_number >= u[j].entry_number by {
            if i < p && j == p {
                assert(u[i] == t[i]);
            } else if i < p && j > p {
                assert(u[i] == t[i] && u[j] == t[j - 1]);
            } else if i == p && j > p {
                assert(u[i] == e && u[j] == t[j - 1]);
                assert(t[p].entry_number < e.entry_number);
                assert(t[p].entry_number >= t[j - 1].entry_number);
            } else if i > p {
                assert(u[i] == t[i - 1] && u[j] == t[j - 1]);
            }
        }
    }
}

/// The length of the stream named `DestList`, taking the last one so named
/// where several exist, or zero when none does.
pub open spec fn spec_destlist_size(es: Seq<cfb::Entry>) -> u64
    decreases es.len(),
{
    if es.len() == 0 {
        0
    } else if entry_stream_name(es.last()) == "DestList"@ {
        entry_stream_size(es.last())
    } else {
        spec_destlist_size(es.drop_last())
    }
}

fn destlist_stream_size(es: &Vec<cfb::Entry>) -> (r: u64)
    ensures
        r == spec_destlist_size(es@),
{
    let dl_name = String::from_str("DestList");
    let mut size: u64 = 0;
    let mut i: usize = 0;
    while i < es.len()
        invariant
            i <= es@.len(),
            dl_name@ == "DestList"@,
            size == spec_destlist_size(es@.subrange(0, i as int)),
        decreases es@.len() - i,
    {
        let name = cfb_entry_name(&es[i]);
        if name == dl_name {
            size = cfb_entry_len(&es[i]);
        }
        proof {
            let nxt = es@.subrange(0, i + 1);
            assert(nxt.drop_last() =~= es@.subrange(0, i as int));
            assert(nxt.last() == es@[i as int]);
        }
        i = i + 1;
    }
    proof {
        assert(es@.subrange(0, es@.len() as int) =~= es@);
    }
    size
}

/// The `DestList` stream's size, read off the listing's name and length
/// sequences instead of its entry values: the last entry named `DestList`
/// decides, zero when none is so named.
pub open spec fn spec_destlist_size_of(names: Seq<Seq<char>>, sizes: Seq<u64>) -> u64
    decreases names.len(),
{
    if names.len() == 0 {
        0
    } else if names.last() == "DestList"@ {
        sizes[names.len() - 1]
    } else {
        spec_destlist_size_of(names.drop_last(), sizes.drop_last())
    }
}

/// Both readings of the `DestList` stream's size agree.
pub proof fn lemma_destlist_size_names(es: Seq<cfb::Entry>)
    ensures
        spec_destlist_size(es) == spec_destlist_size_of(listing_names(es), listing_sizes(es)),
    decreases es.len(),
{
    if es.len() > 0 {
        lemma_destlist_size_names(es.drop_last());
        assert(listing_names(es).last() == entry_stream_name(es.last()));
        assert(listing_sizes(es)[es.len() - 1] == entry_stream_size(es.last()));
        assert(listing_names(es).drop_last() =~= listing_names(es.drop_last()));
        assert(listing_sizes(es).drop_last() =~= listing_sizes(es.drop_last()));
    }
}

/// Whether correlation resolves a shell-link for ordinal `n`, against a
/// listing whose entries carry `names` and `paths` and a container holding
/// `data`: the stream behind the last matching, readable entry decides —
/// `Some(true)` when its bytes decode as a shell-link, `Some(false)` when
/// the decoder rejects them, `None` when no matching stream could be read
/// at all.  A shell-link is attached exactly in the `Some(true)` case.
pub open spec fn spec_lnk_attach(
    data: Seq<u8>,
    names: Seq<Seq<char>>,
    paths: Seq<Seq<char>>,
    n: u32,
) -> Option<bool>
    decreases names.len(),
{
    if names.len() == 0 {
        None
    } else {
        let j = names.len() - 1;
        if names[j] == lower_hex_no_pad(n as nat) && cfb_stream_bytes(data, paths[j]) is Some {
            Some(lnk_buffer_decodes(cfb_stream_bytes(data, paths[j])->0))
        } else {
            spec_lnk_attach(data, names.drop_last(), paths.drop_last(), n)
        }
    }
}

/// Attaches to each entry the shell-link decoded from the stream named by
/// the entry's ordinal in lowercase hexadecimal: the last matching,
/// readable stream decides, and a shell-link hangs on the entry exactly
/// when its bytes decode.  Any failure only leaves that entry without a
/// shell-link: correlation never aborts entry decoding.
fn correlate_entries(
    entries: Vec<DestListEntry>,
    ls: &Vec<cfb::Entry>,
    parser: &mut cfb::CompoundFile<std::io::Cursor<Vec<u8>>>,
) -> (out: Vec<DestListEntry>)
    requires
        forall|i: int| 0 <= i < entries@.len() ==> (#[trigger] entries@[i]).lnk is None,
    ensures
        cfb_data(*final(parser)) == cfb_data(*old(parser)),
        out@.len() == entries@.len(),
        forall|i: int|
            0 <= i < out@.len() ==> (#[trigger] out@[i])@ == entries@[i]@ && out@[i].entry_id
                == entries@[i].entry_id,
        forall|i: int|
            0 <= i < out@.len() ==> ((#[trigger] out@[i]).lnk is Some <==> spec_lnk_attach(
                cfb_data(*old(parser)),
                listing_names(ls@),
                listing_paths(ls@),
                out@[i]@.entry_number,
            ) == Some(true)),
{
    let ghost data0 = cfb_data(*old(parser));
    let ghost names = listing_names(ls@);
    let ghost paths = listing_paths(ls@);
    let ghost orig = entries@;
    let mut src = entries;
    let mut out: Vec<DestListEntry> = Vec::new();
    proof {
        assert(src@ =~= orig.subrange(orig.len() - src@.len(), orig.len() as int));
    }
    while src.len() > 0
        invariant
            data0 == cfb_data(*old(parser)),
            cfb_data(*parser) == data0,
            names == listing_names(ls@),
            paths == listing_paths(ls@),
            src@.len() <= orig.len(),
            src@ == orig.subrange(orig.len() - src@.len(), orig.len() as int),
            out@.len() == orig.len() - src@.len(),
            forall|i: int| 0 <= i < orig.len() ==> (#[trigger] orig[i]).lnk is None,
            forall|i: int|
                0 <= i < out@.len() ==> (#[trigger] out@[i])@ == orig[i]@ && out@[i].entry_id
                    == orig[i].entry_id,
            forall|i: int|
                0 <= i < out@.len() ==> ((#[trigger] out@[i]).lnk is Some <==> spec_lnk_attach(
                    data0,
                    names,
                    paths,
                    out@[i]@.entry_number,
                ) == Some(true)),
        decreases src@.len(),
    {
        let ghost k = orig.len() - src@.len();
        let mut e = src.remove(0);
        proof {
            assert(e == orig[k]);
            assert(src@ =~= orig.subrange(orig.len() - src@.len(), orig.len() as int));
        }
        let ghost ev = e@;
        let ghost eid = e.entry_id;
        let hexname = lower_hex_string(e.entry_number);
        let mut j: usize = 0;
        while j < ls.len()
            invariant
                data0 == cfb_data(*old(parser)),
                cfb_data(*parser) == data0,
                names == listing_names(ls@),
                paths == listing_paths(ls@),
                j <= ls@.len(),
                hexname@ == lower_hex_no_pad(e@.entry_number as nat),
                e@ == ev,
                e.entry_id == eid,
                e.lnk is Some <==> spec_lnk_attach(
                    data0,
                    names.take(j as int),
                    paths.take(j as int),
                    e@.entry_number,
                ) == Some(true),
            decreases ls@.len() - j,
        {
            proof {
                assert(names[j as int] == entry_stream_name(ls@[j as int]));
                assert(paths[j as int] == entry_stream_path(ls@[j as int]));
                assert(names.take(j + 1).drop_last() =~= names.take(j as int));
                assert(paths.take(j + 1).drop_last() =~= paths.take(j as int));
                assert(names.take(j + 1).last() == names[j as int]);
                assert(paths.take(j + 1).last() == paths[j as int]);
            }
            let name = cfb_entry_name(&ls[j]);
            if name == hexname {
                match cfb_read_stream(parser, &ls[j]) {
                    Some(data) => {
                        e.lnk = lnk_from_buffer(&data);
                    },
                    None => {
                        // the stream could not be read; keep the entry as it is
                    },
                }
            }
            j = j + 1;
        }
        proof {
            assert(names.take(ls@.len() as int) =~= names);
            assert(paths.take(ls@.len() as int) =~= paths);
        }
        out.push(e);
    }
    proof {
        assert(out@.len() == orig.len());
    }
    out
}

/// A decoded `DestList` stream: its header and its entries, sorted by
/// ordinal descending after correlation.
#[derive(Debug)]
pub struct DestList {
    pub header: DestListHeader,
    pub entries: Vec<DestListEntry>,
}

impl DestList {
    /// Decodes a whole `DestList` stream from `r` and resolves each
    /// entry's embedded shell-link against the container's stream listing.
    ///
    /// An absent or empty `DestList` stream is a valid, empty jump list,
    /// not an error: the header is synthesized as all-zero, no entries are
    /// decoded, and the reader is left untouched.  Otherwise a malformed
    /// entry ends decoding with everything decoded before it kept; only a
    /// malformed header is an error.
    pub fn from_reader(
        r: &mut ByteReader,
        lnks: Option<Vec<cfb::Entry>>,
        parser: &mut cfb::CompoundFile<std::io::Cursor<Vec<u8>>>,
    ) -> (res: Result<DestList, JumplistParserError>)
        requires
            old(r).wf(),
        ensures
            final(r).wf(),
            final(r).bytes() == old(r).bytes(),
            cfb_data(*final(parser)) == cfb_data(*old(parser)),
            ({
                let s = old(r).bytes();
                let p0 = old(r).position();
                let size: u64 = match lnks {
                    Some(es) => spec_destlist_size(es@),
                    None => 0u64,
                };
                &&& size == 0 ==> (res is Ok && *final(r) == *old(r) && res->Ok_0.header == (
                DestListHeader {
                    version: 0u32,
                    number_of_entries: 0u32,
                    number_of_pinned_entries: 0u32,
                }) && res->Ok_0.entries@.len() == 0)
                &&& size != 0 ==> (res is Ok <==> spec_header_at(s, p0) is Some)
                &&& (res is Err ==> res->Err_0 is DestListHeader && res->Err_0.spec_message()
                    == spec_header_fail_message(s, p0))
                &&& (res is Ok ==> {
                    let dl = res->Ok_0;
                    let decoded = if size == 0 {
                        Seq::<DestListEntryView>::empty()
                    } else {
                        spec_entries_at(
                            s,
                            (spec_header_at(s, p0)->0).1,
                            (spec_header_at(s, p0)->0).0.version,
                        )
                    };
                    &&& size != 0 ==> dl.header == (spec_header_at(s, p0)->0).0
                    &&& entry_views(dl.entries@) == spec_sort_desc(decoded)
                    &&& sorted_desc(entry_views(dl.entries@))
                    &&& (lnks is None ==> forall|i: int|
                        0 <= i < dl.entries@.len() ==> (#[trigger] dl.entries@[i]).lnk is None)
                    &&& (lnks matches Some(es) ==> forall|i: int|
                        0 <= i < dl.entries@.len() ==> ((#[trigger] dl.entries@[i]).lnk is Some
                            <==> spec_lnk_attach(
                            cfb_data(*old(parser)),
                            listing_names(es@),
                            listing_paths(es@),
                            dl.entries@[i]@.entry_number,
                        ) == Some(true)))
                    &&& forall|i: int|
                        0 <= i < dl.entries@.len() ==> (#[trigger] dl.entries@[i]).entry_id is None
                })
            }),
    {
        let size: u64 = match &lnks {
            Some(es) => destlist_stream_size(es),
            None => 0,
        };
        if size == 0 {
            // an absent or empty stream is an empty jump list: nothing is
            // decoded from the reader
            proof {
                assert(spec_sort_desc(Seq::<DestListEntryView>::empty()) =~= Seq::<
                    DestListEntryView,
                >::empty());
                assert(entry_views(Seq::<DestListEntry>::empty()) =~= Seq::<
                    DestListEntryView,
                >::empty());
            }
            return Ok(
                DestList {
                    header: DestListHeader {
                        version: 0,
                        number_of_entries: 0,
                        number_of_pinned_entries: 0,
                    },
                    entries: Vec::new(),
                },
            );
        }
        let header = match DestListHeader::from_reader(r) {
            Ok(h) => h,
            Err(e) => { return Err(e) },
        };
        let decoded = decode_entries(r, header.version);
        let ghost decoded_views = entry_views(decoded@);
        let correlated = match &lnks {
            Some(ls) => correlate_entries(decoded, ls, parser),
            None => decoded,
        };
        let ghost pre_sort = correlated@;
        proof {
            assert(entry_views(pre_sort) =~= decoded_views);
        }
        let entries = sort_entries_desc(correlated);
        proof {
            lemma_sort_desc_sorted(decoded_views);
            pre_sort.to_multiset_ensures();
            entries@.to_multiset_ensures();
            assert forall|i: int| 0 <= i < entries@.len() implies {
                &&& (lnks is None ==> (#[trigger] entries@[i]).lnk is None)
                &&& (lnks matches Some(es) ==> (entries@[i].lnk is Some <==> spec_lnk_attach(
                    cfb_data(*old(parser)),
                    listing_names(es@),
                    listing_paths(es@),
                    entries@[i]@.entry_number,
                ) == Some(true)))
                &&& entries@[i].entry_id is None
            } by {
                assert(entries@.contains(entries@[i]));
                assert(entries@.to_multiset().count(entries@[i]) > 0);
                assert(pre_sort.to_multiset().count(entries@[i]) > 0);
                assert(pre_sort.contains(entries@[i]));
                let k = choose|k: int| 0 <= k < pre_sort.len() && pre_sort[k] == entries@[i];
                assert(pre_sort[k] == entries@[i]);
            }
        }
        Ok(DestList { header, entries })
    }

    /// Flattens every entry into a mapping, one per entry in order:
    /// the entry's shell-link row where one is attached, an empty mapping
    /// where none is.
    pub fn normalize(&self) -> (r: Vec<HashMap<String, String>>)
        ensures
            r@.len() == self.entries@.len(),
            forall|i: int|
                0 <= i < r@.len() && self.entries@[i].lnk is None ==> (#[trigger] r@[i])@
                    == Map::<String, String>::empty(),
            forall|i: int|
                0 <= i < r@.len() ==> (#[trigger] r@[i]).deep_view() == (match self.entries@[i].lnk {
                    Some(l) => spec_lnk_row(l),
                    None => Map::<Seq<char>, Seq<char>>::empty(),
                }),
    {
        let mut results: Vec<HashMap<String, String>> = Vec::new();
        let mut i: usize = 0;
        while i < self.entries.len()
            invariant
                i <= self.entries@.len(),
                results@.len() == i,
                forall|k: int|
                    0 <= k < i && self.entries@[k].lnk is None ==> (#[trigger] results@[k])@
                        == Map::<String, String>::empty(),
                forall|k: int|
                    0 <= k < i ==> (#[trigger] results@[k]).deep_view() == (
                    match self.entries@[k].lnk {
                        Some(l) => spec_lnk_row(l),
                        None => Map::<Seq<char>, Seq<char>>::empty(),
                    }),
            decreases self.entries@.len() - i,
        {
            results.push(self.entries[i].normalize());
            i = i + 1;
        }
        results
    }
}

impl DestListEntry {
    /// Flattens the entry's resolved shell-link into a mapping of its most
    /// important fields, adding a display name and the command-line
    /// arguments, each defaulting to the empty string when the shell-link
    /// lacks them; an entry without a shell-link yields an empty mapping.
    pub fn normalize(&self) -> (r: HashMap<String, String>)
        ensures
            self.lnk is None ==> r@ == Map::<String, String>::empty(),
            r.deep_view() == (match self.lnk {
                Some(l) => spec_lnk_row(l),
                None => Map::<Seq<char>, Seq<char>>::empty(),
            }),
    {
        match &self.lnk {
            Some(l) => normalized_lnk_fields(l),
            None => {
                let m: HashMap<String, String> = HashMap::new();
                proof {
                    broadcast use vstd::std_specs::hash::lemma_hashmap_deepview_dom;

                    assert(m@.dom().map(|k: String| k.deep_view()) =~= Set::<Seq<char>>::empty());
                    assert(m.deep_view() =~= Map::<Seq<char>, Seq<char>>::empty());
                }
                m
            },
        }
    }
}

/// Law: the pinned flag round-trips through its sentinel.  An entry is
/// decoded as not pinned exactly when its pin field holds `0xFFFFFFFF`;
/// any other value means pinned, and the value carries no further order.
pub proof fn lemma_pinned_sentinel(s: Seq<u8>, pos: int, version: u32)
    requires
        spec_entry_at(s, pos, version) is Some,
    ensures
        (spec_entry_at(s, pos, version)->0).0.pined <==> le32_at(s, pos + 108) != 0xFFFFFFFF,
{
}

/// Whatever entry a truncated stream holds whole, the whole stream holds
/// too, with the same content.
#[verifier::rlimit(100)]
proof fn lemma_entry_at_prefix(s: Seq<u8>, t: Seq<u8>, pos: int, version: u32)
    requires
        t.len() <= s.len(),
        t == s.subrange(0, t.len() as int),
        0 <= pos <= t.len(),
        spec_entry_at(t, pos, version) is Some,
    ensures
        spec_entry_at(s, pos, version) is Some,
        (spec_entry_at(s, pos, version)->0).0 == (spec_entry_at(t, pos, version)->0).0,
        pos < (spec_entry_at(t, pos, version)->0).1 <= t.len(),
        (spec_entry_at(s, pos, version)->0).1 == (spec_entry_at(t, pos, version)->0).1
            || (spec_entry_at(t, pos, version)->0).1 == t.len(),
{
    let f = entry_fixed_len(version);
    let plen = le16_at(t, pos + f) as int;
    assert(t.subrange(pos + 72, pos + 88) =~= s.subrange(pos + 72, pos + 88));
    assert(t.subrange(pos + f + 2, pos + f + 2 + 2 * plen) =~= s.subrange(
        pos + f + 2,
        pos + f + 2 + 2 * plen,
    ));
    assert((spec_entry_at(s, pos, version)->0).0 == (spec_entry_at(t, pos, version)->0).0);
}

/// Law: decoding tolerates truncation.  The entries decoded from a
/// truncated stream are exactly the first entries decoded from the whole
/// one — cutting bytes off the end can only shorten the list, never alter
/// or reorder what still fits.
pub proof fn lemma_entries_truncation(s: Seq<u8>, t: Seq<u8>, pos: int, version: u32)
    requires
        t.len() <= s.len(),
        t == s.subrange(0, t.len() as int),
        0 <= pos <= t.len(),
    ensures
        spec_entries_at(t, pos, version).len() <= spec_entries_at(s, pos, version).len(),
        spec_entries_at(t, pos, version) == spec_entries_at(s, pos, version).take(
            spec_entries_at(t, pos, version).len() as int,
        ),
    decreases t.len() - pos,
{
    let et = spec_entries_at(t, pos, version);
    let es = spec_entries_at(s, pos, version);
    if spec_entry_at(t, pos, version) is None {
        assert(et =~= Seq::<DestListEntryView>::empty());
        assert(es.take(0) =~= Seq::<DestListEntryView>::empty());
    } else {
        lemma_entry_at_prefix(s, t, pos, version);
        let ep = spec_entry_at(t, pos, version)->0;
        let eq = spec_entry_at(s, pos, version)->0;
        let rest_t = spec_entries_at(t, ep.1, version);
        let rest_s = spec_entries_at(s, eq.1, version);
        assert(et == seq![ep.0] + rest_t);
        assert(es == seq![eq.0] + rest_s);
        if ep.1 == eq.1 {
            lemma_entries_truncation(s, t, ep.1, version);
        } else {
            // the entry's trailing reserved block ran past the truncation
            // point: the truncated stream ends exactly at this entry
            assert(ep.1 == t.len());
            assert(spec_entry_at(t, t.len() as int, version) is None);
            assert(rest_t =~= Seq::<DestListEntryView>::empty());
        }
        assert(rest_t == rest_s.take(rest_t.len() as int));
        assert(et =~= es.take(et.len() as int));
    }
}

/// Law: the sort is a permutation — no entry appears or disappears.
pub proof fn lemma_sort_desc_permutes(s: Seq<DestListEntryView>)
    ensures
        spec_sort_desc(s).to_multiset() == s.to_multiset(),
    decreases s.len(),
{
    broadcast use vstd::multiset::group_multiset_axioms;

    if s.len() > 0 {
        lemma_sort_desc_permutes(s.drop_last());
        let d = s.drop_last();
        let t = spec_sort_desc(d);
        let e = s.last();
        lemma_insert_pos_desc_props(t, e.entry_number);
        let p = insert_pos_desc(t, e.entry_number);
        let front = t.subrange(0, p);
        let back = t.subrange(p, t.len() as int);
        assert(spec_sort_desc(s) == front.push(e) + back);
        vstd::seq_lib::lemma_multiset_commutative(front.push(e), back);
        vstd::seq_lib::lemma_multiset_commutative(front, back);
        front.to_multiset_ensures();
        d.to_multiset_ensures();
        assert(front + back =~= t);
        assert(d.push(e) =~= s);
        assert forall|x: DestListEntryView|
            spec_sort_desc(s).to_multiset().count(x) == s.to_multiset().count(x) by {
            broadcast use vstd::multiset::group_multiset_axioms;

            assert(spec_sort_desc(s).to_multiset().count(x) == front.push(e).to_multiset().count(x)
                + back.to_multiset().count(x));
            assert(front.push(e).to_multiset().count(x) == front.to_multiset().insert(e).count(x));
            assert(t.to_multiset().count(x) == front.to_multiset().count(x)
                + back.to_multiset().count(x));
            assert(t.to_multiset() == d.to_multiset());
            assert(s.to_multiset().count(x) == d.to_multiset().insert(e).count(x));
        }
        assert(spec_sort_desc(s).to_multiset() =~= s.to_multiset());
    } else {
        assert(s =~= Seq::<DestListEntryView>::empty());
    }
}

/// Law: the higher of two distinct ordinals sorts first — a two-entry
/// stream in ascending ordinal order comes back reversed, that is,
/// most-recently-used first.
pub proof fn lemma_sort_desc_pair(e1: DestListEntryView, e2: DestListEntryView)
    requires
        e1.entry_number < e2.entry_number,
    ensures
        spec_sort_desc(seq![e1, e2]) == seq![e2, e1],
{
    let s = seq![e1, e2];
    let empty = Seq::<DestListEntryView>::empty();
    assert(s.drop_last() =~= seq![e1]);
    assert(seq![e1].drop_last() =~= empty);
    assert(seq![e1].last() == e1);
    assert(spec_sort_desc(empty) == empty);
    assert(insert_pos_desc(empty, e1.entry_number) == 0);
    assert(empty.insert(0, e1) =~= seq![e1]);
    assert(spec_sort_desc(seq![e1]) == seq![e1]);
    assert(s.last() == e2);
    assert(insert_pos_desc(seq![e1], e2.entry_number) == 0);
    assert(seq![e1].insert(0, e2) =~= seq![e2, e1]);
    assert(spec_sort_desc(s) == spec_insert_desc(seq![e1], e2));
    assert(spec_sort_desc(s) =~= seq![e2, e1]);
}

/// Law: the sort is stable.  For any one ordinal, the entries carrying it
/// stand in the sorted list exactly as they stood in the input.
pub proof fn lemma_sort_desc_stable(s: Seq<DestListEntryView>, key: u32)
    ensures
        spec_sort_desc(s).filter(|e: DestListEntryView| e.entry_number == key) == s.filter(
            |e: DestListEntryView| e.entry_number == key,
        ),
    decreases s.len(),
{
    reveal(Seq::filter);
    let pred = |e: DestListEntryView| e.entry_number == key;
    if s.len() > 0 {
        lemma_sort_desc_stable(s.drop_last(), key);
        lemma_sort_desc_sorted(s.drop_last());
        let d = s.drop_last();
        let t = spec_sort_desc(d);
        let e = s.last();
        lemma_insert_pos_desc_props(t, e.entry_number);
        let p = insert_pos_desc(t, e.entry_number);
        let u = spec_insert_desc(t, e);
        let front = t.subrange(0, p);
        let back = t.subrange(p, t.len() as int);
        assert(u == front.push(e) + back);
        Seq::filter_distributes_over_add(front.push(e), back, pred);
        Seq::filter_distributes_over_add(front, back, pred);
        assert(front + back =~= t);
        assert(front.push(e).drop_last() =~= front);
        assert(d.push(e) =~= s);
        assert(s.drop_last() =~= d);
        if pred(e) {
            // every element after the insertion point has a smaller
            // ordinal, so none of them carries `key`
            assert forall|i: int| 0 <= i < back.len() implies !pred(#[trigger] back[i]) by {
                assert(back[i] == t[p + i]);
                assert(t[p].entry_number < e.entry_number);
                assert(t[p].entry_number >= t[p + i].entry_number);
            }
            back.lemma_all_neg_filter_empty(pred);
            assert(back.filter(pred) =~= Seq::<DestListEntryView>::empty());
            assert(u.filter(pred) =~= t.filter(pred).push(e));
            assert(s.filter(pred) == d.filter(pred).push(e));
        } else {
            assert(u.filter(pred) =~= t.filter(pred));
            assert(s.filter(pred) == d.filter(pred));
        }
    }
}

} // verus!
