//! Decoders for the two binary container formats behind Windows jump
//! lists: the flat CustomDestinations stream and the DestList index stream
//! kept in an OLE compound container, together with the correlation of
//! DestList entries to their embedded shell-link streams and a
//! normalization layer that flattens decoded records into string mappings.

pub mod bytes;
pub mod compound;
pub mod custom_destinations;
pub mod destlist;
pub mod errors;
pub mod guid;
pub mod hex;
pub mod lnk;
pub mod strings;

use vstd::prelude::*;
use vstd::string::StringExecFns;
use vstd::string::StringSliceAdditionalSpecFns;

use std::collections::HashMap;

use crate::bytes::ByteReader;
use crate::compound::{cfb_accepts, cfb_data, cfb_entry_len, cfb_entry_name, cfb_open,
    cfb_read_stream, cfb_stream_bytes, cfb_stream_names, cfb_stream_paths, cfb_stream_sizes,
    cfb_walk, entry_stream_name, entry_stream_path, entry_stream_size, listing_names,
    listing_paths, listing_sizes};
use crate::custom_destinations::{category_views, spec_categories, spec_cd_header_at,
    custom_fail_matches, spec_cd_header_fail_message, spec_lnk_row_count, CategoriesOutcome,
    CustomDestinations};
use crate::destlist::{entry_views, lemma_destlist_size_names, sorted_desc, spec_destlist_size_of,
    spec_entries_at, spec_header_at, spec_lnk_attach, spec_sort_desc, DestList, DestListEntryView,
    DestListHeader};
use crate::errors::JumplistParserError;
use crate::lnk::{map_insert_string, normalized_lnk_fields, spec_lnk_row};

verus! {

/// Which of the two container formats a file holds.
#[derive(Debug, Clone, Copy, PartialEq, Eq, Structural)]
pub enum JumplistType {
    /// An automatic jump list: a compound container holding a `DestList`
    /// stream and its shell-link streams.
    Automatic,
    /// A custom jump list: the flat CustomDestinations stream.
    Custom,
}

impl JumplistType {
    /// The lowercase textual form of the type.
    pub fn display_name(&self) -> (r: String)
        ensures
            *self is Automatic ==> r@ == "automatic"@,
            *self is Custom ==> r@ == "custom"@,
    {
        match self {
            JumplistType::Automatic => String::from_str("automatic"),
            JumplistType::Custom => String::from_str("custom"),
        }
    }
}

/// The decoded payload of either format.
#[derive(Debug)]
pub enum JumplistData {
    DestList(DestList),
    CustomDestinations(CustomDestinations),
}

/// A decoded jump list file: its identity fields and its payload.  The
/// identity fields are attached by the caller after decoding; decoding
/// itself leaves them empty.
#[derive(Debug)]
pub struct JumplistParser {
    pub app_id: Option<String>,
    pub app_name: Option<String>,
    pub jumplist_type: JumplistType,
    pub source_path: Option<String>,
    pub data: JumplistData,
}

/// The bytes of the `.automaticDestinations-ms` filename suffix.
pub open spec fn automatic_suffix() -> Seq<u8> {
    seq![
        0x2eu8, 0x61u8, 0x75u8, 0x74u8, 0x6fu8, 0x6du8, 0x61u8, 0x74u8, 0x69u8, 0x63u8, 0x44u8,
        0x65u8, 0x73u8, 0x74u8, 0x69u8, 0x6eu8, 0x61u8, 0x74u8, 0x69u8, 0x6fu8, 0x6eu8, 0x73u8,
        0x2du8, 0x6du8, 0x73u8,
    ]
}

/// The bytes of the `.customDestinations-ms` filename suffix.
pub open spec fn custom_suffix() -> Seq<u8> {
    seq![
        0x2eu8, 0x63u8, 0x75u8, 0x73u8, 0x74u8, 0x6fu8, 0x6du8, 0x44u8, 0x65u8, 0x73u8, 0x74u8,
        0x69u8, 0x6eu8, 0x61u8, 0x74u8, 0x69u8, 0x6fu8, 0x6eu8, 0x73u8, 0x2du8, 0x6du8, 0x73u8,
    ]
}

fn automatic_suffix_bytes() -> (r: Vec<u8>)
    ensures
        r@ == automatic_suffix(),
{
    let r: Vec<u8> = vec![
        0x2e, 0x61, 0x75, 0x74, 0x6f, 0x6d, 0x61, 0x74, 0x69, 0x63, 0x44, 0x65, 0x73, 0x74, 0x69,
        0x6e, 0x61, 0x74, 0x69, 0x6f, 0x6e, 0x73, 0x2d, 0x6d, 0x73,
    ];
    proof {
        assert(r@ =~= automatic_suffix());
    }
    r
}

fn custom_suffix_bytes() -> (r: Vec<u8>)
    ensures
        r@ == custom_suffix(),
{
    let r: Vec<u8> = vec![
        0x2e, 0x63, 0x75, 0x73, 0x74, 0x6f, 0x6d, 0x44, 0x65, 0x73, 0x74, 0x69, 0x6e, 0x61, 0x74,
        0x69, 0x6f, 0x6e, 0x73, 0x2d, 0x6d, 0x73,
    ];
    proof {
        assert(r@ =~= custom_suffix());
    }
    r
}

/// Whether `s` ends with `suffix`.
pub open spec fn spec_ends_with(s: Seq<u8>, suffix: Seq<u8>) -> bool {
    s.len() >= suffix.len() && s.subrange(s.len() - suffix.len(), s.len() as int) == suffix
}

fn bytes_end_with(s: &Vec<u8>, suffix: &Vec<u8>) -> (r: bool)
    ensures
        r == spec_ends_with(s@, suffix@),
{
    if s.len() < suffix.len() {
        proof {
            assert(!spec_ends_with(s@, suffix@));
        }
        return false;
    }
    let slen = s.len();
    let off = slen - suffix.len();
    let mut i: usize = 0;
    while i < suffix.len()
        invariant
            i <= suffix@.len(),
            suffix@.len() <= s@.len(),
            slen == s@.len(),
            off == s@.len() - suffix@.len(),
            forall|k: int| 0 <= k < i ==> s@[off + k] == suffix@[k],
        decreases suffix@.len() - i,
    {
        if s[off + i] != suffix[i] {
            proof {
                let tail = s@.subrange(s@.len() - suffix@.len(), s@.len() as int);
                assert(tail[i as int] != suffix@[i as int]);
            }
            return false;
        }
        i = i + 1;
    }
    proof {
        assert(s@.subrange(s@.len() - suffix@.len(), s@.len() as int) =~= suffix@);
    }
    true
}

/// Selects the format from the file name's suffix — suffix detection is
/// authoritative, the content is never sniffed.  A name ending in neither
/// suffix is an unrecognised file type, and the error quotes the name.
pub fn detect_type(file_name: &str) -> (res: Result<JumplistType, JumplistParserError>)
    ensures
        spec_ends_with(file_name.spec_bytes(), automatic_suffix()) ==> res == Ok::<
            JumplistType,
            JumplistParserError,
        >(JumplistType::Automatic),
        !spec_ends_with(file_name.spec_bytes(), automatic_suffix()) && spec_ends_with(
            file_name.spec_bytes(),
            custom_suffix(),
        ) ==> res == Ok::<JumplistType, JumplistParserError>(JumplistType::Custom),
        !spec_ends_with(file_name.spec_bytes(), automatic_suffix()) && !spec_ends_with(
            file_name.spec_bytes(),
            custom_suffix(),
        ) ==> (res is Err && res->Err_0 is FileType && res->Err_0.spec_message() == file_name@),
{
    let name_bytes = vstd::slice::slice_to_vec(file_name.as_bytes());
    if bytes_end_with(&name_bytes, &automatic_suffix_bytes()) {
        Ok(JumplistType::Automatic)
    } else if bytes_end_with(&name_bytes, &custom_suffix_bytes()) {
        Ok(JumplistType::Custom)
    } else {
        Err(JumplistParserError::FileType(file_name.to_owned()))
    }
}

/// How many leading characters of a file name precede its first dot: the
/// length of the application-id stem the name bears.
pub open spec fn spec_stem_len(s: Seq<char>) -> int
    decreases s.len(),
{
    if s.len() == 0 {
        0
    } else if s[0] == '.' {
        0
    } else {
        1 + spec_stem_len(s.drop_first())
    }
}

proof fn lemma_stem_len_props(s: Seq<char>)
    ensures
        0 <= spec_stem_len(s) <= s.len(),
        forall|k: int| 0 <= k < spec_stem_len(s) ==> s[k] != '.',
        spec_stem_len(s) < s.len() ==> s[spec_stem_len(s)] == '.',
    decreases s.len(),
{
    if s.len() == 0 {
    } else if s[0] == '.' {
    } else {
        lemma_stem_len_props(s.drop_first());
        let m = spec_stem_len(s);
        assert forall|k: int| 0 <= k < m implies s[k] != '.' by {
            if k >= 1 {
                assert(s.drop_first()[k - 1] == s[k]);
            }
        }
        if m < s.len() {
            assert(s.drop_first()[m - 1] == s[m]);
        }
    }
}

/// The application id a jump list file name bears: everything before the
/// first dot, or the whole name when it holds none.
pub fn app_id_stem(file_name: &str) -> (r: String)
    ensures
        r@ == file_name@.subrange(0, spec_stem_len(file_name@)),
{
    let n = file_name.unicode_len();
    let mut i: usize = 0;
    while i < n && file_name.get_char(i) != '.'
        invariant
            i <= n,
            n == file_name@.len(),
            forall|k: int| 0 <= k < i ==> file_name@[k] != '.',
        decreases n - i,
    {
        i = i + 1;
    }
    proof {
        lemma_stem_len_props(file_name@);
        let m = spec_stem_len(file_name@);
        assert(i == m) by {
            if (i as int) < m {
                assert(file_name@[i as int] != '.');
            }
            if m < (i as int) {
                assert(file_name@[m] != '.');
            }
        }
    }
    file_name.substring_char(0, i).to_owned()
}

/// What the dispatcher's scan of a container's listing yields: the bytes
/// of the stream behind the last entry named `DestList` with a nonzero
/// length — an empty buffer when there is none — or `None` when such a
/// stream cannot be read.
pub open spec fn spec_destlist_scan(
    data: Seq<u8>,
    names: Seq<Seq<char>>,
    sizes: Seq<u64>,
    paths: Seq<Seq<char>>,
    i: int,
    acc: Seq<u8>,
) -> Option<Seq<u8>>
    decreases names.len() - i,
{
    if i < 0 || i >= names.len() {
        Some(acc)
    } else if names[i] == "DestList"@ && sizes[i] > 0 {
        match cfb_stream_bytes(data, paths[i]) {
            None => None,
            Some(b) => spec_destlist_scan(data, names, sizes, paths, i + 1, b),
        }
    } else {
        spec_destlist_scan(data, names, sizes, paths, i + 1, acc)
    }
}

impl JumplistParser {
    /// Decodes a whole in-memory jump list of the given type.  The
    /// identity fields of the result are left empty for the caller.
    ///
    /// For a custom jump list the outcome is exactly what the
    /// CustomDestinations decoder yields on the reader's bytes.  For an
    /// automatic jump list the compound container is opened from the
    /// bytes, its `DestList` stream decoded and correlated, and a failure
    /// below the container level surfaces as an empty-jump-list error.
    pub fn from_reader(r: ByteReader, jumplist_type: JumplistType) -> (res: Result<
        JumplistParser,
        JumplistParserError,
    >)
        requires
            r.wf(),
        ensures
            res is Ok ==> {
                &&& res->Ok_0.jumplist_type == jumplist_type
                &&& res->Ok_0.app_id is None
                &&& res->Ok_0.app_name is None
                &&& res->Ok_0.source_path is None
            },
            jumplist_type is Custom ==> ({
                let s = r.bytes();
                let hdr = spec_cd_header_at(s, r.position());
                &&& hdr is None ==> (res is Err && res->Err_0 is FileStructure
                    && res->Err_0.spec_message() == spec_cd_header_fail_message(s, r.position()))
                &&& hdr is Some ==> {
                    let out = spec_categories(s, (hdr->0).1, (hdr->0).0.num_of_cat as nat);
                    &&& (res is Ok <==> out is Done)
                    &&& res is Ok ==> (res->Ok_0.data matches JumplistData::CustomDestinations(cd)
                        && cd.header == (hdr->0).0 && category_views(cd.entries@) == out->Done_0)
                    &&& out matches CategoriesOutcome::Fail(f) ==> res is Err
                        && custom_fail_matches(f, res->Err_0)
                }
            }),
            jumplist_type is Automatic && res is Ok ==> (res->Ok_0.data
                matches JumplistData::DestList(dl) && sorted_desc(entry_views(dl.entries@))),
            jumplist_type is Automatic && res is Err ==> (res->Err_0 is FileStructure
                || res->Err_0 is NoDestList),
            jumplist_type is Automatic ==> ({
                let s = r.bytes();
                &&& !cfb_accepts(s) ==> (res is Err && res->Err_0 is FileStructure
                    && res->Err_0.spec_message() == "Unable to parse the file"@)
                &&& cfb_accepts(s) ==> ({
                    let names = cfb_stream_names(s);
                    let sizes = cfb_stream_sizes(s);
                    let paths = cfb_stream_paths(s);
                    let scan = spec_destlist_scan(s, names, sizes, paths, 0, Seq::<u8>::empty());
                    let size = spec_destlist_size_of(names, sizes);
                    &&& scan is None ==> (res is Err && res->Err_0 is FileStructure
                        && res->Err_0.spec_message() == "Unable to read the 'DestList' stream"@)
                    &&& scan matches Some(b) ==> ({
                        &&& size == 0 ==> res is Ok
                        &&& size != 0 ==> (res is Ok <==> spec_header_at(b, 0) is Some)
                        &&& res is Err ==> (res->Err_0 is NoDestList && res->Err_0.spec_message()
                            == "No entry with the name 'DestList' (Empty JumpList)"@)
                        &&& res is Ok ==> (res->Ok_0.data matches JumplistData::DestList(dl) && ({
                            let decoded = if size == 0 {
                                Seq::<DestListEntryView>::empty()
                            } else {
                                spec_entries_at(
                                    b,
                                    (spec_header_at(b, 0)->0).1,
                                    (spec_header_at(b, 0)->0).0.version,
                                )
                            };
                            &&& size == 0 ==> dl.header == (DestListHeader {
                                version: 0u32,
                                number_of_entries: 0u32,
                                number_of_pinned_entries: 0u32,
                            }) && dl.entries@.len() == 0
                            &&& size != 0 ==> dl.header == (spec_header_at(b, 0)->0).0
                            &&& entry_views(dl.entries@) == spec_sort_desc(decoded)
                            &&& forall|i: int|
                                0 <= i < dl.entries@.len() ==> ((#[trigger] dl.entries@[i]).lnk
                                    is Some <==> spec_lnk_attach(
                                    s,
                                    names,
                                    paths,
                                    dl.entries@[i]@.entry_number,
                                ) == Some(true))
                            &&& forall|i: int|
                                0 <= i < dl.entries@.len() ==> (#[trigger] dl.entries@[i]).entry_id
                                    is None
                        }))
                    })
                })
            }),
    {
        match jumplist_type {
            JumplistType::Automatic => {
                let ghost s0 = r.bytes();
                let mut parser = match cfb_open(r.into_data()) {
                    Ok(p) => p,
                    Err(_) => {
                        return Err(
                            JumplistParserError::FileStructure(
                                String::from_str("Unable to parse the file"),
                            ),
                        );
                    },
                };
                let entries = cfb_walk(&parser);
                let ghost names = cfb_stream_names(s0);
                let ghost sizes = cfb_stream_sizes(s0);
                let ghost paths = cfb_stream_paths(s0);
                let dl_name = String::from_str("DestList");
                let mut destlist_data: Vec<u8> = Vec::new();
                let mut i: usize = 0;
                while i < entries.len()
                    invariant
                        jumplist_type is Automatic,
                        i <= entries@.len(),
                        s0 == r.bytes(),
                        cfb_accepts(s0),
                        cfb_data(parser) == s0,
                        names == cfb_stream_names(s0),
                        sizes == cfb_stream_sizes(s0),
                        paths == cfb_stream_paths(s0),
                        listing_names(entries@) == names,
                        listing_sizes(entries@) == sizes,
                        listing_paths(entries@) == paths,
                        dl_name@ == "DestList"@,
                        spec_destlist_scan(s0, names, sizes, paths, 0, Seq::<u8>::empty())
                            == spec_destlist_scan(
                            s0,
                            names,
                            sizes,
                            paths,
                            i as int,
                            destlist_data@,
                        ),
                    decreases entries@.len() - i,
                {
                    proof {
                        assert(names[i as int] == entry_stream_name(entries@[i as int]));
                        assert(sizes[i as int] == entry_stream_size(entries@[i as int]));
                        assert(paths[i as int] == entry_stream_path(entries@[i as int]));
                    }
                    let name = cfb_entry_name(&entries[i]);
                    if name == dl_name && cfb_entry_len(&entries[i]) > 0 {
                        match cfb_read_stream(&mut parser, &entries[i]) {
                            Some(data) => {
                                destlist_data = data;
                            },
                            None => {
                                return Err(
                                    JumplistParserError::FileStructure(
                                        String::from_str("Unable to read the 'DestList' stream"),
                                    ),
                                );
                            },
                        }
                    }
                    i = i + 1;
                }
                proof {
                    lemma_destlist_size_names(entries@);
                }
                let mut dl_reader = ByteReader::new(destlist_data);
                match DestList::from_reader(&mut dl_reader, Some(entries), &mut parser) {
                    Ok(results) => Ok(
                        JumplistParser {
                            app_id: None,
                            app_name: None,
                            jumplist_type,
                            source_path: None,
                            data: JumplistData::DestList(results),
                        },
                    ),
                    Err(_) => Err(
                        JumplistParserError::NoDestList(
                            String::from_str("No entry with the name 'DestList' (Empty JumpList)"),
                        ),
                    ),
                }
            },
            JumplistType::Custom => {
                let mut reader = r;
                let results = match CustomDestinations::from_reader(&mut reader) {
                    Ok(cd) => cd,
                    Err(e) => {
                        return Err(e);
                    },
                };
                Ok(
                    JumplistParser {
                        app_id: None,
                        app_name: None,
                        jumplist_type,
                        source_path: None,
                        data: JumplistData::CustomDestinations(results),
                    },
                )
            },
        }
    }
}

/// The content-keyed views of a sequence of rows.
pub open spec fn row_views(s: Seq<HashMap<String, String>>) -> Seq<Map<Seq<char>, Seq<char>>> {
    s.map_values(|m: HashMap<String, String>| m.deep_view())
}

/// The rows of a sequence of shell-link records, one each, in order.
pub open spec fn lnk_row_views(ls: Seq<lnk_parser::LNKParser>) -> Seq<Map<Seq<char>, Seq<char>>> {
    ls.map_values(|l: lnk_parser::LNKParser| spec_lnk_row(l))
}

/// The rows a category sequence flattens to: one per embedded shell-link
/// record, categories in order and each category's records in order;
/// categories without embedded records contribute nothing.
pub open spec fn spec_flat_rows(cats: Seq<custom_destinations::Catagory>) -> Seq<
    Map<Seq<char>, Seq<char>>,
>
    decreases cats.len(),
{
    if cats.len() == 0 {
        Seq::empty()
    } else {
        spec_flat_rows(cats.drop_last()) + (match cats.last().entries {
            Some(v) => lnk_row_views(v@),
            None => Seq::empty(),
        })
    }
}

/// Flattens a decoded structure into rows of key-value string mappings
/// for downstream reporting.
pub trait Flaten {
    /// One mapping per reportable record.
    fn flaten(&self) -> Vec<HashMap<String, String>>;
}

impl Flaten for CustomDestinations {
    /// One mapping per embedded shell-link record, in category order;
    /// categories without embedded records contribute nothing.
    fn flaten(&self) -> (results: Vec<HashMap<String, String>>)
        ensures
            results@.len() == spec_lnk_row_count(self.entries@),
            row_views(results@) == spec_flat_rows(self.entries@),
    {
        let mut results: Vec<HashMap<String, String>> = Vec::new();
        let mut i: usize = 0;
        while i < self.entries.len()
            invariant
                i <= self.entries@.len(),
                results@.len() == spec_lnk_row_count(self.entries@.subrange(0, i as int)),
                row_views(results@) == spec_flat_rows(self.entries@.subrange(0, i as int)),
            decreases self.entries@.len() - i,
        {
            match &self.entries[i].entries {
                Some(lnks) => {
                    let ghost pre_rows = row_views(results@);
                    let mut j: usize = 0;
                    while j < lnks.len()
                        invariant
                            j <= lnks@.len(),
                            i < self.entries@.len(),
                            self.entries@[i as int].entries matches Some(v) && v@ == lnks@,
                            results@.len() == spec_lnk_row_count(
                                self.entries@.subrange(0, i as int),
                            ) + j,
                            pre_rows == spec_flat_rows(self.entries@.subrange(0, i as int)),
                            row_views(results@) == pre_rows + lnk_row_views(lnks@.take(j as int)),
                        decreases lnks@.len() - j,
                    {
                        let ghost before = results@;
                        results.push(normalized_lnk_fields(&lnks[j]));
                        proof {
                            assert(row_views(results@) =~= row_views(before).push(
                                spec_lnk_row(lnks@[j as int]),
                            ));
                            assert(lnk_row_views(lnks@.take(j + 1)) =~= lnk_row_views(
                                lnks@.take(j as int),
                            ).push(spec_lnk_row(lnks@[j as int])));
                            assert(row_views(results@) =~= pre_rows + lnk_row_views(
                                lnks@.take(j + 1),
                            ));
                        }
                        j = j + 1;
                    }
                    proof {
                        assert(lnks@.take(lnks@.len() as int) =~= lnks@);
                    }
                },
                None => {},
            }
            proof {
                let pre = self.entries@.subrange(0, i as int);
                let nxt = self.entries@.subrange(0, i + 1);
                assert(nxt.drop_last() =~= pre);
                assert(nxt.last() == self.entries@[i as int]);
                match self.entries@[i as int].entries {
                    Some(v) => {
                        assert(row_views(results@) =~= spec_flat_rows(pre) + lnk_row_views(v@));
                    },
                    None => {
                        assert(row_views(results@) =~= spec_flat_rows(pre) + Seq::<
                            Map<Seq<char>, Seq<char>>,
                        >::empty());
                    },
                }
            }
            i = i + 1;
        }
        proof {
            assert(self.entries@.subrange(0, self.entries@.len() as int) =~= self.entries@);
        }
        results
    }
}

impl Flaten for JumplistParser {
    /// One mapping per record of the payload — one per DestList entry, or
    /// one per embedded shell-link record — each carrying the source path
    /// under `jumplist_file_path` for traceability.
    fn flaten(&self) -> (results: Vec<HashMap<String, String>>)
        ensures
            results@.len() == match self.data {
                JumplistData::DestList(dl) => dl.entries@.len(),
                JumplistData::CustomDestinations(cd) => spec_lnk_row_count(cd.entries@),
            },
            ({
                let path_view = match self.source_path {
                    Some(p) => p@,
                    None => Seq::<char>::empty(),
                };
                match self.data {
                    JumplistData::DestList(dl) => forall|i: int|
                        0 <= i < results@.len() ==> (#[trigger] results@[i]).deep_view() == (
                        match dl.entries@[i].lnk {
                            Some(l) => spec_lnk_row(l),
                            None => Map::<Seq<char>, Seq<char>>::empty(),
                        }).insert("jumplist_file_path"@, path_view),
                    JumplistData::CustomDestinations(cd) => forall|i: int|
                        0 <= i < results@.len() ==> (#[trigger] results@[i]).deep_view()
                            == spec_flat_rows(cd.entries@)[i].insert(
                            "jumplist_file_path"@,
                            path_view,
                        ),
                }
            }),
    {
        let path = match &self.source_path {
            Some(p) => p.clone(),
            None => String::new(),
        };
        let mut rows = match &self.data {
            JumplistData::DestList(data) => data.normalize(),
            JumplistData::CustomDestinations(data) => data.flaten(),
        };
        let ghost rows0 = rows@;
        let ghost total = rows@.len();
        let mut results: Vec<HashMap<String, String>> = Vec::new();
        proof {
            assert(rows@ =~= rows0.subrange(0, total as int));
        }
        while rows.len() > 0
            invariant
                results@.len() + rows@.len() == total,
                total == rows0.len(),
                path@ == match self.source_path {
                    Some(p) => p@,
                    None => Seq::<char>::empty(),
                },
                rows@ == rows0.subrange(total - rows@.len(), total as int),
                forall|i: int|
                    0 <= i < results@.len() ==> (#[trigger] results@[i]).deep_view()
                        == rows0[i].deep_view().insert("jumplist_file_path"@, path@),
            decreases rows@.len(),
        {
            let ghost k = total - rows@.len();
            let mut row = rows.remove(0);
            proof {
                assert(row == rows0[k]);
                assert(rows@ =~= rows0.subrange(total - rows@.len(), total as int));
            }
            map_insert_string(&mut row, String::from_str("jumplist_file_path"), path.clone());
            results.push(row);
        }
        results
    }
}

/// The output formats the reporting layer can render.
#[derive(Debug, Clone, Copy, PartialEq, Eq, Structural)]
pub enum OutputFormat {
    JSON,
    JSONL,
    CSV,
}

impl OutputFormat {
    /// Selects a format by name; anything unrecognised falls back to CSV.
    pub fn from_str(s: &str) -> (r: OutputFormat)
        ensures
            s@ == "json"@ ==> r is JSON,
            s@ != "json"@ && s@ == "jsonl"@ ==> r is JSONL,
            s@ != "json"@ && s@ != "jsonl"@ ==> r is CSV,
    {
        let t = s.to_owned();
        if t == String::from_str("json") {
            OutputFormat::JSON
        } else if t == String::from_str("jsonl") {
            OutputFormat::JSONL
        } else {
            OutputFormat::CSV
        }
    }
}

} // verus!
