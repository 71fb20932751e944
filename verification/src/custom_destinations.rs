//! Decoder for the flat CustomDestinations container: a header followed by
//! exactly `num_of_cat` category records, each a tagged union of a
//! user-defined, known, or task category, the first and last carrying
//! embedded shell-link records.
//!
//! Decoding is strict: any malformed field, unknown discriminant, foreign
//! class identifier or rejected embedded record fails the whole stream.

use vstd::prelude::*;
use vstd::string::StringExecFns;

use crate::bytes::{le16_at, le32_at, ByteReader};
use crate::errors::JumplistParserError;
use crate::guid::{guid_display, spec_guid_at, spec_shell_link_class_id, Guid};
use crate::hex::{decimal_no_pad, push_decimal};
use crate::lnk::{lnk_from_stream, lnk_stream_consumed};
use crate::strings::{utf16_string_from_units, utf16_units_decoded};
use crate::destlist::clamp_to;

verus! {

/// The three category kinds a record's discriminant can select.
#[derive(Debug, Clone, Copy, PartialEq, Eq, Structural)]
pub enum CatagoryType {
    /// A user-defined or application-defined category: discriminant 0.
    Custom,
    /// A special category such as Recent or Frequent: discriminant 1.
    Known,
    /// A shortcut task: discriminant 2.
    Task,
}

/// The file header of a CustomDestinations stream.
#[derive(Debug, Clone, Copy, PartialEq, Eq, Structural)]
pub struct CustomDestinationsHeader {
    /// File format version.
    pub version: u32,
    /// Number of category records that follow; decoding is driven entirely
    /// by this count.
    pub num_of_cat: u32,
    /// Reserved field, seen as zero.
    pub unkonwn: u32,
}

/// The closed set of known-category identifiers.
#[derive(Debug, Clone, Copy, PartialEq, Eq, Structural)]
pub enum CategoryID {
    Frequent,
    Recent,
    /// The id field held -1: no category id.
    Absent,
    /// Any other value.
    Unknown(i32),
}

/// How a raw id value maps into the closed enumeration.
pub open spec fn spec_category_id(x: i32) -> CategoryID {
    if x == 1 {
        CategoryID::Frequent
    } else if x == 2 {
        CategoryID::Recent
    } else if x == -1 {
        CategoryID::Absent
    } else {
        CategoryID::Unknown(x)
    }
}

impl CategoryID {
    /// Maps a raw id value into the closed enumeration.
    pub fn from_raw(x: i32) -> (r: CategoryID)
        ensures
            r == spec_category_id(x),
    {
        if x == 1 {
            CategoryID::Frequent
        } else if x == 2 {
            CategoryID::Recent
        } else if x == -1 {
            CategoryID::Absent
        } else {
            CategoryID::Unknown(x)
        }
    }
}

/// The header whose twelve bytes start at `pos`.
pub open spec fn spec_cd_header_at(s: Seq<u8>, pos: int) -> Option<(CustomDestinationsHeader, int)> {
    if pos + 12 <= s.len() {
        Some(
            (
                CustomDestinationsHeader {
                    version: le32_at(s, pos) as u32,
                    num_of_cat: le32_at(s, pos + 4) as u32,
                    unkonwn: le32_at(s, pos + 8) as u32,
                },
                pos + 12,
            ),
        )
    } else {
        None
    }
}

/// Which header field fails first when the bytes end inside the header.
pub open spec fn spec_cd_header_fail_message(s: Seq<u8>, pos: int) -> Seq<char> {
    if pos + 4 > s.len() {
        "Can't parse the 'version'"@
    } else if pos + 8 > s.len() {
        "Can't parse the 'num_of_cat'"@
    } else {
        "Can't parse the 'unkonwn'"@
    }
}

impl CustomDestinationsHeader {
    /// Decodes the header at the reader's position.
    pub fn from_reader(r: &mut ByteReader) -> (res: Result<
        CustomDestinationsHeader,
        JumplistParserError,
    >)
        requires
            old(r).wf(),
        ensures
            final(r).wf(),
            final(r).bytes() == old(r).bytes(),
            res is Ok <==> spec_cd_header_at(old(r).bytes(), old(r).position()) is Some,
            res is Ok ==> {
                &&& res->Ok_0 == (spec_cd_header_at(old(r).bytes(), old(r).position())->0).0
                &&& final(r).position() == (spec_cd_header_at(
                    old(r).bytes(),
                    old(r).position(),
                )->0).1
            },
            res is Err ==> (res->Err_0 is FileStructure && res->Err_0.spec_message()
                == spec_cd_header_fail_message(old(r).bytes(), old(r).position())),
    {
        let version = match r.read_u32_le() {
            Some(v) => v,
            None => {
                return Err(
                    JumplistParserError::FileStructure(
                        String::from_str("Can't parse the 'version'"),
                    ),
                );
            },
        };
        let num_of_cat = match r.read_u32_le() {
            Some(v) => v,
            None => {
                return Err(
                    JumplistParserError::FileStructure(
                        String::from_str("Can't parse the 'num_of_cat'"),
                    ),
                );
            },
        };
        let unkonwn = match r.read_u32_le() {
            Some(v) => v,
            None => {
                return Err(
                    JumplistParserError::FileStructure(
                        String::from_str("Can't parse the 'unkonwn'"),
                    ),
                );
            },
        };
        Ok(CustomDestinationsHeader { version, num_of_cat, unkonwn })
    }
}

/// A category record: which kind it is, and the fields that kind carries.
#[derive(Debug)]
pub struct Catagory {
    /// Which kind of category this record is.
    pub category_type: CatagoryType,
    /// Name of the category; only `Custom` records carry one.
    pub name: Option<String>,
    /// Number of embedded shell-link records; `Custom` and `Task` only.
    pub num_of_entries: Option<u32>,
    /// Known-category id; `Known` records only.
    pub id: Option<CategoryID>,
    /// The decoded embedded shell-link records; `Custom` and `Task` only.
    pub entries: Option<Vec<lnk_parser::LNKParser>>,
}

/// What a category record's bytes say; embedded shell-link records are
/// opaque, so only their number appears.
#[verifier::ext_equal]
pub struct CatagoryView {
    pub category_type: CatagoryType,
    pub name: Option<Seq<char>>,
    pub num_of_entries: Option<u32>,
    pub id: Option<CategoryID>,
    pub num_lnk_entries: Option<nat>,
}

impl View for Catagory {
    type V = CatagoryView;

    open spec fn view(&self) -> CatagoryView {
        CatagoryView {
            category_type: self.category_type,
            name: match self.name {
                Some(n) => Some(n@),
                None => None,
            },
            num_of_entries: self.num_of_entries,
            id: self.id,
            num_lnk_entries: match self.entries {
                Some(v) => Some(v@.len()),
                None => None,
            },
        }
    }
}

/// Why decoding a CustomDestinations stream fails.
pub enum CustomFail {
    /// A fixed field ran past the end of the stream; carries the message
    /// naming the field.
    Truncated(Seq<char>),
    /// A discriminant outside the closed set; carries the value seen.
    UnknownCategoryType(u32),
    /// An embedded record tagged with a class id other than the
    /// shell-link one; carries the kind of the enclosing category and the
    /// identifier seen.
    BadEntryGuid(CatagoryType, Guid),
    /// The shell-link decoder rejected an embedded record.
    LnkRejected,
}

/// Which error an exec decoder must surface for each failure: the variant
/// always, and for the two failures that quote a value, the exact message.
pub open spec fn custom_fail_matches(f: CustomFail, e: JumplistParserError) -> bool {
    match f {
        CustomFail::Truncated(m) => e is FileStructure && e.spec_message() == m,
        CustomFail::UnknownCategoryType(x) => e is FileStructure && e.spec_message()
            == "CatagoryType unknown '"@ + decimal_no_pad(x as nat) + "'"@,
        CustomFail::BadEntryGuid(ct, g) => e is FileStructure && e.spec_message() == (if ct
            is Task {
            "Task Category with unknown entry GUID '"@
        } else {
            "Custom Category with unknown entry GUID '"@
        }) + guid_display(g) + "'"@,
        CustomFail::LnkRejected => e is LnkEntry,
    }
}

/// The position after `k` embedded shell-link records that start at `pos`:
/// each is a 16-byte class id, which must be the shell-link one, followed
/// by one shell-link record, whose extent the shell-link decoder decides.
pub open spec fn spec_lnk_entries(s: Seq<u8>, pos: int, k: nat, ct: CatagoryType) -> Result<
    int,
    CustomFail,
>
    decreases k,
{
    if k == 0 {
        Ok(pos)
    } else if pos + 16 > s.len() {
        Err(CustomFail::Truncated("Can't parse the class id of an embedded entry"@))
    } else if spec_guid_at(s, pos) != spec_shell_link_class_id() {
        Err(CustomFail::BadEntryGuid(ct, spec_guid_at(s, pos)))
    } else {
        match lnk_stream_consumed(s, pos + 16) {
            None => Err(CustomFail::LnkRejected),
            Some(p) => spec_lnk_entries(s, clamp_to(p, s.len() as int), (k - 1) as nat, ct),
        }
    }
}

/// One category record at `pos`: its view and the position after it,
/// before the four-byte footer.
pub open spec fn spec_category_at(s: Seq<u8>, pos: int) -> Result<(CatagoryView, int), CustomFail> {
    if pos + 4 > s.len() {
        Err(CustomFail::Truncated("Can't parse the category type"@))
    } else {
        let disc = le32_at(s, pos) as u32;
        let p1 = pos + 4;
        if disc == 0 {
            if p1 + 2 > s.len() {
                Err(CustomFail::Truncated("Can't parse the category name length"@))
            } else {
                let nlen = le16_at(s, p1) as int;
                if p1 + 2 + 2 * nlen > s.len() {
                    Err(CustomFail::Truncated("Can't parse the category name"@))
                } else {
                    let name = utf16_units_decoded(s.subrange(p1 + 2, p1 + 2 + 2 * nlen));
                    let p2 = p1 + 2 + 2 * nlen;
                    if p2 + 4 > s.len() {
                        Err(CustomFail::Truncated("Can't parse the category entry count"@))
                    } else {
                        let cnt = le32_at(s, p2) as u32;
                        match spec_lnk_entries(s, p2 + 4, cnt as nat, CatagoryType::Custom) {
                            Err(f) => Err(f),
                            Ok(p3) => Ok(
                                (
                                    CatagoryView {
                                        category_type: CatagoryType::Custom,
                                        name,
                                        num_of_entries: Some(cnt),
                                        id: None,
                                        num_lnk_entries: Some(cnt as nat),
                                    },
                                    p3,
                                ),
                            ),
                        }
                    }
                }
            }
        } else if disc == 1 {
            if p1 + 4 > s.len() {
                Err(CustomFail::Truncated("Can't parse the known category id"@))
            } else {
                Ok(
                    (
                        CatagoryView {
                            category_type: CatagoryType::Known,
                            name: None,
                            num_of_entries: None,
                            id: Some(spec_category_id(le32_at(s, p1) as u32 as i32)),
                            num_lnk_entries: None,
                        },
                        p1 + 4,
                    ),
                )
            }
        } else if disc == 2 {
            if p1 + 4 > s.len() {
                Err(CustomFail::Truncated("Can't parse the category entry count"@))
            } else {
                let cnt = le32_at(s, p1) as u32;
                match spec_lnk_entries(s, p1 + 4, cnt as nat, CatagoryType::Task) {
                    Err(f) => Err(f),
                    Ok(p3) => Ok(
                        (
                            CatagoryView {
                                category_type: CatagoryType::Task,
                                name: None,
                                num_of_entries: Some(cnt),
                                id: None,
                                num_lnk_entries: Some(cnt as nat),
                            },
                            p3,
                        ),
                    ),
                }
            }
        } else {
            Err(CustomFail::UnknownCategoryType(disc))
        }
    }
}

/// The outcome of decoding `n` category records from `pos`, each followed
/// by a four-byte footer.
pub enum CategoriesOutcome {
    /// All records decoded; their views and the final position.
    Done(Seq<CatagoryView>, int),
    /// Some record is malformed; the whole stream fails.
    Fail(CustomFail),
}

pub open spec fn spec_categories(s: Seq<u8>, pos: int, n: nat) -> CategoriesOutcome
    decreases n,
{
    if n == 0 {
        CategoriesOutcome::Done(Seq::empty(), pos)
    } else {
        match spec_category_at(s, pos) {
            Err(f) => CategoriesOutcome::Fail(f),
            Ok(cp) => match spec_categories(s, clamp_to(cp.1 + 4, s.len() as int), (n - 1) as nat) {
                CategoriesOutcome::Done(rest, pe) => CategoriesOutcome::Done(seq![cp.0] + rest, pe),
                CategoriesOutcome::Fail(f) => CategoriesOutcome::Fail(f),
            },
        }
    }
}

/// The views of a sequence of decoded categories.
pub open spec fn category_views(s: Seq<Catagory>) -> Seq<CatagoryView> {
    s.map_values(|c: Catagory| c@)
}

/// How many embedded shell-link records a sequence of categories holds
/// in all: what the flattening of a CustomDestinations value reports.
pub open spec fn spec_lnk_row_count(cats: Seq<Catagory>) -> nat
    decreases cats.len(),
{
    if cats.len() == 0 {
        0
    } else {
        spec_lnk_row_count(cats.drop_last()) + (match cats.last().entries {
            Some(v) => v@.len(),
            None => 0nat,
        })
    }
}

/// Law: a stream that decodes at all yields exactly as many categories as
/// were asked of it, so a whole decode yields exactly `num_of_cat`
/// categories, in stream order.
pub proof fn lemma_categories_count(s: Seq<u8>, pos: int, n: nat)
    ensures
        spec_categories(s, pos, n) is Done ==> spec_categories(s, pos, n)->Done_0.len() == n,
    decreases n,
{
    if n > 0 {
        match spec_category_at(s, pos) {
            Ok(cp) => {
                lemma_categories_count(s, clamp_to(cp.1 + 4, s.len() as int), (n - 1) as nat);
            },
            Err(_) => {},
        }
    }
}

/// Decodes the `count` embedded shell-link records of one `Custom` or
/// `Task` category.
fn decode_lnk_entries(r: &mut ByteReader, count: u32, ct: CatagoryType) -> (res: Result<
    Vec<lnk_parser::LNKParser>,
    JumplistParserError,
>)
    requires
        old(r).wf(),
    ensures
        final(r).wf(),
        final(r).bytes() == old(r).bytes(),
        ({
            let out = spec_lnk_entries(old(r).bytes(), old(r).position(), count as nat, ct);
            &&& (res is Ok <==> out is Ok)
            &&& res is Ok ==> final(r).position() == out->Ok_0 && res->Ok_0@.len() == count as nat
            &&& out matches Err(f) ==> res is Err && custom_fail_matches(f, res->Err_0)
        }),
{
    let ghost s = old(r).bytes();
    let ghost p_start = old(r).position();
    let mut entries: Vec<lnk_parser::LNKParser> = Vec::new();
    let mut i: u32 = 0;
    while i < count
        invariant
            i <= count,
            r.wf(),
            s == old(r).bytes(),
            p_start == old(r).position(),
            r.bytes() == s,
            entries@.len() == i as nat,
            spec_lnk_entries(s, p_start, count as nat, ct) == spec_lnk_entries(
                s,
                r.position(),
                (count - i) as nat,
                ct,
            ),
        decreases count - i,
    {
        let ghost cur = r.position();
        let guid = match Guid::from_reader(r) {
            Some(g) => g,
            None => {
                return Err(
                    JumplistParserError::FileStructure(
                        String::from_str("Can't parse the class id of an embedded entry"),
                    ),
                );
            },
        };
        if !guid.is_shell_link_class_id() {
            let mut msg = match ct {
                CatagoryType::Task => String::from_str("Task Category with unknown entry GUID '"),
                _ => String::from_str("Custom Category with unknown entry GUID '"),
            };
            let gs = guid.to_display_string();
            msg.append(gs.as_str());
            msg.append(close_quote());
            proof {
                assert(msg@ =~= (if ct is Task {
                    "Task Category with unknown entry GUID '"@
                } else {
                    "Custom Category with unknown entry GUID '"@
                }) + guid_display(guid) + "'"@);
            }
            return Err(JumplistParserError::FileStructure(msg));
        }
        let next = match lnk_from_stream(r.buffer(), r.pos()) {
            Ok(lp) => {
                entries.push(lp.0);
                lp.1
            },
            Err(m) => {
                return Err(JumplistParserError::LnkEntry(m));
            },
        };
        r.set_position_clamped(next);
        i = i + 1;
    }
    Ok(entries)
}

fn close_quote() -> (r: &'static str)
    ensures
        r@ == "'"@,
{
    "'"
}

/// Decodes one category record, without its four-byte footer.
fn decode_category(r: &mut ByteReader) -> (res: Result<Catagory, JumplistParserError>)
    requires
        old(r).wf(),
    ensures
        final(r).wf(),
        final(r).bytes() == old(r).bytes(),
        ({
            let out = spec_category_at(old(r).bytes(), old(r).position());
            &&& (res is Ok <==> out is Ok)
            &&& res is Ok ==> res->Ok_0@ == (out->Ok_0).0 && final(r).position() == (out->Ok_0).1
            &&& out matches Err(f) ==> res is Err && custom_fail_matches(f, res->Err_0)
        }),
{
    let disc = match r.read_u32_le() {
        Some(v) => v,
        None => {
            return Err(
                JumplistParserError::FileStructure(
                    String::from_str("Can't parse the category type"),
                ),
            );
        },
    };
    if disc == 0 {
        let name_len = match r.read_u16_le() {
            Some(v) => v,
            None => {
                return Err(
                    JumplistParserError::FileStructure(
                        String::from_str("Can't parse the category name length"),
                    ),
                );
            },
        };
        let name_bytes = match r.read_bytes(2 * (name_len as usize)) {
            Some(b) => b,
            None => {
                return Err(
                    JumplistParserError::FileStructure(
                        String::from_str("Can't parse the category name"),
                    ),
                );
            },
        };
        // an undecodable name is tolerated: its bytes were all consumed
        let name = utf16_string_from_units(&name_bytes, name_len as usize);
        let num_of_entries = match r.read_u32_le() {
            Some(v) => v,
            None => {
                return Err(
                    JumplistParserError::FileStructure(
                        String::from_str("Can't parse the category entry count"),
                    ),
                );
            },
        };
        let entries = match decode_lnk_entries(r, num_of_entries, CatagoryType::Custom) {
            Ok(es) => es,
            Err(e) => {
                return Err(e);
            },
        };
        Ok(
            Catagory {
                category_type: CatagoryType::Custom,
                name,
                num_of_entries: Some(num_of_entries),
                id: None,
                entries: Some(entries),
            },
        )
    } else if disc == 1 {
        let id = match r.read_i32_le() {
            Some(v) => v,
            None => {
                return Err(
                    JumplistParserError::FileStructure(
                        String::from_str("Can't parse the known category id"),
                    ),
                );
            },
        };
        Ok(
            Catagory {
                category_type: CatagoryType::Known,
                name: None,
                num_of_entries: None,
                id: Some(CategoryID::from_raw(id)),
                entries: None,
            },
        )
    } else if disc == 2 {
        let num_of_entries = match r.read_u32_le() {
            Some(v) => v,
            None => {
                return Err(
                    JumplistParserError::FileStructure(
                        String::from_str("Can't parse the category entry count"),
                    ),
                );
            },
        };
        let entries = match decode_lnk_entries(r, num_of_entries, CatagoryType::Task) {
            Ok(es) => es,
            Err(e) => {
                return Err(e);
            },
        };
        Ok(
            Catagory {
                category_type: CatagoryType::Task,
                name: None,
                num_of_entries: Some(num_of_entries),
                id: None,
                entries: Some(entries),
            },
        )
    } else {
        let mut msg = String::from_str("CatagoryType unknown '");
        push_decimal(&mut msg, disc);
        msg.append(close_quote());
        proof {
            assert(msg@ =~= "CatagoryType unknown '"@ + decimal_no_pad(disc as nat) + "'"@);
        }
        Err(JumplistParserError::FileStructure(msg))
    }
}

/// A whole decoded CustomDestinations stream.
#[derive(Debug)]
pub struct CustomDestinations {
    /// File header with metadata.
    pub header: CustomDestinationsHeader,
    /// All decoded categories, in encounter order.
    pub entries: Vec<Catagory>,
}

impl CustomDestinations {
    /// Decodes a whole CustomDestinations stream: the header, then exactly
    /// `num_of_cat` category records, each followed by a four-byte footer.
    /// Categories come back in encounter order; trailing data after the
    /// last record is not examined.
    pub fn from_reader(r: &mut ByteReader) -> (res: Result<
        CustomDestinations,
        JumplistParserError,
    >)
        requires
            old(r).wf(),
        ensures
            final(r).wf(),
            final(r).bytes() == old(r).bytes(),
            ({
                let s = old(r).bytes();
                let hdr = spec_cd_header_at(s, old(r).position());
                &&& hdr is None ==> (res is Err && res->Err_0 is FileStructure
                    && res->Err_0.spec_message() == spec_cd_header_fail_message(
                    s,
                    old(r).position(),
                ))
                &&& hdr is Some ==> {
                    let h = (hdr->0).0;
                    let out = spec_categories(s, (hdr->0).1, h.num_of_cat as nat);
                    &&& (res is Ok <==> out is Done)
                    &&& res is Ok ==> res->Ok_0.header == h && category_views(res->Ok_0.entries@)
                        == out->Done_0
                    &&& out matches CategoriesOutcome::Fail(f) ==> res is Err && custom_fail_matches(
                        f,
                        res->Err_0,
                    )
                }
            }),
            res is Ok ==> res->Ok_0.entries@.len() == res->Ok_0.header.num_of_cat as nat,
    {
        let ghost s = old(r).bytes();
        let header = match CustomDestinationsHeader::from_reader(r) {
            Ok(h) => h,
            Err(e) => {
                return Err(e);
            },
        };
        let ghost p1 = r.position();
        let ghost total = spec_categories(s, p1, header.num_of_cat as nat);
        let mut categories: Vec<Catagory> = Vec::new();
        let mut i: u32 = 0;
        while i < header.num_of_cat
            invariant
                i <= header.num_of_cat,
                r.wf(),
                s == old(r).bytes(),
                r.bytes() == s,
                categories@.len() == i as nat,
                spec_cd_header_at(s, old(r).position()) == Some((header, p1)),
                total == spec_categories(s, p1, header.num_of_cat as nat),
                ({
                    let rest = spec_categories(s, r.position(), (header.num_of_cat - i) as nat);
                    match rest {
                        CategoriesOutcome::Done(views, pe) => total == CategoriesOutcome::Done(
                            category_views(categories@) + views,
                            pe,
                        ),
                        CategoriesOutcome::Fail(f) => total == CategoriesOutcome::Fail(f),
                    }
                }),
            decreases header.num_of_cat - i,
        {
            let ghost cur = r.position();
            let ghost pre_views = category_views(categories@);
            let cat = match decode_category(r) {
                Ok(c) => c,
                Err(e) => {
                    proof {
                        let f = spec_category_at(s, cur)->Err_0;
                        assert(spec_categories(s, cur, (header.num_of_cat - i) as nat)
                            == CategoriesOutcome::Fail(f));
                    }
                    return Err(e);
                },
            };
            r.skip(4);
            proof {
                let cp = spec_category_at(s, cur)->Ok_0;
                assert(category_views(categories@.push(cat)) =~= pre_views.push(cat@));
                let rest2 = spec_categories(s, r.position(), (header.num_of_cat - i - 1) as nat);
                match rest2 {
                    CategoriesOutcome::Done(views, pe) => {
                        assert(pre_views.push(cp.0) + views =~= pre_views + (seq![cp.0] + views));
                    },
                    CategoriesOutcome::Fail(_) => {},
                }
            }
            categories.push(cat);
            i = i + 1;
        }
        proof {
            assert(category_views(categories@) + Seq::<CatagoryView>::empty() =~= category_views(
                categories@,
            ));
        }
        Ok(CustomDestinations { header, entries: categories })
    }
}

} // verus!
