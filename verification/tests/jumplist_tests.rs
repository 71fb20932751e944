use std::io::Write;

use jumplist_parser::bytes::ByteReader;
use jumplist_parser::custom_destinations::{CatagoryType, CategoryID, CustomDestinations};
use jumplist_parser::destlist::{DestList, DestListEntry, DestListHeader};
use jumplist_parser::errors::JumplistParserError;
use jumplist_parser::{detect_type, Flaten, JumplistData, JumplistParser, JumplistType,
    OutputFormat};

fn push_u16le(out: &mut Vec<u8>, v: u16) {
    out.extend_from_slice(&v.to_le_bytes());
}

fn push_u32le(out: &mut Vec<u8>, v: u32) {
    out.extend_from_slice(&v.to_le_bytes());
}

fn push_u64le(out: &mut Vec<u8>, v: u64) {
    out.extend_from_slice(&v.to_le_bytes());
}

fn push_utf16(out: &mut Vec<u8>, s: &str) {
    for unit in s.encode_utf16() {
        push_u16le(out, unit);
    }
}

/// One DestList entry, at the layout of the given version.
fn destlist_entry_bytes(version: u32, hostname: &str, ordinal: u32, pin: u32, path: &str) -> Vec<u8> {
    let mut out = Vec::new();
    out.extend_from_slice(&[0u8; 8]);
    out.extend_from_slice(&[0u8; 64]); // four zero GUIDs
    let mut host = hostname.as_bytes().to_vec();
    host.resize(16, 0);
    out.extend_from_slice(&host);
    push_u32le(&mut out, ordinal);
    out.extend_from_slice(&[0u8; 8]);
    push_u64le(&mut out, 0x01d0000000000000);
    push_u32le(&mut out, pin);
    if version > 1 {
        out.extend_from_slice(&[0u8; 16]);
    }
    push_u16le(&mut out, path.encode_utf16().count() as u16);
    push_utf16(&mut out, path);
    if version > 1 {
        out.extend_from_slice(&[0u8; 4]);
    }
    out
}

fn destlist_stream_bytes(version: u32, entries: &[(&str, u32, u32, &str)]) -> Vec<u8> {
    let mut out = Vec::new();
    push_u32le(&mut out, version);
    push_u32le(&mut out, entries.len() as u32);
    push_u32le(&mut out, 0);
    out.extend_from_slice(&[0u8; 20]);
    for (host, ordinal, pin, path) in entries {
        out.extend_from_slice(&destlist_entry_bytes(version, host, *ordinal, *pin, path));
    }
    out
}

/// An in-memory compound container holding the given named streams.
fn compound_file_bytes(streams: &[(&str, &[u8])]) -> Vec<u8> {
    let cursor = std::io::Cursor::new(Vec::new());
    let mut comp = cfb::CompoundFile::create(cursor).unwrap();
    for (name, data) in streams {
        let mut s = comp.create_stream(name).unwrap();
        s.write_all(data).unwrap();
    }
    comp.flush().unwrap();
    comp.into_inner().into_inner()
}

/// A shell-link record that the shell-link decoder accepts: a bare 76-byte
/// header with no optional sections.
fn minimal_lnk_bytes() -> Vec<u8> {
    vec![0u8; 76]
}

#[test]
fn pinned_sentinel_not_pinned() {
    let bytes = destlist_entry_bytes(3, "HOST", 7, 0xFFFFFFFF, "C:\\a");
    let e = DestListEntry::from_buffer(&bytes, 3).unwrap();
    assert!(!e.pined);
}

#[test]
fn pinned_sentinel_pinned_zero() {
    let bytes = destlist_entry_bytes(3, "HOST", 7, 0, "C:\\a");
    let e = DestListEntry::from_buffer(&bytes, 3).unwrap();
    assert!(e.pined);
}

#[test]
fn pinned_sentinel_pinned_other() {
    let bytes = destlist_entry_bytes(1, "HOST", 7, 5, "C:\\a");
    let e = DestListEntry::from_buffer(&bytes, 1).unwrap();
    assert!(e.pined);
}

#[test]
fn destlist_entry_fields() {
    let bytes = destlist_entry_bytes(3, "HOST", 26, 1, "C:\\Users\\file.txt");
    let e = DestListEntry::from_buffer(&bytes, 3).unwrap();
    assert_eq!(e.hostname, "HOST");
    assert_eq!(e.entry_number, 26);
    assert_eq!(e.mtime, 0x01d0000000000000);
    assert_eq!(e.path, "C:\\Users\\file.txt");
    assert!(e.lnk.is_none());
    assert_eq!(e.volume_droid.data1, 0);
}

#[test]
fn destlist_entry_truncated_fails() {
    let bytes = destlist_entry_bytes(3, "HOST", 26, 1, "C:\\a");
    let cut = &bytes[..bytes.len() - 10];
    let res = DestListEntry::from_buffer(cut, 3);
    assert!(matches!(res, Err(JumplistParserError::DestListEntry(_))));
}

#[test]
fn destlist_header_from_buffer() {
    let bytes = destlist_stream_bytes(3, &[]);
    let h = DestListHeader::from_buffer(&bytes).unwrap();
    assert_eq!(h.version, 3);
    assert_eq!(h.number_of_entries, 0);
    assert_eq!(h.number_of_pinned_entries, 0);
}

#[test]
fn destlist_header_short_buffer_fails() {
    let res = DestListHeader::from_buffer(&[1, 2, 3]);
    assert!(matches!(res, Err(JumplistParserError::DestListHeader(_))));
}

#[test]
fn empty_destlist_is_valid() {
    // an empty jump list decodes to a zero header and no entries
    let cursor = std::io::Cursor::new(Vec::new());
    let mut comp = cfb::CompoundFile::create(cursor).unwrap();
    let mut r = ByteReader::new(Vec::new());
    let dl = DestList::from_reader(&mut r, None, &mut comp).unwrap();
    assert_eq!(dl.header.version, 0);
    assert_eq!(dl.header.number_of_entries, 0);
    assert!(dl.entries.is_empty());
}

#[test]
fn automatic_two_entries_sorted_descending() {
    let stream = destlist_stream_bytes(3, &[("A", 5, 0xFFFFFFFF, "C:\\five"), (
        "B",
        12,
        0xFFFFFFFF,
        "C:\\twelve",
    )]);
    let file = compound_file_bytes(&[("DestList", &stream)]);
    let parsed = JumplistParser::from_reader(ByteReader::new(file), JumplistType::Automatic)
        .unwrap();
    match parsed.data {
        JumplistData::DestList(dl) => {
            assert_eq!(dl.header.version, 3);
            assert_eq!(dl.entries.len(), 2);
            assert_eq!(dl.entries[0].entry_number, 12);
            assert_eq!(dl.entries[1].entry_number, 5);
        },
        _ => panic!("expected a DestList payload"),
    }
}

#[test]
fn sort_ties_keep_input_order() {
    let stream = destlist_stream_bytes(3, &[
        ("A", 7, 0xFFFFFFFF, "C:\\first"),
        ("B", 7, 0xFFFFFFFF, "C:\\second"),
        ("C", 9, 0xFFFFFFFF, "C:\\third"),
    ]);
    let file = compound_file_bytes(&[("DestList", &stream)]);
    let parsed = JumplistParser::from_reader(ByteReader::new(file), JumplistType::Automatic)
        .unwrap();
    match parsed.data {
        JumplistData::DestList(dl) => {
            assert_eq!(dl.entries.len(), 3);
            assert_eq!(dl.entries[0].entry_number, 9);
            assert_eq!(dl.entries[1].path, "C:\\first");
            assert_eq!(dl.entries[2].path, "C:\\second");
        },
        _ => panic!("expected a DestList payload"),
    }
}

#[test]
fn truncated_destlist_keeps_decoded_prefix() {
    let stream = destlist_stream_bytes(3, &[("A", 4, 0xFFFFFFFF, "C:\\one"), (
        "B",
        2,
        0xFFFFFFFF,
        "C:\\two",
    )]);
    // cut into the middle of the second entry
    let cut = &stream[..stream.len() - 9];
    let file = compound_file_bytes(&[("DestList", cut)]);
    let parsed = JumplistParser::from_reader(ByteReader::new(file), JumplistType::Automatic)
        .unwrap();
    match parsed.data {
        JumplistData::DestList(dl) => {
            assert_eq!(dl.entries.len(), 1);
            assert_eq!(dl.entries[0].entry_number, 4);
            assert_eq!(dl.entries[0].path, "C:\\one");
        },
        _ => panic!("expected a DestList payload"),
    }
}

#[test]
fn correlation_attaches_shell_link_by_hex_name() {
    let stream = destlist_stream_bytes(3, &[("A", 26, 0xFFFFFFFF, "C:\\z")]);
    let lnk = minimal_lnk_bytes();
    // ordinal 26 renders as "1a"; the unrelated stream must stay unused
    let file = compound_file_bytes(&[("DestList", &stream), ("1a", &lnk), ("2b", &lnk)]);
    let parsed = JumplistParser::from_reader(ByteReader::new(file), JumplistType::Automatic)
        .unwrap();
    match parsed.data {
        JumplistData::DestList(dl) => {
            assert_eq!(dl.entries.len(), 1);
            assert!(dl.entries[0].lnk.is_some());
        },
        _ => panic!("expected a DestList payload"),
    }
}

#[test]
fn correlation_tolerates_corrupt_shell_link() {
    let stream = destlist_stream_bytes(3, &[("A", 26, 0xFFFFFFFF, "C:\\z")]);
    let garbage = vec![0xFFu8; 5];
    let file = compound_file_bytes(&[("DestList", &stream), ("1a", &garbage)]);
    let parsed = JumplistParser::from_reader(ByteReader::new(file), JumplistType::Automatic)
        .unwrap();
    match parsed.data {
        JumplistData::DestList(dl) => {
            // the index metadata survives; only the shell-link is absent
            assert_eq!(dl.entries.len(), 1);
            assert!(dl.entries[0].lnk.is_none());
            assert_eq!(dl.entries[0].path, "C:\\z");
        },
        _ => panic!("expected a DestList payload"),
    }
}

#[test]
fn destlist_normalize_one_row_per_entry() {
    let stream = destlist_stream_bytes(3, &[("A", 3, 0xFFFFFFFF, "C:\\p"), (
        "B",
        8,
        0xFFFFFFFF,
        "C:\\q",
    )]);
    let file = compound_file_bytes(&[("DestList", &stream)]);
    let parsed = JumplistParser::from_reader(ByteReader::new(file), JumplistType::Automatic)
        .unwrap();
    match &parsed.data {
        JumplistData::DestList(dl) => {
            let rows = dl.normalize();
            assert_eq!(rows.len(), 2);
            // entries without a shell-link contribute empty mappings
            assert!(rows[0].is_empty());
        },
        _ => panic!("expected a DestList payload"),
    }
}

fn known_category_bytes(id: i32) -> Vec<u8> {
    let mut out = Vec::new();
    push_u32le(&mut out, 1);
    push_u32le(&mut out, id as u32);
    push_u32le(&mut out, 0); // footer
    out
}

fn custom_stream_bytes(version: u32, categories: &[Vec<u8>]) -> Vec<u8> {
    let mut out = Vec::new();
    push_u32le(&mut out, version);
    push_u32le(&mut out, categories.len() as u32);
    push_u32le(&mut out, 0);
    for cat in categories {
        out.extend_from_slice(cat);
    }
    out
}

#[test]
fn custom_known_recent_category() {
    // header (version 3, one category), one Known record with id 2
    let bytes = custom_stream_bytes(3, &[known_category_bytes(2)]);
    let mut r = ByteReader::new(bytes);
    let cd = CustomDestinations::from_reader(&mut r).unwrap();
    assert_eq!(cd.header.version, 3);
    assert_eq!(cd.header.num_of_cat, 1);
    assert_eq!(cd.entries.len(), 1);
    assert_eq!(cd.entries[0].category_type, CatagoryType::Known);
    assert!(matches!(cd.entries[0].id, Some(CategoryID::Recent)));
    assert!(cd.entries[0].name.is_none());
    assert!(cd.entries[0].entries.is_none());
}

#[test]
fn custom_known_id_mapping() {
    let bytes = custom_stream_bytes(3, &[
        known_category_bytes(1),
        known_category_bytes(-1),
        known_category_bytes(99),
    ]);
    let mut r = ByteReader::new(bytes);
    let cd = CustomDestinations::from_reader(&mut r).unwrap();
    assert!(matches!(cd.entries[0].id, Some(CategoryID::Frequent)));
    assert!(matches!(cd.entries[1].id, Some(CategoryID::Absent)));
    assert!(matches!(cd.entries[2].id, Some(CategoryID::Unknown(99))));
}

#[test]
fn custom_category_count_follows_header() {
    let a = custom_stream_bytes(3, &[known_category_bytes(1), known_category_bytes(2)]);
    let b = custom_stream_bytes(3, &[known_category_bytes(2), known_category_bytes(1)]);
    let mut ra = ByteReader::new(a);
    let mut rb = ByteReader::new(b);
    let ca = CustomDestinations::from_reader(&mut ra).unwrap();
    let cb = CustomDestinations::from_reader(&mut rb).unwrap();
    // reordering the records changes only the order, never the count
    assert_eq!(ca.entries.len(), 2);
    assert_eq!(cb.entries.len(), 2);
    assert!(matches!(ca.entries[0].id, Some(CategoryID::Frequent)));
    assert!(matches!(cb.entries[0].id, Some(CategoryID::Recent)));
}

#[test]
fn custom_unknown_discriminant_is_fatal() {
    let mut cat = Vec::new();
    push_u32le(&mut cat, 7);
    let bytes = custom_stream_bytes(3, &[cat]);
    let mut r = ByteReader::new(bytes);
    let err = CustomDestinations::from_reader(&mut r).unwrap_err();
    match err {
        JumplistParserError::FileStructure(m) => {
            assert_eq!(m, "CatagoryType unknown '7'");
        },
        _ => panic!("expected a FileStructure error"),
    }
}

#[test]
fn custom_task_bad_guid_names_it() {
    let mut cat = Vec::new();
    push_u32le(&mut cat, 2); // Task
    push_u32le(&mut cat, 1); // one embedded record
    cat.extend_from_slice(&[0u8; 16]); // a class id that is not the shell-link one
    let bytes = custom_stream_bytes(3, &[cat]);
    let mut r = ByteReader::new(bytes);
    let err = CustomDestinations::from_reader(&mut r).unwrap_err();
    match err {
        JumplistParserError::FileStructure(m) => {
            assert_eq!(
                m,
                "Task Category with unknown entry GUID '00000000-0000-0000-0000-000000000000'",
            );
        },
        _ => panic!("expected a FileStructure error"),
    }
}

#[test]
fn custom_category_bad_guid_names_it() {
    let mut cat = Vec::new();
    push_u32le(&mut cat, 0); // Custom
    push_u16le(&mut cat, 0); // empty name
    push_u32le(&mut cat, 1); // one embedded record
    let mut guid = vec![0u8; 16];
    guid[0] = 0x02;
    guid[15] = 0x46;
    cat.extend_from_slice(&guid);
    let bytes = custom_stream_bytes(3, &[cat]);
    let mut r = ByteReader::new(bytes);
    let err = CustomDestinations::from_reader(&mut r).unwrap_err();
    match err {
        JumplistParserError::FileStructure(m) => {
            assert_eq!(
                m,
                "Custom Category with unknown entry GUID '00000002-0000-0000-0000-000000000046'",
            );
        },
        _ => panic!("expected a FileStructure error"),
    }
}

fn shell_link_class_id_bytes() -> Vec<u8> {
    vec![0x01, 0x14, 0x02, 0x00, 0x00, 0x00, 0x00, 0x00, 0xC0, 0x00, 0x00, 0x00, 0x00, 0x00, 0x00,
        0x46]
}

#[test]
fn custom_category_with_embedded_shell_link() {
    let mut cat = Vec::new();
    push_u32le(&mut cat, 0); // Custom
    push_u16le(&mut cat, 4);
    push_utf16(&mut cat, "Test"); // category name
    push_u32le(&mut cat, 1); // one embedded record
    cat.extend_from_slice(&shell_link_class_id_bytes());
    cat.extend_from_slice(&minimal_lnk_bytes());
    push_u32le(&mut cat, 0); // terminal extra-data block of the record
    push_u32le(&mut cat, 0); // footer
    let bytes = custom_stream_bytes(3, &[cat]);
    let mut r = ByteReader::new(bytes);
    let cd = CustomDestinations::from_reader(&mut r).unwrap();
    assert_eq!(cd.entries.len(), 1);
    assert_eq!(cd.entries[0].category_type, CatagoryType::Custom);
    assert_eq!(cd.entries[0].name.as_deref(), Some("Test"));
    assert_eq!(cd.entries[0].num_of_entries, Some(1));
    assert_eq!(cd.entries[0].entries.as_ref().unwrap().len(), 1);
}

#[test]
fn custom_truncated_header_fails() {
    let mut r = ByteReader::new(vec![3, 0, 0, 0, 1, 0]);
    match CustomDestinations::from_reader(&mut r).unwrap_err() {
        JumplistParserError::FileStructure(m) => {
            assert_eq!(m, "Can't parse the 'num_of_cat'");
        },
        _ => panic!("expected a FileStructure error"),
    }
}

#[test]
fn custom_truncated_task_names_missing_field() {
    // the stream ends before the Task record's entry count
    let mut cat = Vec::new();
    push_u32le(&mut cat, 2);
    let bytes = custom_stream_bytes(3, &[cat]);
    let mut r = ByteReader::new(bytes);
    match CustomDestinations::from_reader(&mut r).unwrap_err() {
        JumplistParserError::FileStructure(m) => {
            assert_eq!(m, "Can't parse the category entry count");
        },
        _ => panic!("expected a FileStructure error"),
    }
}

#[test]
fn custom_flatten_rows_per_shell_link() {
    let mut cat = Vec::new();
    push_u32le(&mut cat, 0);
    push_u16le(&mut cat, 0);
    push_u32le(&mut cat, 1);
    cat.extend_from_slice(&shell_link_class_id_bytes());
    cat.extend_from_slice(&minimal_lnk_bytes());
    push_u32le(&mut cat, 0);
    push_u32le(&mut cat, 0);
    let bytes = custom_stream_bytes(3, &[known_category_bytes(2), cat]);
    let parsed = JumplistParser::from_reader(ByteReader::new(bytes), JumplistType::Custom)
        .unwrap();
    let rows = parsed.flaten();
    // the Known category contributes nothing; the shell-link one row
    assert_eq!(rows.len(), 1);
    assert!(rows[0].contains_key("name_string"));
    assert!(rows[0].contains_key("command_line_arguments"));
    assert!(rows[0].contains_key("jumplist_file_path"));
}

#[test]
fn detect_type_by_suffix() {
    assert!(matches!(
        detect_type("5f7b5f1e01b83767.automaticDestinations-ms"),
        Ok(JumplistType::Automatic),
    ));
    assert!(matches!(
        detect_type("1ced32d74a95c7bc.customDestinations-ms"),
        Ok(JumplistType::Custom),
    ));
    let err = detect_type("notes.txt").unwrap_err();
    match err {
        JumplistParserError::FileType(m) => assert_eq!(m, "notes.txt"),
        _ => panic!("expected a FileType error"),
    }
}

#[test]
fn jumplist_type_display_name() {
    assert_eq!(JumplistType::Automatic.display_name(), "automatic");
    assert_eq!(JumplistType::Custom.display_name(), "custom");
}

#[test]
fn output_format_from_str() {
    assert!(matches!(OutputFormat::from_str("json"), OutputFormat::JSON));
    assert!(matches!(OutputFormat::from_str("jsonl"), OutputFormat::JSONL));
    assert!(matches!(OutputFormat::from_str("csv"), OutputFormat::CSV));
    assert!(matches!(OutputFormat::from_str("tsv"), OutputFormat::CSV));
}

#[test]
fn error_message_is_kept() {
    let e = JumplistParserError::General(String::from("boom"));
    assert_eq!(e.message(), "boom");
}

#[test]
fn custom_undecodable_name_is_tolerated() {
    // an unpaired surrogate makes the name undecodable; the record itself
    // still decodes, with no name
    let mut cat = Vec::new();
    push_u32le(&mut cat, 0); // Custom
    push_u16le(&mut cat, 1); // one name unit
    push_u16le(&mut cat, 0xD800); // lone high surrogate
    push_u32le(&mut cat, 0); // no embedded records
    push_u32le(&mut cat, 0); // footer
    let bytes = custom_stream_bytes(3, &[cat]);
    let mut r = ByteReader::new(bytes);
    let cd = CustomDestinations::from_reader(&mut r).unwrap();
    assert_eq!(cd.entries.len(), 1);
    assert_eq!(cd.entries[0].category_type, CatagoryType::Custom);
    assert!(cd.entries[0].name.is_none());
    assert_eq!(cd.entries[0].num_of_entries, Some(0));
}

#[test]
fn destlist_version_one_layout() {
    // versions up to 1 omit two reserved blocks of the entry layout
    let stream = destlist_stream_bytes(1, &[("OLDHOST", 3, 0xFFFFFFFF, "C:\\old")]);
    let file = compound_file_bytes(&[("DestList", &stream)]);
    let parsed = JumplistParser::from_reader(ByteReader::new(file), JumplistType::Automatic)
        .unwrap();
    match parsed.data {
        JumplistData::DestList(dl) => {
            assert_eq!(dl.header.version, 1);
            assert_eq!(dl.entries.len(), 1);
            assert_eq!(dl.entries[0].hostname, "OLDHOST");
            assert_eq!(dl.entries[0].path, "C:\\old");
        },
        _ => panic!("expected a DestList payload"),
    }
}

#[test]
fn hostname_stops_at_first_nul() {
    let mut bytes = destlist_entry_bytes(3, "AB", 1, 0xFFFFFFFF, "C:\\x");
    // put a byte after the NUL padding begins; it must not reach the result
    bytes[72 + 4] = b'Z';
    let e = DestListEntry::from_buffer(&bytes, 3).unwrap();
    assert_eq!(e.hostname, "AB");
}

#[test]
fn short_destlist_stream_is_a_header_error() {
    // a listed DestList stream too short for its header fails the decode,
    // which surfaces as the empty-jump-list error
    let file = compound_file_bytes(&[("DestList", &[1, 2, 3, 4, 5, 6, 7, 8])]);
    let err = JumplistParser::from_reader(ByteReader::new(file), JumplistType::Automatic)
        .unwrap_err();
    assert!(matches!(err, JumplistParserError::NoDestList(_)));
}

#[test]
fn synthesized_header_comes_with_no_entries() {
    // with no DestList stream listed, the jump list is empty: a zero
    // header and no entries, whatever bytes the reader holds
    let entry = destlist_entry_bytes(0, "HOST", 3, 0xFFFFFFFF, "C:\\x");
    let cursor = std::io::Cursor::new(Vec::new());
    let mut comp = cfb::CompoundFile::create(cursor).unwrap();
    let mut r = ByteReader::new(entry);
    let dl = DestList::from_reader(&mut r, None, &mut comp).unwrap();
    assert_eq!(dl.header.version, 0);
    assert_eq!(dl.header.number_of_entries, 0);
    assert!(dl.entries.is_empty());
}

#[test]
fn app_id_stem_before_first_dot() {
    assert_eq!(
        jumplist_parser::app_id_stem("5f7b5f1e01b83767.automaticDestinations-ms"),
        "5f7b5f1e01b83767",
    );
    assert_eq!(jumplist_parser::app_id_stem("noext"), "noext");
    assert_eq!(jumplist_parser::app_id_stem(".hidden"), "");
    assert_eq!(jumplist_parser::app_id_stem(""), "");
}

#[test]
fn destlist_entry_error_names_failing_field() {
    // a stream ending inside the ordinal names that field
    let bytes = destlist_entry_bytes(3, "HOST", 26, 1, "C:\\a");
    let cut = &bytes[..90];
    match DestListEntry::from_buffer(cut, 3) {
        Err(JumplistParserError::DestListEntry(m)) => {
            assert_eq!(m, "Can't parse the 'entry_number'");
        },
        _ => panic!("expected a DestListEntry error"),
    }
    // one ending inside a GUID names that GUID
    match DestListEntry::from_buffer(&bytes[..30], 3) {
        Err(JumplistParserError::DestListEntry(m)) => {
            assert_eq!(m, "Can't parse the 'file_droid'");
        },
        _ => panic!("expected a DestListEntry error"),
    }
}

#[test]
fn destlist_header_error_names_failing_field() {
    match DestListHeader::from_buffer(&[1, 2, 3, 4, 5]) {
        Err(JumplistParserError::DestListHeader(m)) => {
            assert_eq!(m, "Can't parse the 'number_of_entries'");
        },
        _ => panic!("expected a DestListHeader error"),
    }
}
