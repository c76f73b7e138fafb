use font_index::collection::split;
use font_index::extract::{extract, NameRecord, ParseOutcome};
use font_index::platform::{platform_code, Platform};
use font_index::store::{build_store, process_file, FileInput};

/// A name-table entry for the test font builder:
/// (platform_id, encoding_id, language_id, name_id, payload).
type Entry = (u16, u16, u16, u16, Vec<u8>);

fn push_u16(out: &mut Vec<u8>, v: u16) {
    out.extend_from_slice(&v.to_be_bytes());
}

fn push_u32(out: &mut Vec<u8>, v: u32) {
    out.extend_from_slice(&v.to_be_bytes());
}

/// Builds a name table (format 0) holding the given entries.
fn build_name_table(entries: &[Entry]) -> Vec<u8> {
    let mut table = Vec::new();
    push_u16(&mut table, 0); // version
    push_u16(&mut table, entries.len() as u16);
    let storage_offset = 6 + 12 * entries.len() as u16;
    push_u16(&mut table, storage_offset);
    let mut storage: Vec<u8> = Vec::new();
    for (platform, encoding, language, name_id, payload) in entries {
        push_u16(&mut table, *platform);
        push_u16(&mut table, *encoding);
        push_u16(&mut table, *language);
        push_u16(&mut table, *name_id);
        push_u16(&mut table, payload.len() as u16);
        push_u16(&mut table, storage.len() as u16);
        storage.extend_from_slice(payload);
    }
    table.extend_from_slice(&storage);
    table
}

/// Builds the bytes of one single-face font whose table offsets are
/// absolute positions in the final file, assuming the face block starts at
/// byte `base` of that file. With `base == 0` the result is a complete
/// font file on its own.
fn build_face(base: u32, name_table: Option<&[Entry]>) -> Vec<u8> {
    let mut head = vec![0u8; 54];
    head[18] = 0x03; // units per em = 1000
    head[19] = 0xE8;
    // index-to-location format at offset 50 stays 0
    let hhea = vec![0u8; 36];
    let mut maxp = Vec::new();
    push_u32(&mut maxp, 0x0000_5000); // version 0.5
    push_u16(&mut maxp, 1); // one glyph
    let name = name_table.map(build_name_table);

    let mut tables: Vec<(&[u8; 4], Vec<u8>)> = vec![
        (b"head", head),
        (b"hhea", hhea),
        (b"maxp", maxp),
    ];
    if let Some(n) = name {
        tables.push((b"name", n)); // tags stay sorted: head < hhea < maxp < name
    }

    let mut out = Vec::new();
    push_u32(&mut out, 0x0001_0000); // sfnt magic
    push_u16(&mut out, tables.len() as u16);
    push_u16(&mut out, 0); // search range
    push_u16(&mut out, 0); // entry selector
    push_u16(&mut out, 0); // range shift
    let mut offset = base + 12 + 16 * tables.len() as u32;
    for (tag, data) in &tables {
        out.extend_from_slice(*tag);
        push_u32(&mut out, 0); // checksum, not validated
        push_u32(&mut out, offset);
        push_u32(&mut out, data.len() as u32);
        offset += data.len() as u32;
    }
    for (_, data) in &tables {
        out.extend_from_slice(data);
    }
    out
}

/// Builds a two-face collection file: face 0 is garbage that cannot parse,
/// face 1 is a well-formed font with the given name entries.
fn build_collection_bad_good(entries: &[Entry]) -> Vec<u8> {
    let mut out = Vec::new();
    out.extend_from_slice(b"ttcf");
    push_u32(&mut out, 0x0001_0000); // version
    push_u32(&mut out, 2); // two faces
    let bad_offset = 12 + 8; // header + two offsets
    let bad = [0xFFu8; 4]; // no known magic: face 0 cannot parse
    let good_offset = bad_offset + bad.len() as u32;
    push_u32(&mut out, bad_offset);
    push_u32(&mut out, good_offset);
    out.extend_from_slice(&bad);
    out.extend_from_slice(&build_face(good_offset, Some(entries)));
    out
}

fn assert_record(r: &NameRecord, platform_id: u8, encoding_id: u16, name_id: u16, name: &[u8]) {
    assert_eq!(r.platform_id, platform_id);
    assert_eq!(r.encoding_id, encoding_id);
    assert_eq!(r.name_id, name_id);
    assert_eq!(r.name, name);
}

#[test]
fn split_empty_input_is_single_face() {
    assert_eq!(split(&[]), vec![0]);
}

#[test]
fn split_random_bytes_is_single_face() {
    assert_eq!(split(b"hello, not a font at all"), vec![0]);
    assert_eq!(split(&[0xDE, 0xAD, 0xBE, 0xEF, 1, 2, 3, 4, 5, 6, 7, 8, 9]), vec![0]);
}

#[test]
fn split_truncated_collection_is_single_face() {
    // the tag alone, without a readable face count, is not a collection
    assert_eq!(split(b"ttcf\x00\x01\x00\x00"), vec![0]);
}

#[test]
fn split_single_face_font_is_single_face() {
    let font = build_face(0, None);
    assert_eq!(split(&font), vec![0]);
}

#[test]
fn split_collection_yields_all_declared_indices() {
    let mut header = Vec::new();
    header.extend_from_slice(b"ttcf");
    push_u32(&mut header, 0x0001_0000);
    push_u32(&mut header, 3);
    assert_eq!(split(&header), vec![0, 1, 2]);

    let two_faces = build_collection_bad_good(&[]);
    assert_eq!(split(&two_faces), vec![0, 1]);
}

#[test]
fn extract_rejects_non_font_bytes() {
    assert!(matches!(extract(b"plain text, no font here", 0), ParseOutcome::Failed));
    assert!(matches!(extract(&[], 0), ParseOutcome::Failed));
}

#[test]
fn extract_rejects_out_of_range_index_on_single_font() {
    let font = build_face(0, None);
    assert!(matches!(extract(&font, 1), ParseOutcome::Failed));
    assert!(matches!(extract(&font, 0), ParseOutcome::Parsed(_)));
}

#[test]
fn extract_without_name_table_yields_no_records() {
    let font = build_face(0, None);
    match extract(&font, 0) {
        ParseOutcome::Parsed(records) => assert!(records.is_empty()),
        ParseOutcome::Failed => panic!("a well-formed face must parse"),
    }
}

#[test]
fn extract_keeps_only_tracked_kinds_with_payload() {
    let entries: Vec<Entry> = vec![
        (3, 1, 0x0409, 4, b"Full Name".to_vec()),
        (1, 0, 0, 6, b"Foo-PS".to_vec()),
        (0, 3, 0, 1, b"Family, dropped".to_vec()),
        (3, 1, 0x0409, 4, Vec::new()), // matching kind, empty payload: dropped
        (4, 7, 0, 6, b"CustomPlatform".to_vec()),
        (2, 0, 0, 4, b"IsoName".to_vec()),
        (0, 3, 0, 5, b"Version, dropped".to_vec()),
    ];
    let font = build_face(0, Some(&entries));
    match extract(&font, 0) {
        ParseOutcome::Parsed(records) => {
            assert_eq!(records.len(), 4);
            assert_record(&records[0], 3, 1, 4, b"Full Name");
            assert_record(&records[1], 1, 0, 6, b"Foo-PS");
            assert_record(&records[2], 4, 7, 6, b"CustomPlatform");
            assert_record(&records[3], 2, 0, 4, b"IsoName");
        },
        ParseOutcome::Failed => panic!("a well-formed face must parse"),
    }
}

#[test]
fn extract_is_deterministic() {
    let entries: Vec<Entry> = vec![
        (3, 1, 0x0409, 4, b"Full Name".to_vec()),
        (1, 0, 0, 6, b"Foo-PS".to_vec()),
    ];
    let font = build_face(0, Some(&entries));
    let first = extract(&font, 0);
    let second = extract(&font, 0);
    match (first, second) {
        (ParseOutcome::Parsed(a), ParseOutcome::Parsed(b)) => {
            assert_eq!(a.len(), b.len());
            for (x, y) in a.iter().zip(b.iter()) {
                assert_eq!(x.platform_id, y.platform_id);
                assert_eq!(x.encoding_id, y.encoding_id);
                assert_eq!(x.name_id, y.name_id);
                assert_eq!(x.name, y.name);
            }
        },
        _ => panic!("both parses must succeed and agree"),
    }
}

#[test]
fn platform_codes_are_fixed() {
    assert_eq!(platform_code(Platform::Unicode), 0);
    assert_eq!(platform_code(Platform::Macintosh), 1);
    assert_eq!(platform_code(Platform::Iso), 2);
    assert_eq!(platform_code(Platform::Windows), 3);
    assert_eq!(platform_code(Platform::Custom), 4);
}

#[test]
fn error_isolation_in_collection() {
    let entries: Vec<Entry> = vec![(3, 1, 0x0409, 4, b"Good Face".to_vec())];
    let data = build_collection_bad_good(&entries);
    let (names, errors) = process_file("fonts/mixed.ttc", &data);
    assert_eq!(errors.len(), 1);
    assert_eq!(errors[0].path, "fonts/mixed.ttc");
    assert_eq!(names.len(), 1);
    assert_eq!(names[0].path, "fonts/mixed.ttc");
    assert_eq!(names[0].face_index, 1);
    assert_record_row(&names[0], 3, 1, 4, b"Good Face");
}

fn assert_record_row(
    r: &font_index::store::NameRow,
    platform_id: u8,
    encoding_id: u16,
    name_id: u16,
    name: &[u8],
) {
    assert_eq!(r.platform_id, platform_id);
    assert_eq!(r.encoding_id, encoding_id);
    assert_eq!(r.name_id, name_id);
    assert_eq!(r.name, name);
}

#[test]
fn empty_directory_yields_empty_store() {
    let store = build_store(&Vec::new());
    assert_eq!(store.fonts.len(), 0);
    assert_eq!(store.names.len(), 0);
    assert_eq!(store.errors.len(), 0);
}

#[test]
fn plain_text_file_yields_one_font_and_one_error() {
    let data = b"this is not a font".to_vec();
    let files = vec![FileInput {
        path: String::from("notfont.txt"),
        size: data.len() as u64,
        data,
    }];
    let store = build_store(&files);
    assert_eq!(store.fonts.len(), 1);
    assert_eq!(store.fonts[0].path, "notfont.txt");
    assert_eq!(store.fonts[0].size, 18);
    assert_eq!(store.errors.len(), 1);
    assert_eq!(store.errors[0].path, "notfont.txt");
    assert_eq!(store.names.len(), 0);
}

#[test]
fn full_run_attributes_rows_to_their_files() {
    let entries: Vec<Entry> = vec![
        (3, 1, 0x0409, 4, b"Alpha".to_vec()),
        (1, 0, 0, 6, b"Alpha-PS".to_vec()),
    ];
    let font = build_face(0, Some(&entries));
    let junk = b"junk".to_vec();
    let files = vec![
        FileInput { path: String::from("a/alpha.ttf"), size: font.len() as u64, data: font },
        FileInput { path: String::from("b/junk.bin"), size: junk.len() as u64, data: junk },
    ];
    let store = build_store(&files);
    assert_eq!(store.fonts.len(), 2);
    assert_eq!(store.names.len(), 2);
    assert!(store.names.iter().all(|n| n.path == "a/alpha.ttf" && n.face_index == 0));
    assert_eq!(store.errors.len(), 1);
    assert_eq!(store.errors[0].path, "b/junk.bin");
}
