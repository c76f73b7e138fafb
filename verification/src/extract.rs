//! Face name extraction: the name records of one face, filtered.
//!
//! Parsing a face either fails (malformed table directory, unsupported
//! version, truncated data, out-of-range face index) or yields the face's
//! name table. Of that table only entries of the two tracked kinds — the
//! full name and the PostScript name — with a non-empty payload are kept;
//! each kept entry's platform is mapped to its stable code and everything
//! else is passed through unchanged, in table order.

use vstd::prelude::*;

use crate::platform::{spec_platform_code, platform_code, Platform};

verus! {

/// The name identifier of a face's full name entry, as the font format
/// defines it.
pub const FULL_NAME: u16 = 4;

/// The name identifier of a face's PostScript name entry, as the font
/// format defines it.
pub const POST_SCRIPT_NAME: u16 = 6;

/// One entry of a face's name table, as the font stores it: the platform
/// not yet mapped to its code, the identifiers, and the raw payload bytes.
pub struct RawName {
    pub platform: Platform,
    pub encoding_id: u16,
    pub language_id: u16,
    pub name_id: u16,
    pub name: Vec<u8>,
}

/// The mathematical value of a [`RawName`].
pub struct SpecRawName {
    pub platform: Platform,
    pub encoding_id: u16,
    pub language_id: u16,
    pub name_id: u16,
    pub name: Seq<u8>,
}

impl View for RawName {
    type V = SpecRawName;

    open spec fn view(&self) -> SpecRawName {
        SpecRawName {
            platform: self.platform,
            encoding_id: self.encoding_id,
            language_id: self.language_id,
            name_id: self.name_id,
            name: self.name@,
        }
    }
}

/// One record that extraction emits for a kept name entry: the platform
/// mapped to its stable code, the rest passed through unchanged.
pub struct NameRecord {
    pub platform_id: u8,
    pub encoding_id: u16,
    pub name_id: u16,
    pub name: Vec<u8>,
}

/// The mathematical value of a [`NameRecord`].
pub struct SpecNameRecord {
    pub platform_id: u8,
    pub encoding_id: u16,
    pub name_id: u16,
    pub name: Seq<u8>,
}

impl View for NameRecord {
    type V = SpecNameRecord;

    open spec fn view(&self) -> SpecNameRecord {
        SpecNameRecord {
            platform_id: self.platform_id,
            encoding_id: self.encoding_id,
            name_id: self.name_id,
            name: self.name@,
        }
    }
}

/// The outcome of extracting one face: a parse failure, or the kept name
/// records in table order.
pub enum ParseOutcome {
    Failed,
    Parsed(Vec<NameRecord>),
}

/// The mathematical value of a [`ParseOutcome`].
pub enum SpecParseOutcome {
    Failed,
    Parsed(Seq<SpecNameRecord>),
}

impl View for ParseOutcome {
    type V = SpecParseOutcome;

    open spec fn view(&self) -> SpecParseOutcome {
        match self {
            ParseOutcome::Failed => SpecParseOutcome::Failed,
            ParseOutcome::Parsed(rs) => SpecParseOutcome::Parsed(
                rs@.map_values(|r: NameRecord| r@),
            ),
        }
    }
}

/// Whether the bytes hold a parseable face at the given index.
pub uninterp spec fn face_parses(data: Seq<u8>, index: u32) -> bool;

/// The sequence of name-table entries that iterating the face's name table
/// yields, in table order; meaningful only when the face parses.
pub uninterp spec fn face_names_of(data: Seq<u8>, index: u32) -> Seq<SpecRawName>;

/// Relies on ttf_parser::Face::parse: whether the bytes parse as a face at
/// the given index is a function of the bytes and the index alone.
#[verifier::external_body]
fn face_parse_ok(data: &[u8], index: u32) -> (r: bool)
    ensures
        r == face_parses(data@, index),
{
    ttf_parser::Face::parse(data, index).is_ok()
}

/// Relies on ttf_parser::Face::parse and the name-table iterator of
/// ttf_parser::name::Names: the records the iterator yields are a function
/// of the bytes and the face index alone, are yielded in table order, and
/// number at most 65535 (the table's record count is 16 bits wide).
#[verifier::external_body]
fn face_name_at(data: &[u8], index: u32, i: usize) -> (r: Option<RawName>)
    ensures
        r is Some <==> (face_parses(data@, index) && (i as int) < face_names_of(
            data@,
            index,
        ).len()),
        r matches Some(n) ==> (n@ == face_names_of(data@, index)[i as int] && face_names_of(
            data@,
            index,
        ).len() <= 65535),
{
    let face = match ttf_parser::Face::parse(data, index) { Ok(f) => f, Err(_) => return None };
    let name = match face.names().into_iter().nth(i) { Some(n) => n, None => return None };
    let platform = match name.platform_id {
        ttf_parser::PlatformId::Unicode => Platform::Unicode,
        ttf_parser::PlatformId::Macintosh => Platform::Macintosh,
        ttf_parser::PlatformId::Iso => Platform::Iso,
        ttf_parser::PlatformId::Windows => Platform::Windows,
        ttf_parser::PlatformId::Custom => Platform::Custom,
    };
    Some(RawName { platform, encoding_id: name.encoding_id, language_id: name.language_id,
        name_id: name.name_id, name: name.name.to_vec() })
}

/// Whether a name-table entry is kept: one of the two tracked kinds, with
/// a non-empty payload.
pub open spec fn spec_keeps(n: SpecRawName) -> bool {
    (n.name_id == FULL_NAME || n.name_id == POST_SCRIPT_NAME) && n.name.len() > 0
}

/// The record emitted for a kept entry.
pub open spec fn spec_record_of(n: SpecRawName) -> SpecNameRecord {
    SpecNameRecord {
        platform_id: spec_platform_code(n.platform),
        encoding_id: n.encoding_id,
        name_id: n.name_id,
        name: n.name,
    }
}

/// The kept records of a name table, in table order.
pub open spec fn spec_filter_names(tbl: Seq<SpecRawName>) -> Seq<SpecNameRecord>
    decreases tbl.len(),
{
    if tbl.len() == 0 {
        Seq::empty()
    } else if spec_keeps(tbl.last()) {
        spec_filter_names(tbl.drop_last()).push(spec_record_of(tbl.last()))
    } else {
        spec_filter_names(tbl.drop_last())
    }
}

/// The outcome owed for one face: a failure exactly when the face does not
/// parse, and otherwise the kept records of its name table.
pub open spec fn spec_extract(data: Seq<u8>, index: u32) -> SpecParseOutcome {
    if face_parses(data, index) {
        SpecParseOutcome::Parsed(spec_filter_names(face_names_of(data, index)))
    } else {
        SpecParseOutcome::Failed
    }
}

/// Extracts one face's kept name records from a file's bytes: fails exactly
/// when the bytes do not parse as a face at `face_index`, and otherwise
/// yields, in table order, a record for every entry of a tracked kind with
/// a non-empty payload, its platform mapped to the stable code.
pub fn extract(data: &[u8], face_index: u32) -> (r: ParseOutcome)
    ensures
        r@ == spec_extract(data@, face_index),
{
    if !face_parse_ok(data, face_index) {
        return ParseOutcome::Failed;
    }
    let ghost tbl = face_names_of(data@, face_index);
    let mut out: Vec<NameRecord> = Vec::new();
    let mut i: usize = 0;
    loop
        invariant
            face_parses(data@, face_index),
            tbl == face_names_of(data@, face_index),
            i <= tbl.len(),
            out@.map_values(|r: NameRecord| r@) == spec_filter_names(tbl.take(i as int)),
        ensures
            out@.map_values(|r: NameRecord| r@) == spec_filter_names(tbl),
        decreases tbl.len() - i,
    {
        match face_name_at(data, face_index, i) {
            None => {
                proof {
                    assert(i as int == tbl.len());
                    assert(tbl.take(i as int) =~= tbl);
                }
                break ;
            },
            Some(n) => {
                proof {
                    assert(tbl.take(i + 1).drop_last() =~= tbl.take(i as int));
                    assert(tbl.take(i + 1).last() == tbl[i as int]);
                }
                if (n.name_id == FULL_NAME || n.name_id == POST_SCRIPT_NAME) && n.name.len() > 0 {
                    let rec = NameRecord {
                        platform_id: platform_code(n.platform),
                        encoding_id: n.encoding_id,
                        name_id: n.name_id,
                        name: n.name,
                    };
                    let ghost prev = out@;
                    out.push(rec);
                    proof {
                        assert(out@.map_values(|r: NameRecord| r@) =~= prev.map_values(
                            |r: NameRecord| r@,
                        ).push(rec@));
                    }
                } else {
                    proof {
                        assert(!spec_keeps(tbl[i as int]));
                    }
                }
                i = i + 1;
            },
        }
    }
    ParseOutcome::Parsed(out)
}

/// Whether an emitted record is of a tracked kind and carries a payload.
pub open spec fn spec_tracked_record(r: SpecNameRecord) -> bool {
    (r.name_id == FULL_NAME || r.name_id == POST_SCRIPT_NAME) && r.name.len() > 0
}

/// Filter correctness: every record that extraction emits has one of the
/// two tracked name kinds and a non-empty payload — entries of any other
/// kind, and entries with an empty payload, never appear in the output.
pub proof fn lemma_filter_correct(tbl: Seq<SpecRawName>)
    ensures
        forall|k: int|
            0 <= k < spec_filter_names(tbl).len() ==> spec_tracked_record(
                #[trigger] spec_filter_names(tbl)[k],
            ),
    decreases tbl.len(),
{
    if tbl.len() > 0 {
        lemma_filter_correct(tbl.drop_last());
        let rest = spec_filter_names(tbl.drop_last());
        assert forall|k: int|
            0 <= k < spec_filter_names(tbl).len() implies spec_tracked_record(
            #[trigger] spec_filter_names(tbl)[k],
        ) by {
            if k < rest.len() {
                assert(spec_filter_names(tbl)[k] == rest[k]);
            }
        }
    }
}

/// Round-trip determinism: extraction is a function of the bytes and the
/// face index alone, so any two outcomes obtained for the same bytes and
/// index are identical, record for record and in the same order.
pub proof fn lemma_extract_deterministic(
    data: Seq<u8>,
    index: u32,
    r1: SpecParseOutcome,
    r2: SpecParseOutcome,
)
    requires
        r1 == spec_extract(data, index),
        r2 == spec_extract(data, index),
    ensures
        r1 == r2,
{
}

} // verus!
