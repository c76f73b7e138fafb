//! Assembling the rows of the persisted store.
//!
//! A run walks a file tree, and for every file records one font row, one name
//! row per kept name entry of every face that parses, and one error row per
//! face that does not. The functions here turn the plain values of that walk
//! (relative path, byte size, raw bytes) into exactly those rows; writing
//! them out is the surrounding program's concern.

use vstd::prelude::*;

use crate::collection::{spec_split, split};
use crate::extract::{
    extract, spec_extract, NameRecord, ParseOutcome, SpecNameRecord, SpecParseOutcome,
};

verus! {

/// One row of the font table: one per walked file.
pub struct FontRow {
    pub path: String,
    pub size: u64,
}

/// The mathematical value of a [`FontRow`].
pub struct SpecFontRow {
    pub path: Seq<char>,
    pub size: u64,
}

impl View for FontRow {
    type V = SpecFontRow;

    open spec fn view(&self) -> SpecFontRow {
        SpecFontRow { path: self.path@, size: self.size }
    }
}

/// One row of the name table: one per kept name entry of a parsed face.
pub struct NameRow {
    pub path: String,
    pub face_index: u32,
    pub platform_id: u8,
    pub encoding_id: u16,
    pub name_id: u16,
    pub name: Vec<u8>,
}

/// The mathematical value of a [`NameRow`].
pub struct SpecNameRow {
    pub path: Seq<char>,
    pub face_index: u32,
    pub platform_id: u8,
    pub encoding_id: u16,
    pub name_id: u16,
    pub name: Seq<u8>,
}

impl View for NameRow {
    type V = SpecNameRow;

    open spec fn view(&self) -> SpecNameRow {
        SpecNameRow {
            path: self.path@,
            face_index: self.face_index,
            platform_id: self.platform_id,
            encoding_id: self.encoding_id,
            name_id: self.name_id,
            name: self.name@,
        }
    }
}

/// One row of the error table: one per face that failed to parse.
pub struct ErrorRow {
    pub path: String,
}

/// The mathematical value of an [`ErrorRow`].
pub struct SpecErrorRow {
    pub path: Seq<char>,
}

impl View for ErrorRow {
    type V = SpecErrorRow;

    open spec fn view(&self) -> SpecErrorRow {
        SpecErrorRow { path: self.path@ }
    }
}

/// The rows of one run's store.
pub struct Store {
    pub fonts: Vec<FontRow>,
    pub names: Vec<NameRow>,
    pub errors: Vec<ErrorRow>,
}

/// The mathematical value of a [`Store`].
pub struct SpecStore {
    pub fonts: Seq<SpecFontRow>,
    pub names: Seq<SpecNameRow>,
    pub errors: Seq<SpecErrorRow>,
}

/// One walked file, as the surrounding program hands it in: its relative
/// path, its byte size, and its raw bytes.
pub struct FileInput {
    pub path: String,
    pub size: u64,
    pub data: Vec<u8>,
}

/// The mathematical value of a [`FileInput`].
pub struct SpecFileInput {
    pub path: Seq<char>,
    pub size: u64,
    pub data: Seq<u8>,
}

impl View for FileInput {
    type V = SpecFileInput;

    open spec fn view(&self) -> SpecFileInput {
        SpecFileInput { path: self.path@, size: self.size, data: self.data@ }
    }
}

/// The values of a sequence of name rows.
pub open spec fn name_rows_view(v: Seq<NameRow>) -> Seq<SpecNameRow> {
    v.map_values(|x: NameRow| x@)
}

/// The values of a sequence of error rows.
pub open spec fn error_rows_view(v: Seq<ErrorRow>) -> Seq<SpecErrorRow> {
    v.map_values(|x: ErrorRow| x@)
}

/// The values of a sequence of font rows.
pub open spec fn font_rows_view(v: Seq<FontRow>) -> Seq<SpecFontRow> {
    v.map_values(|x: FontRow| x@)
}

/// The values of a sequence of extracted name records.
pub open spec fn records_view(v: Seq<NameRecord>) -> Seq<SpecNameRecord> {
    v.map_values(|x: NameRecord| x@)
}

/// The values of a sequence of walked files.
pub open spec fn files_view(v: Seq<FileInput>) -> Seq<SpecFileInput> {
    v.map_values(|x: FileInput| x@)
}

impl View for Store {
    type V = SpecStore;

    open spec fn view(&self) -> SpecStore {
        SpecStore {
            fonts: font_rows_view(self.fonts@),
            names: name_rows_view(self.names@),
            errors: error_rows_view(self.errors@),
        }
    }
}

/// The name row recorded for one kept record of one face of one file.
pub open spec fn spec_name_row_of(path: Seq<char>, idx: u32, r: SpecNameRecord) -> SpecNameRow {
    SpecNameRow {
        path: path,
        face_index: idx,
        platform_id: r.platform_id,
        encoding_id: r.encoding_id,
        name_id: r.name_id,
        name: r.name,
    }
}

/// The name rows owed for one face of a file: none when the face fails,
/// and one per kept record, in order, when it parses.
pub open spec fn spec_face_name_rows(path: Seq<char>, data: Seq<u8>, idx: u32) -> Seq<
    SpecNameRow,
> {
    match spec_extract(data, idx) {
        SpecParseOutcome::Failed => Seq::empty(),
        SpecParseOutcome::Parsed(recs) => recs.map_values(
            |r: SpecNameRecord| spec_name_row_of(path, idx, r),
        ),
    }
}

/// The error rows owed for one face of a file: one exactly when the face
/// fails to parse.
pub open spec fn spec_face_error_rows(path: Seq<char>, data: Seq<u8>, idx: u32) -> Seq<
    SpecErrorRow,
> {
    if spec_extract(data, idx) is Failed {
        seq![SpecErrorRow { path: path }]
    } else {
        Seq::empty()
    }
}

/// The name rows owed for the given faces of a file, in face order.
pub open spec fn spec_name_rows_for(path: Seq<char>, data: Seq<u8>, faces: Seq<u32>) -> Seq<
    SpecNameRow,
>
    decreases faces.len(),
{
    if faces.len() == 0 {
        Seq::empty()
    } else {
        spec_name_rows_for(path, data, faces.drop_last()) + spec_face_name_rows(
            path,
            data,
            faces.last(),
        )
    }
}

/// The error rows owed for the given faces of a file, in face order.
pub open spec fn spec_error_rows_for(path: Seq<char>, data: Seq<u8>, faces: Seq<u32>) -> Seq<
    SpecErrorRow,
>
    decreases faces.len(),
{
    if faces.len() == 0 {
        Seq::empty()
    } else {
        spec_error_rows_for(path, data, faces.drop_last()) + spec_face_error_rows(
            path,
            data,
            faces.last(),
        )
    }
}

/// All name rows owed for one file: those of every face it offers.
pub open spec fn spec_file_name_rows(path: Seq<char>, data: Seq<u8>) -> Seq<SpecNameRow> {
    spec_name_rows_for(path, data, spec_split(data))
}

/// All error rows owed for one file: those of every face it offers.
pub open spec fn spec_file_error_rows(path: Seq<char>, data: Seq<u8>) -> Seq<SpecErrorRow> {
    spec_error_rows_for(path, data, spec_split(data))
}

/// Processes one file's bytes: splits it into faces, extracts every face
/// independently, and returns, in face order, the name rows of the faces
/// that parsed and one error row per face that did not — all carrying the
/// file's path.
pub fn process_file(path: &str, data: &[u8]) -> (r: (Vec<NameRow>, Vec<ErrorRow>))
    ensures
        name_rows_view(r.0@) == spec_file_name_rows(path@, data@),
        error_rows_view(r.1@) == spec_file_error_rows(path@, data@),
{
    let faces = split(data);
    let ghost fseq = spec_split(data@);
    let mut names: Vec<NameRow> = Vec::new();
    let mut errors: Vec<ErrorRow> = Vec::new();
    let mut j: usize = 0;
    while j < faces.len()
        invariant
            faces@ == fseq,
            fseq == spec_split(data@),
            j <= fseq.len(),
            name_rows_view(names@) == spec_name_rows_for(path@, data@, fseq.take(j as int)),
            error_rows_view(errors@) == spec_error_rows_for(path@, data@, fseq.take(j as int)),
        decreases fseq.len() - j,
    {
        let idx = faces[j];
        proof {
            assert(fseq.take(j + 1).drop_last() =~= fseq.take(j as int));
            assert(fseq.take(j + 1).last() == fseq[j as int]);
        }
        match extract(data, idx) {
            ParseOutcome::Failed => {
                let ghost prev = errors@;
                errors.push(ErrorRow { path: path.to_owned() });
                proof {
                    assert(error_rows_view(errors@) =~= error_rows_view(prev) + spec_face_error_rows(
                        path@,
                        data@,
                        idx,
                    ));
                    assert(name_rows_view(names@) + spec_face_name_rows(path@, data@, idx)
                        =~= name_rows_view(names@));
                }
            },
            ParseOutcome::Parsed(mut rs) => {
                let ghost recs = records_view(rs@);
                let ghost base = names@;
                proof {
                    assert(recs =~= rs@.map_values(|r: NameRecord| r@));
                    assert(spec_extract(data@, idx) == SpecParseOutcome::Parsed(recs));
                    assert(recs.subrange(0, recs.len() as int) =~= recs);
                    assert(recs.take(0) =~= Seq::<SpecNameRecord>::empty());
                    assert(name_rows_view(base) + recs.take(0).map_values(
                        |r: SpecNameRecord| spec_name_row_of(path@, idx, r),
                    ) =~= name_rows_view(base));
                }
                while rs.len() > 0
                    invariant
                        records_view(rs@) == recs.subrange(
                            recs.len() - rs@.len(),
                            recs.len() as int,
                        ),
                        rs@.len() <= recs.len(),
                        name_rows_view(names@) == name_rows_view(base) + recs.take(
                            recs.len() - rs@.len(),
                        ).map_values(|r: SpecNameRecord| spec_name_row_of(path@, idx, r)),
                    decreases rs@.len(),
                {
                    let ghost c = recs.len() - rs@.len();
                    let ghost old_rs = rs@;
                    let rec = rs.remove(0);
                    let ghost prev = names@;
                    names.push(
                        NameRow {
                            path: path.to_owned(),
                            face_index: idx,
                            platform_id: rec.platform_id,
                            encoding_id: rec.encoding_id,
                            name_id: rec.name_id,
                            name: rec.name,
                        },
                    );
                    proof {
                        assert(records_view(old_rs) == recs.subrange(c, recs.len() as int));
                        assert(records_view(old_rs)[0] == old_rs[0]@);
                        assert(recs.subrange(c, recs.len() as int)[0] == recs[c]);
                        assert(rec@ == recs[c]);
                        assert forall|m: int| 0 <= m < rs@.len() implies records_view(rs@)[m]
                            == recs.subrange(c + 1, recs.len() as int)[m] by {
                            assert(rs@[m] == old_rs[m + 1]);
                            assert(records_view(rs@)[m] == rs@[m]@);
                            assert(records_view(old_rs)[m + 1] == old_rs[m + 1]@);
                            assert(recs.subrange(c, recs.len() as int)[m + 1] == recs[c + 1 + m]);
                            assert(recs.subrange(c + 1, recs.len() as int)[m] == recs[c + 1 + m]);
                        }
                        assert(records_view(rs@) =~= recs.subrange(c + 1, recs.len() as int));
                        assert(recs.take(c + 1).map_values(
                            |r: SpecNameRecord| spec_name_row_of(path@, idx, r),
                        ) =~= recs.take(c).map_values(
                            |r: SpecNameRecord| spec_name_row_of(path@, idx, r),
                        ).push(spec_name_row_of(path@, idx, recs[c])));
                        assert(name_rows_view(names@) =~= name_rows_view(prev).push(
                            spec_name_row_of(path@, idx, recs[c]),
                        ));
                    }
                }
                proof {
                    assert(recs.take(recs.len() as int) =~= recs);
                    assert(name_rows_view(names@) =~= name_rows_view(base) + spec_face_name_rows(
                        path@,
                        data@,
                        idx,
                    ));
                    assert(error_rows_view(errors@) + spec_face_error_rows(path@, data@, idx)
                        =~= error_rows_view(errors@));
                }
            },
        }
        j = j + 1;
    }
    proof {
        assert(fseq.take(fseq.len() as int) =~= fseq);
    }
    (names, errors)
}

/// The store owed for a sequence of walked files: one font row per file in
/// walk order, and the name and error rows of every file's faces.
pub open spec fn spec_store(files: Seq<SpecFileInput>) -> SpecStore
    decreases files.len(),
{
    if files.len() == 0 {
        SpecStore { fonts: Seq::empty(), names: Seq::empty(), errors: Seq::empty() }
    } else {
        let rest = spec_store(files.drop_last());
        let f = files.last();
        SpecStore {
            fonts: rest.fonts.push(SpecFontRow { path: f.path, size: f.size }),
            names: rest.names + spec_file_name_rows(f.path, f.data),
            errors: rest.errors + spec_file_error_rows(f.path, f.data),
        }
    }
}

/// Builds the whole store for a run over the given files, in walk order:
/// exactly one font row per file, and per face the name rows of a
/// successful parse or one error row for a failed one.
pub fn build_store(files: &Vec<FileInput>) -> (r: Store)
    ensures
        r@ == spec_store(files_view(files@)),
{
    let ghost fv = files_view(files@);
    let mut fonts: Vec<FontRow> = Vec::new();
    let mut names: Vec<NameRow> = Vec::new();
    let mut errors: Vec<ErrorRow> = Vec::new();
    let mut i: usize = 0;
    while i < files.len()
        invariant
            fv == files_view(files@),
            i <= files@.len(),
            fv.len() == files@.len(),
            forall|k: int| 0 <= k < fv.len() ==> fv[k] == files@[k]@,
            font_rows_view(fonts@) == spec_store(fv.take(i as int)).fonts,
            name_rows_view(names@) == spec_store(fv.take(i as int)).names,
            error_rows_view(errors@) == spec_store(fv.take(i as int)).errors,
        decreases files@.len() - i,
    {
        proof {
            assert(fv.take(i + 1).drop_last() =~= fv.take(i as int));
            assert(fv.take(i + 1).last() == fv[i as int]);
        }
        let f = &files[i];
        let ghost prev_fonts = fonts@;
        fonts.push(FontRow { path: f.path.clone(), size: f.size });
        let (mut ns, mut es) = process_file(f.path.as_str(), f.data.as_slice());
        let ghost prev_names = names@;
        let ghost prev_errors = errors@;
        let ghost ns_seq = ns@;
        let ghost es_seq = es@;
        names.append(&mut ns);
        errors.append(&mut es);
        proof {
            assert(font_rows_view(fonts@) =~= font_rows_view(prev_fonts).push(
                SpecFontRow { path: fv[i as int].path, size: fv[i as int].size },
            ));
            assert(name_rows_view(names@) =~= name_rows_view(prev_names) + name_rows_view(ns_seq));
            assert(error_rows_view(errors@) =~= error_rows_view(prev_errors) + error_rows_view(
                es_seq,
            ));
        }
        i = i + 1;
    }
    proof {
        assert(fv.take(fv.len() as int) =~= fv);
    }
    Store { fonts, names, errors }
}

/// Every name row and every error row owed for the given faces of a file
/// carries that file's path.
proof fn lemma_rows_for_have_path(path: Seq<char>, data: Seq<u8>, faces: Seq<u32>)
    ensures
        forall|m: int|
            0 <= m < spec_name_rows_for(path, data, faces).len() ==> (
            #[trigger] spec_name_rows_for(path, data, faces)[m]).path == path,
        forall|m: int|
            0 <= m < spec_error_rows_for(path, data, faces).len() ==> (
            #[trigger] spec_error_rows_for(path, data, faces)[m]).path == path,
    decreases faces.len(),
{
    if faces.len() > 0 {
        lemma_rows_for_have_path(path, data, faces.drop_last());
        let nrest = spec_name_rows_for(path, data, faces.drop_last());
        let nface = spec_face_name_rows(path, data, faces.last());
        assert forall|m: int|
            0 <= m < spec_name_rows_for(path, data, faces).len() implies (
        #[trigger] spec_name_rows_for(path, data, faces)[m]).path == path by {
            if m < nrest.len() {
                assert(spec_name_rows_for(path, data, faces)[m] == nrest[m]);
            } else {
                assert(spec_name_rows_for(path, data, faces)[m] == nface[m - nrest.len()]);
            }
        }
        let erest = spec_error_rows_for(path, data, faces.drop_last());
        let eface = spec_face_error_rows(path, data, faces.last());
        assert forall|m: int|
            0 <= m < spec_error_rows_for(path, data, faces).len() implies (
        #[trigger] spec_error_rows_for(path, data, faces)[m]).path == path by {
            if m < erest.len() {
                assert(spec_error_rows_for(path, data, faces)[m] == erest[m]);
            } else {
                assert(spec_error_rows_for(path, data, faces)[m] == eface[m - erest.len()]);
            }
        }
    }
}

/// Every name row and every error row owed for one file carries that
/// file's path.
pub proof fn lemma_file_rows_have_path(path: Seq<char>, data: Seq<u8>)
    ensures
        forall|m: int|
            0 <= m < spec_file_name_rows(path, data).len() ==> (#[trigger] spec_file_name_rows(
                path,
                data,
            )[m]).path == path,
        forall|m: int|
            0 <= m < spec_file_error_rows(path, data).len() ==> (#[trigger] spec_file_error_rows(
                path,
                data,
            )[m]).path == path,
{
    lemma_rows_for_have_path(path, data, spec_split(data));
}

/// Whether some font row of the store carries the given path.
pub open spec fn references_font(s: SpecStore, p: Seq<char>) -> bool {
    exists|k: int| 0 <= k < s.fonts.len() && (#[trigger] s.fonts[k]).path == p
}

/// Referential integrity: in the store of a full run, every name row's and
/// every error row's path is the path of some font row — no orphaned
/// records.
pub proof fn lemma_referential_integrity(files: Seq<SpecFileInput>)
    ensures
        forall|j: int|
            0 <= j < spec_store(files).names.len() ==> references_font(
                spec_store(files),
                (#[trigger] spec_store(files).names[j]).path,
            ),
        forall|j: int|
            0 <= j < spec_store(files).errors.len() ==> references_font(
                spec_store(files),
                (#[trigger] spec_store(files).errors[j]).path,
            ),
    decreases files.len(),
{
    if files.len() > 0 {
        lemma_referential_integrity(files.drop_last());
        let rest = spec_store(files.drop_last());
        let cur = spec_store(files);
        let f = files.last();
        lemma_file_rows_have_path(f.path, f.data);
        assert(cur.fonts == rest.fonts.push(SpecFontRow { path: f.path, size: f.size }));
        assert forall|j: int| 0 <= j < cur.names.len() implies references_font(
            cur,
            (#[trigger] cur.names[j]).path,
        ) by {
            if j < rest.names.len() {
                assert(cur.names[j] == rest.names[j]);
                assert(references_font(rest, rest.names[j].path));
                let k = choose|k: int|
                    0 <= k < rest.fonts.len() && (#[trigger] rest.fonts[k]).path
                        == rest.names[j].path;
                assert(cur.fonts[k] == rest.fonts[k]);
                assert(0 <= k < cur.fonts.len() && cur.fonts[k].path == cur.names[j].path);
            } else {
                let k = cur.fonts.len() - 1;
                assert(cur.names[j] == spec_file_name_rows(f.path, f.data)[j - rest.names.len()]);
                assert(cur.names[j].path == f.path);
                assert(cur.fonts[k].path == f.path);
            }
        }
        assert forall|j: int| 0 <= j < cur.errors.len() implies references_font(
            cur,
            (#[trigger] cur.errors[j]).path,
        ) by {
            if j < rest.errors.len() {
                assert(cur.errors[j] == rest.errors[j]);
                assert(references_font(rest, rest.errors[j].path));
                let k = choose|k: int|
                    0 <= k < rest.fonts.len() && (#[trigger] rest.fonts[k]).path
                        == rest.errors[j].path;
                assert(cur.fonts[k] == rest.fonts[k]);
                assert(0 <= k < cur.fonts.len() && cur.fonts[k].path == cur.errors[j].path);
            } else {
                let k = cur.fonts.len() - 1;
                assert(cur.errors[j] == spec_file_error_rows(f.path, f.data)[j
                    - rest.errors.len()]);
                assert(cur.errors[j].path == f.path);
                assert(cur.fonts[k].path == f.path);
            }
        }
    }
}

/// The font rows of a run mirror the walked files exactly: one row per
/// file, in walk order, carrying that file's path and size.
pub proof fn lemma_font_rows_match_inputs(files: Seq<SpecFileInput>)
    ensures
        spec_store(files).fonts.len() == files.len(),
        forall|i: int|
            0 <= i < files.len() ==> (#[trigger] spec_store(files).fonts[i]).path == files[i].path
                && spec_store(files).fonts[i].size == files[i].size,
    decreases files.len(),
{
    if files.len() > 0 {
        lemma_font_rows_match_inputs(files.drop_last());
    }
}

/// When the walked paths are pairwise distinct — as the paths of distinct
/// files under one root are — the font rows' paths are pairwise distinct
/// too, so together with referential integrity every name and error row
/// references exactly one font row.
pub proof fn lemma_font_paths_unique(files: Seq<SpecFileInput>)
    requires
        forall|i: int, j: int|
            0 <= i < j < files.len() ==> files[i].path != files[j].path,
    ensures
        forall|i: int, j: int|
            0 <= i < j < spec_store(files).fonts.len() ==> (#[trigger] spec_store(
                files,
            ).fonts[i]).path != (#[trigger] spec_store(files).fonts[j]).path,
{
    lemma_font_rows_match_inputs(files);
}

/// Error isolation: a collection of two faces, one malformed and one that
/// parses with at least one kept record, yields exactly one error row and
/// at least one name row, all carrying the same path.
pub proof fn lemma_error_isolation(
    path: Seq<char>,
    data: Seq<u8>,
    bad: u32,
    good: u32,
    recs: Seq<SpecNameRecord>,
)
    requires
        crate::collection::spec_fonts_in_collection(data) == Some(2u32),
        bad < 2,
        good < 2,
        bad != good,
        spec_extract(data, bad) == SpecParseOutcome::Failed,
        spec_extract(data, good) == SpecParseOutcome::Parsed(recs),
        recs.len() > 0,
    ensures
        spec_file_error_rows(path, data).len() == 1,
        spec_file_error_rows(path, data)[0].path == path,
        spec_file_name_rows(path, data).len() >= 1,
        forall|m: int|
            0 <= m < spec_file_name_rows(path, data).len() ==> (#[trigger] spec_file_name_rows(
                path,
                data,
            )[m]).path == path,
{
    let faces = spec_split(data);
    let none: Seq<u32> = Seq::empty();
    assert(faces =~= seq![0u32, 1u32]);
    assert(faces.drop_last() =~= seq![0u32]);
    assert(faces.last() == 1u32);
    assert(seq![0u32].drop_last() =~= none);
    assert(seq![0u32].last() == 0u32);
    assert(spec_error_rows_for(path, data, none) =~= Seq::<SpecErrorRow>::empty());
    assert(spec_name_rows_for(path, data, none) =~= Seq::<SpecNameRow>::empty());
    assert(spec_error_rows_for(path, data, seq![0u32]) =~= spec_face_error_rows(path, data, 0u32));
    assert(spec_error_rows_for(path, data, faces) =~= spec_face_error_rows(path, data, 0u32)
        + spec_face_error_rows(path, data, 1u32));
    assert(spec_name_rows_for(path, data, seq![0u32]) =~= spec_face_name_rows(path, data, 0u32));
    assert(spec_name_rows_for(path, data, faces) =~= spec_face_name_rows(path, data, 0u32)
        + spec_face_name_rows(path, data, 1u32));
    assert(spec_face_error_rows(path, data, bad) =~= seq![SpecErrorRow { path: path }]);
    assert(spec_face_error_rows(path, data, good) =~= Seq::<SpecErrorRow>::empty());
    assert(spec_face_name_rows(path, data, bad) =~= Seq::<SpecNameRow>::empty());
    assert(spec_face_name_rows(path, data, good).len() == recs.len());
    lemma_file_rows_have_path(path, data);
}

} // verus!
