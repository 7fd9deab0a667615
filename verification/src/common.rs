//! Commonly used functions: hashing of data, and the projection and
//! rendering of track rows as listed to the user.

use vstd::prelude::*;
use vstd::string::*;

use crate::models::TrackRow;
use crate::opt_view;
use crate::text::{contains_text, i64_decimal, i64_to_decimal, same_text, views};

verus! {

/// The columns of a track row, in the order a listing shows them.
pub open spec fn spec_canonical_columns() -> Seq<Seq<char>> {
    seq![
        "id"@,
        "title"@,
        "artist"@,
        "album"@,
        "album_artist"@,
        "recording_date"@,
        "release_date"@,
        "track_number"@,
        "disc_number"@,
        "genre"@,
        "composer"@,
        "lyricist"@,
        "lyrics_id"@,
        "front_cover_id"@,
        "file_id"@,
    ]
}

/// The columns of a track row, in the order a listing shows them.
pub fn canonical_columns() -> (r: Vec<String>)
    ensures
        views(r@) == spec_canonical_columns(),
{
    let v = vec![
        String::from_str("id"),
        String::from_str("title"),
        String::from_str("artist"),
        String::from_str("album"),
        String::from_str("album_artist"),
        String::from_str("recording_date"),
        String::from_str("release_date"),
        String::from_str("track_number"),
        String::from_str("disc_number"),
        String::from_str("genre"),
        String::from_str("composer"),
        String::from_str("lyricist"),
        String::from_str("lyrics_id"),
        String::from_str("front_cover_id"),
        String::from_str("file_id"),
    ];
    assert(views(v@) =~= spec_canonical_columns());
    v
}

/// The BLAKE3 hash of `data` (32 bytes), as the `blake3` crate computes it.
pub uninterp spec fn blake3_hash(data: Seq<u8>) -> Seq<u8>;

/// Calls `blake3::hash`. Claimed: the result is the 32 bytes of the hash of
/// `data`, and the same data always gives the same bytes.
#[verifier::external_body]
fn blake3_digest(data: &[u8]) -> (r: Vec<u8>)
    ensures
        r@ == blake3_hash(data@),
        r@.len() == 32,
{
    blake3::hash(data).as_bytes().to_vec()
}

/// Computes the BLAKE3 hash of `data`.
pub fn compute_data_hash(data: &[u8]) -> (r: Vec<u8>)
    ensures
        r@ == blake3_hash(data@),
        r@.len() == 32,
{
    blake3_digest(data)
}

/// A value of a listed cell.
#[derive(Debug, PartialEq, Eq)]
pub enum CellValue {
    Null,
    Integer(i64),
    Text(String),
}

/// The view of a [`CellValue`].
pub enum CellValueView {
    Null,
    Integer(i64),
    Text(Seq<char>),
}

impl View for CellValue {
    type V = CellValueView;

    open spec fn view(&self) -> CellValueView {
        match self {
            CellValue::Null => CellValueView::Null,
            CellValue::Integer(n) => CellValueView::Integer(*n),
            CellValue::Text(s) => CellValueView::Text(s@),
        }
    }
}

/// The cell of an optional text.
pub open spec fn text_cell(o: Option<Seq<char>>) -> CellValueView {
    match o {
        Some(s) => CellValueView::Text(s),
        None => CellValueView::Null,
    }
}

/// The cell of an optional number.
pub open spec fn int_cell(o: Option<i64>) -> CellValueView {
    match o {
        Some(n) => CellValueView::Integer(n),
        None => CellValueView::Null,
    }
}

/// The value of canonical column `k` of `row`.
pub open spec fn cell_at(row: TrackRow, k: int) -> CellValueView {
    if k == 0 {
        CellValueView::Integer(row.id)
    } else if k == 1 {
        CellValueView::Text(row.core.title@)
    } else if k == 2 {
        text_cell(opt_view(row.core.artist))
    } else if k == 3 {
        text_cell(opt_view(row.core.album))
    } else if k == 4 {
        text_cell(opt_view(row.core.album_artist))
    } else if k == 5 {
        text_cell(opt_view(row.core.recording_date))
    } else if k == 6 {
        text_cell(opt_view(row.core.release_date))
    } else if k == 7 {
        int_cell(row.core.track_number)
    } else if k == 8 {
        int_cell(row.core.disc_number)
    } else if k == 9 {
        text_cell(opt_view(row.core.genre))
    } else if k == 10 {
        text_cell(opt_view(row.core.composer))
    } else if k == 11 {
        text_cell(opt_view(row.core.lyricist))
    } else if k == 12 {
        int_cell(row.lyrics_id)
    } else if k == 13 {
        int_cell(row.front_cover_id)
    } else {
        int_cell(row.file_id)
    }
}

fn text_cell_of(o: &Option<String>) -> (r: CellValue)
    ensures
        r@ == text_cell(opt_view(*o)),
{
    match o {
        Some(s) => CellValue::Text(s.clone()),
        None => CellValue::Null,
    }
}

fn int_cell_of(o: Option<i64>) -> (r: CellValue)
    ensures
        r@ == int_cell(o),
{
    match o {
        Some(n) => CellValue::Integer(n),
        None => CellValue::Null,
    }
}

fn cell_at_exec(row: &TrackRow, k: usize) -> (r: CellValue)
    requires
        k < 15,
    ensures
        r@ == cell_at(*row, k as int),
{
    if k == 0 {
        CellValue::Integer(row.id)
    } else if k == 1 {
        CellValue::Text(row.core.title.clone())
    } else if k == 2 {
        text_cell_of(&row.core.artist)
    } else if k == 3 {
        text_cell_of(&row.core.album)
    } else if k == 4 {
        text_cell_of(&row.core.album_artist)
    } else if k == 5 {
        text_cell_of(&row.core.recording_date)
    } else if k == 6 {
        text_cell_of(&row.core.release_date)
    } else if k == 7 {
        int_cell_of(row.core.track_number)
    } else if k == 8 {
        int_cell_of(row.core.disc_number)
    } else if k == 9 {
        text_cell_of(&row.core.genre)
    } else if k == 10 {
        text_cell_of(&row.core.composer)
    } else if k == 11 {
        text_cell_of(&row.core.lyricist)
    } else if k == 12 {
        int_cell_of(row.lyrics_id)
    } else if k == 13 {
        int_cell_of(row.front_cover_id)
    } else {
        int_cell_of(row.file_id)
    }
}

/// The view of a reflected row.
pub open spec fn cells_view(r: Seq<(String, CellValue)>) -> Seq<(Seq<char>, CellValueView)> {
    r.map_values(|p: (String, CellValue)| (p.0@, p.1@))
}

/// The first `k` canonical columns of `row` that `cols` selects, each with
/// its value, in canonical order.
pub open spec fn reflect_prefix(row: TrackRow, cols: Seq<Seq<char>>, k: int) -> Seq<
    (Seq<char>, CellValueView),
>
    decreases k,
{
    if k <= 0 {
        Seq::empty()
    } else {
        let r = reflect_prefix(row, cols, k - 1);
        let c = spec_canonical_columns()[k - 1];
        if cols.contains(c) {
            r.push((c, cell_at(row, k - 1)))
        } else {
            r
        }
    }
}

/// The selected columns of `row`, in canonical order, each with its value.
pub open spec fn spec_reflect_row(row: TrackRow, cols: Seq<Seq<char>>) -> Seq<
    (Seq<char>, CellValueView),
> {
    reflect_prefix(row, cols, 15)
}

/// Converts rows to lists of (column, value) pairs: for each row, the
/// canonical columns that `cols` selects, in canonical order, each with the
/// row's value for it.
pub fn reflect_rows(rows: &Vec<TrackRow>, cols: &Vec<String>) -> (r: Vec<
    Vec<(String, CellValue)>,
>)
    ensures
        r@.len() == rows@.len(),
        forall|i: int|
            0 <= i < rows@.len() ==> cells_view(#[trigger] r@[i]@) == spec_reflect_row(
                rows@[i],
                views(cols@),
            ),
{
    let canon = canonical_columns();
    assert(canon@.len() == views(canon@).len());
    let mut out: Vec<Vec<(String, CellValue)>> = Vec::new();
    let mut i: usize = 0;
    while i < rows.len()
        invariant
            i <= rows@.len(),
            canon@.len() == 15,
            views(canon@) == spec_canonical_columns(),
            out@.len() == i,
            forall|j: int|
                0 <= j < i ==> cells_view(#[trigger] out@[j]@) == spec_reflect_row(
                    rows@[j],
                    views(cols@),
                ),
        decreases rows.len() - i,
    {
        let row = &rows[i];
        let mut cells: Vec<(String, CellValue)> = Vec::new();
        let mut k: usize = 0;
        while k < 15
            invariant
                k <= 15,
                i < rows@.len(),
                canon@.len() == 15,
                views(canon@) == spec_canonical_columns(),
                *row == rows@[i as int],
                cells_view(cells@) == reflect_prefix(*row, views(cols@), k as int),
            decreases 15 - k,
        {
            assert(views(canon@)[k as int] == canon@[k as int]@);
            if contains_text(cols, canon[k].as_str()) {
                let ghost before = cells_view(cells@);
                let v = cell_at_exec(row, k);
                let ghost pe = (canon@[k as int]@, v@);
                cells.push((canon[k].clone(), v));
                assert(cells_view(cells@) =~= before.push(pe));
            }
            k += 1;
        }
        out.push(cells);
        i += 1;
    }
    out
}

/// The value that a reflected row holds for `col`: that of its last pair
/// with this column, as a map built from the pairs in order keeps.
pub open spec fn row_lookup(row: Seq<(Seq<char>, CellValueView)>, col: Seq<char>) -> Option<
    CellValueView,
>
    decreases row.len(),
{
    if row.len() == 0 {
        None
    } else if row.last().0 == col {
        Some(row.last().1)
    } else {
        row_lookup(row.drop_last(), col)
    }
}

/// The text a table shows for a cell: nothing for a missing value or NULL,
/// the text itself for a text, the decimal digits for a number.
pub open spec fn cell_text(v: Option<CellValueView>) -> Seq<char> {
    match v {
        None => Seq::empty(),
        Some(CellValueView::Null) => Seq::empty(),
        Some(CellValueView::Text(s)) => s,
        Some(CellValueView::Integer(n)) => i64_decimal(n),
    }
}

/// The records of a table: the header, then one record per row with the
/// text of each column.
pub open spec fn table_records(rows: Seq<Seq<(Seq<char>, CellValueView)>>, cols: Seq<Seq<char>>) -> Seq<
    Seq<Seq<char>>,
> {
    seq![cols] + rows.map_values(
        |row: Seq<(Seq<char>, CellValueView)>| cols.map_values(|c: Seq<char>| cell_text(row_lookup(row, c))),
    )
}

/// The text of a table with the records given, drawn in tabled's "modern"
/// style, as the `tabled` crate renders it.
pub uninterp spec fn modern_table(records: Seq<Seq<Seq<char>>>) -> Seq<char>;

/// Calls tabled's `Builder::from` on the records, builds the table, sets
/// `Style::modern()` and renders it. Claimed: the text is a function of the
/// records alone.
#[verifier::external_body]
fn render_modern_table(records: Vec<Vec<String>>) -> (s: String)
    ensures
        s@ == modern_table(records@.map_values(|r: Vec<String>| views(r@))),
{
    let mut table = tabled::builder::Builder::from(records).build();
    table.with(tabled::settings::Style::modern());
    table.to_string()
}

fn lookup_text(row: &Vec<(String, CellValue)>, col: &str) -> (r: String)
    ensures
        r@ == cell_text(row_lookup(cells_view(row@), col@)),
{
    let ghost rv = cells_view(row@);
    let mut found: Option<&CellValue> = None;
    let mut i: usize = 0;
    assert(rv.take(0) =~= Seq::<(Seq<char>, CellValueView)>::empty());
    while i < row.len()
        invariant
            i <= row@.len(),
            rv == cells_view(row@),
            match found {
                Some(v) => row_lookup(rv.take(i as int), col@) == Some(v@),
                None => row_lookup(rv.take(i as int), col@) is None,
            },
        decreases row.len() - i,
    {
        assert(rv.take(i + 1).drop_last() =~= rv.take(i as int));
        assert(rv.take(i + 1).last() == (row@[i as int].0@, row@[i as int].1@));
        if same_text(row[i].0.as_str(), col) {
            found = Some(&row[i].1);
        }
        i += 1;
    }
    assert(rv.take(row@.len() as int) =~= rv);
    match found {
        None => String::new(),
        Some(CellValue::Null) => String::new(),
        Some(CellValue::Text(s)) => s.clone(),
        Some(CellValue::Integer(n)) => i64_to_decimal(*n),
    }
}

/// Builds the text of a table from reflected rows and column names: a
/// header of the column names, then for each row the text of its value for
/// each column.
pub fn build_table(rows: &Vec<Vec<(String, CellValue)>>, cols: &Vec<String>) -> (r: String)
    ensures
        r@ == modern_table(
            table_records(rows@.map_values(|row: Vec<(String, CellValue)>| cells_view(row@)), views(cols@)),
        ),
{
    let ghost rs = rows@.map_values(|row: Vec<(String, CellValue)>| cells_view(row@));
    let mut records: Vec<Vec<String>> = Vec::new();
    records.push(cols.clone());
    let mut i: usize = 0;
    while i < rows.len()
        invariant
            i <= rows@.len(),
            rs == rows@.map_values(|row: Vec<(String, CellValue)>| cells_view(row@)),
            records@.len() == i + 1,
            views(records@[0]@) == views(cols@),
            forall|j: int|
                0 <= j < i ==> views(#[trigger] records@[j + 1]@) == views(cols@).map_values(
                    |c: Seq<char>| cell_text(row_lookup(rs[j], c)),
                ),
        decreases rows.len() - i,
    {
        let mut record: Vec<String> = Vec::new();
        let mut k: usize = 0;
        while k < cols.len()
            invariant
                k <= cols@.len(),
                i < rows@.len(),
                rs == rows@.map_values(|row: Vec<(String, CellValue)>| cells_view(row@)),
                record@.len() == k,
                forall|m: int|
                    0 <= m < k ==> (#[trigger] record@[m])@ == cell_text(
                        row_lookup(rs[i as int], cols@[m]@),
                    ),
            decreases cols.len() - k,
        {
            let t = lookup_text(&rows[i], cols[k].as_str());
            record.push(t);
            k += 1;
        }
        assert(views(record@) =~= views(cols@).map_values(
            |c: Seq<char>| cell_text(row_lookup(rs[i as int], c)),
        ));
        records.push(record);
        i += 1;
    }
    let ghost tr = table_records(rs, views(cols@));
    assert forall|j: int| 0 <= j < records@.len() implies views(#[trigger] records@[j]@) == tr[j] by {
        if j > 0 {
            assert(views(records@[(j - 1) + 1]@) == views(cols@).map_values(
                |c: Seq<char>| cell_text(row_lookup(rs[j - 1], c)),
            ));
        }
    }
    assert(records@.map_values(|r: Vec<String>| views(r@)) =~= tr);
    render_modern_table(records)
}

/// The length and first character of each canonical column's name, which
/// tell the names apart.
proof fn lemma_canonical_columns_distinct()
    ensures
        forall|i: int, j: int|
            0 <= i < 15 && 0 <= j < 15 && i != j ==> #[trigger] spec_canonical_columns()[i]
                != #[trigger] spec_canonical_columns()[j],
{
    reveal_strlit("id");
    reveal_strlit("title");
    reveal_strlit("artist");
    reveal_strlit("album");
    reveal_strlit("album_artist");
    reveal_strlit("recording_date");
    reveal_strlit("release_date");
    reveal_strlit("track_number");
    reveal_strlit("disc_number");
    reveal_strlit("genre");
    reveal_strlit("composer");
    reveal_strlit("lyricist");
    reveal_strlit("lyrics_id");
    reveal_strlit("front_cover_id");
    reveal_strlit("file_id");
    let c = spec_canonical_columns();
    assert forall|i: int, j: int| 0 <= i < 15 && 0 <= j < 15 && i != j implies #[trigger] c[i]
        != #[trigger] c[j] by {
        if c[i].len() == c[j].len() {
            assert(c[i][0] != c[j][0]);
        }
    }
}

proof fn lemma_lookup_absent(row: TrackRow, cols: Seq<Seq<char>>, m: int, name: Seq<char>)
    requires
        0 <= m <= 15,
        forall|i: int| 0 <= i < m ==> spec_canonical_columns()[i] != name,
    ensures
        row_lookup(reflect_prefix(row, cols, m), name) is None,
    decreases m,
{
    if m > 0 {
        lemma_lookup_absent(row, cols, m - 1, name);
        let r = reflect_prefix(row, cols, m - 1);
        let c = spec_canonical_columns()[m - 1];
        if cols.contains(c) {
            assert(r.push((c, cell_at(row, m - 1))).drop_last() =~= r);
        }
    }
}

proof fn lemma_lookup_reflected(row: TrackRow, cols: Seq<Seq<char>>, m: int, j: int)
    requires
        0 <= j < m <= 15,
    ensures
        row_lookup(reflect_prefix(row, cols, m), spec_canonical_columns()[j]) == (if cols.contains(
            spec_canonical_columns()[j],
        ) {
            Some(cell_at(row, j))
        } else {
            None
        }),
    decreases m,
{
    lemma_canonical_columns_distinct();
    let name = spec_canonical_columns()[j];
    let r = reflect_prefix(row, cols, m - 1);
    let c = spec_canonical_columns()[m - 1];
    if m - 1 == j {
        if !cols.contains(c) {
            lemma_lookup_absent(row, cols, m - 1, name);
        }
    } else {
        lemma_lookup_reflected(row, cols, m - 1, j);
        if cols.contains(c) {
            assert(c != name);
            assert(r.push((c, cell_at(row, m - 1))).drop_last() =~= r);
        }
    }
}

/// A listed row shows, under each selected column, the row's own value of
/// the field of that name, and nothing under a column not selected: the
/// id, the title and the other text fields as text (NULL where absent), the
/// numbers and ids as numbers (NULL where absent).
pub proof fn law_reflected_cells_are_own_fields(row: TrackRow, cols: Seq<Seq<char>>)
    ensures
        row_lookup(spec_reflect_row(row, cols), "id"@) == (if cols.contains("id"@) {
            Some(CellValueView::Integer(row.id))
        } else {
            None
        }),
        row_lookup(spec_reflect_row(row, cols), "title"@) == (if cols.contains("title"@) {
            Some(CellValueView::Text(row.core.title@))
        } else {
            None
        }),
        row_lookup(spec_reflect_row(row, cols), "artist"@) == (if cols.contains("artist"@) {
            Some(text_cell(opt_view(row.core.artist)))
        } else {
            None
        }),
        row_lookup(spec_reflect_row(row, cols), "album"@) == (if cols.contains("album"@) {
            Some(text_cell(opt_view(row.core.album)))
        } else {
            None
        }),
        row_lookup(spec_reflect_row(row, cols), "album_artist"@) == (if cols.contains(
            "album_artist"@,
        ) {
            Some(text_cell(opt_view(row.core.album_artist)))
        } else {
            None
        }),
        row_lookup(spec_reflect_row(row, cols), "recording_date"@) == (if cols.contains(
            "recording_date"@,
        ) {
            Some(text_cell(opt_view(row.core.recording_date)))
        } else {
            None
        }),
        row_lookup(spec_reflect_row(row, cols), "release_date"@) == (if cols.contains(
            "release_date"@,
        ) {
            Some(text_cell(opt_view(row.core.release_date)))
        } else {
            None
        }),
        row_lookup(spec_reflect_row(row, cols), "track_number"@) == (if cols.contains(
            "track_number"@,
        ) {
            Some(int_cell(row.core.track_number))
        } else {
            None
        }),
        row_lookup(spec_reflect_row(row, cols), "disc_number"@) == (if cols.contains(
            "disc_number"@,
        ) {
            Some(int_cell(row.core.disc_number))
        } else {
            None
        }),
        row_lookup(spec_reflect_row(row, cols), "genre"@) == (if cols.contains("genre"@) {
            Some(text_cell(opt_view(row.core.genre)))
        } else {
            None
        }),
        row_lookup(spec_reflect_row(row, cols), "composer"@) == (if cols.contains("composer"@) {
            Some(text_cell(opt_view(row.core.composer)))
        } else {
            None
        }),
        row_lookup(spec_reflect_row(row, cols), "lyricist"@) == (if cols.contains("lyricist"@) {
            Some(text_cell(opt_view(row.core.lyricist)))
        } else {
            None
        }),
        row_lookup(spec_reflect_row(row, cols), "lyrics_id"@) == (if cols.contains("lyrics_id"@) {
            Some(int_cell(row.lyrics_id))
        } else {
            None
        }),
        row_lookup(spec_reflect_row(row, cols), "front_cover_id"@) == (if cols.contains(
            "front_cover_id"@,
        ) {
            Some(int_cell(row.front_cover_id))
        } else {
            None
        }),
        row_lookup(spec_reflect_row(row, cols), "file_id"@) == (if cols.contains("file_id"@) {
            Some(int_cell(row.file_id))
        } else {
            None
        }),
{
    let c = spec_canonical_columns();
    lemma_lookup_reflected(row, cols, 15, 0);
    lemma_lookup_reflected(row, cols, 15, 1);
    lemma_lookup_reflected(row, cols, 15, 2);
    lemma_lookup_reflected(row, cols, 15, 3);
    lemma_lookup_reflected(row, cols, 15, 4);
    lemma_lookup_reflected(row, cols, 15, 5);
    lemma_lookup_reflected(row, cols, 15, 6);
    lemma_lookup_reflected(row, cols, 15, 7);
    lemma_lookup_reflected(row, cols, 15, 8);
    lemma_lookup_reflected(row, cols, 15, 9);
    lemma_lookup_reflected(row, cols, 15, 10);
    lemma_lookup_reflected(row, cols, 15, 11);
    lemma_lookup_reflected(row, cols, 15, 12);
    lemma_lookup_reflected(row, cols, 15, 13);
    lemma_lookup_reflected(row, cols, 15, 14);
}

} // verus!
