//! The repository for tracks: the SQL statements run against it and their
//! parameters. Running them is left to the caller.

pub mod table_images;
pub mod table_lyrics;
pub mod table_track_files;
pub mod table_tracks;

use vstd::prelude::*;
use vstd::string::*;

use crate::models::{patches_view, Patch, PatchView, RowFields, TrackFilter};
use crate::text::{join, parse_i64, same_text, seq_join, spec_parse_i64, views};
use crate::models::{int_category_holds, string_category_holds};

verus! {

/// A value bound to a parameter of an SQL statement.
#[derive(Debug, PartialEq, Eq)]
pub enum SqlValue {
    Null,
    Integer(i64),
    Text(String),
    Blob(Vec<u8>),
}

/// The view of an [`SqlValue`].
pub enum SqlValueView {
    Null,
    Integer(i64),
    Text(Seq<char>),
    Blob(Seq<u8>),
}

impl View for SqlValue {
    type V = SqlValueView;

    open spec fn view(&self) -> SqlValueView {
        match self {
            SqlValue::Null => SqlValueView::Null,
            SqlValue::Integer(n) => SqlValueView::Integer(*n),
            SqlValue::Text(s) => SqlValueView::Text(s@),
            SqlValue::Blob(b) => SqlValueView::Blob(b@),
        }
    }
}

/// The views of statement parameters.
pub open spec fn params_view(v: Seq<SqlValue>) -> Seq<SqlValueView> {
    v.map_values(|p: SqlValue| p@)
}

/// An "insert unless present, then look up the id" pair of statements, as
/// run for a row identified by a unique hash.
pub struct InsertOrGet {
    pub insert_sql: String,
    pub insert_params: Vec<SqlValue>,
    pub select_sql: String,
    pub select_params: Vec<SqlValue>,
}

/// The tracks' table.
pub struct TrackRepo;

/// The condition term of column `col`.
pub open spec fn eq_term(col: Seq<char>) -> Seq<char> {
    col + " = ?"@
}

/// The condition of a category with `n` values: `col = ?` for each value,
/// joined by " OR " and put in parentheses, so that the categories joined
/// by " AND " keep apart.
pub open spec fn category_condition(col: Seq<char>, n: nat) -> Seq<char> {
    "("@ + seq_join(Seq::new(n, |i: int| eq_term(col)), " OR "@) + ")"@
}

/// The column that filter category `k` looks at, in the order of
/// [`TrackFilter`]'s fields.
pub open spec fn filter_column(k: int) -> Seq<char> {
    if k == 0 {
        "id"@
    } else if k == 1 {
        "title"@
    } else if k == 2 {
        "artist"@
    } else if k == 3 {
        "album"@
    } else if k == 4 {
        "album_artist"@
    } else if k == 5 {
        "recording_date"@
    } else if k == 6 {
        "release_date"@
    } else if k == 7 {
        "track_number"@
    } else if k == 8 {
        "disc_number"@
    } else if k == 9 {
        "genre"@
    } else if k == 10 {
        "composer"@
    } else {
        "lyricist"@
    }
}

/// The parameter values of an integer category.
pub open spec fn int_values(s: Seq<i64>) -> Seq<SqlValueView> {
    s.map_values(|v: i64| SqlValueView::Integer(v))
}

/// The parameter values of a text category.
pub open spec fn text_values(s: Seq<String>) -> Seq<SqlValueView> {
    s.map_values(|v: String| SqlValueView::Text(v@))
}

/// A group of a WHERE clause: a filter category and its values.
pub open spec fn add_group(
    groups: Seq<(int, Seq<SqlValueView>)>,
    k: int,
    vals: Seq<SqlValueView>,
) -> Seq<(int, Seq<SqlValueView>)> {
    if vals.len() == 0 {
        groups
    } else {
        groups.push((k, vals))
    }
}

/// The groups of the WHERE clause of a filter: one per non-empty category,
/// in the order of the filter's fields.
pub open spec fn where_groups(f: TrackFilter) -> Seq<(int, Seq<SqlValueView>)> {
    let g0 = add_group(Seq::empty(), 0, int_values(f.ids@));
    let g1 = add_group(g0, 1, text_values(f.titles@));
    let g2 = add_group(g1, 2, text_values(f.artists@));
    let g3 = add_group(g2, 3, text_values(f.albums@));
    let g4 = add_group(g3, 4, text_values(f.album_artists@));
    let g5 = add_group(g4, 5, text_values(f.recording_dates@));
    let g6 = add_group(g5, 6, text_values(f.release_dates@));
    let g7 = add_group(g6, 7, int_values(f.track_numbers@));
    let g8 = add_group(g7, 8, int_values(f.disc_numbers@));
    let g9 = add_group(g8, 9, text_values(f.genres@));
    let g10 = add_group(g9, 10, text_values(f.composers@));
    add_group(g10, 11, text_values(f.lyricists@))
}

/// The conditions of groups, in order.
pub open spec fn group_conditions(groups: Seq<(int, Seq<SqlValueView>)>) -> Seq<Seq<char>> {
    groups.map_values(
        |g: (int, Seq<SqlValueView>)| category_condition(filter_column(g.0), g.1.len()),
    )
}

/// The parameters of groups: the values of each group, in order.
pub open spec fn group_params(groups: Seq<(int, Seq<SqlValueView>)>) -> Seq<SqlValueView>
    decreases groups.len(),
{
    if groups.len() == 0 {
        Seq::empty()
    } else {
        group_params(groups.drop_last()) + groups.last().1
    }
}

/// "WHERE " and the conditions joined by " AND ", or nothing for no
/// conditions.
pub open spec fn where_text(conds: Seq<Seq<char>>) -> Seq<char> {
    if conds.len() == 0 {
        Seq::empty()
    } else {
        "WHERE "@ + seq_join(conds, " AND "@)
    }
}

/// An optional text as a parameter value.
pub open spec fn opt_text_value(o: Option<Seq<char>>) -> Option<SqlValueView> {
    match o {
        Some(s) => Some(SqlValueView::Text(s)),
        None => None,
    }
}

/// An optional number as a parameter value.
pub open spec fn opt_int_value(o: Option<i64>) -> Option<SqlValueView> {
    match o {
        Some(n) => Some(SqlValueView::Integer(n)),
        None => None,
    }
}

/// The value of filter category `k` that a row holds.
pub open spec fn row_value(row: RowFields, k: int) -> Option<SqlValueView> {
    if k == 0 {
        opt_int_value(row.id)
    } else if k == 1 {
        opt_text_value(row.title)
    } else if k == 2 {
        opt_text_value(row.artist)
    } else if k == 3 {
        opt_text_value(row.album)
    } else if k == 4 {
        opt_text_value(row.album_artist)
    } else if k == 5 {
        opt_text_value(row.recording_date)
    } else if k == 6 {
        opt_text_value(row.release_date)
    } else if k == 7 {
        opt_int_value(row.track_number)
    } else if k == 8 {
        opt_int_value(row.disc_number)
    } else if k == 9 {
        opt_text_value(row.genre)
    } else if k == 10 {
        opt_text_value(row.composer)
    } else {
        opt_text_value(row.lyricist)
    }
}

/// What SQL makes of a group on a row: `(col = ? OR ...)` holds when the
/// row's value is not NULL and equals one of the group's values.
pub open spec fn group_holds(g: (int, Seq<SqlValueView>), row: RowFields) -> bool {
    match row_value(row, g.0) {
        Some(v) => g.1.contains(v),
        None => false,
    }
}

/// What SQL makes of a WHERE clause of parenthesized groups joined by AND.
pub open spec fn where_holds(groups: Seq<(int, Seq<SqlValueView>)>, row: RowFields) -> bool {
    forall|i: int| 0 <= i < groups.len() ==> #[trigger] group_holds(groups[i], row)
}

proof fn lemma_add_group(g: Seq<(int, Seq<SqlValueView>)>, k: int, vals: Seq<SqlValueView>)
    ensures
        group_conditions(add_group(g, k, vals)) == (if vals.len() == 0 {
            group_conditions(g)
        } else {
            group_conditions(g).push(category_condition(filter_column(k), vals.len()))
        }),
        group_params(add_group(g, k, vals)) == group_params(g) + vals,
{
    if vals.len() == 0 {
        assert(group_params(g) + vals =~= group_params(g));
    } else {
        assert(g.push((k, vals)).drop_last() =~= g);
        assert(group_conditions(g.push((k, vals))) =~= group_conditions(g).push(
            category_condition(filter_column(k), vals.len()),
        ));
    }
}

/// Why a SET clause could not be built.
#[derive(Debug, PartialEq, Eq)]
pub enum SetClauseError {
    /// A value given to an integer column that does not parse as an `i64`.
    NotAnInteger(String),
}

/// Whether `col` holds integers.
pub open spec fn is_int_column(col: Seq<char>) -> bool {
    col == "track_number"@ || col == "disc_number"@
}

/// The conditions and parameters of a SET clause for the patches, in
/// order: `col = ?` with the value for an assigned column (parsed as an
/// `i64` for an integer column), `col = ?` with NULL for a cleared column,
/// nothing for a kept one; or the first value of an integer column that
/// does not parse.
pub open spec fn set_parts(p: Seq<(Seq<char>, PatchView)>) -> Result<
    (Seq<Seq<char>>, Seq<SqlValueView>),
    Seq<char>,
>
    decreases p.len(),
{
    if p.len() == 0 {
        Ok((Seq::empty(), Seq::empty()))
    } else {
        match set_parts(p.drop_last()) {
            Err(e) => Err(e),
            Ok(acc) => {
                let col = p.last().0;
                match p.last().1 {
                    PatchView::Keep => Ok(acc),
                    PatchView::Clear => Ok((acc.0.push(eq_term(col)), acc.1.push(SqlValueView::Null))),
                    PatchView::Assign(v) => if is_int_column(col) {
                        match spec_parse_i64(v) {
                            Some(n) => Ok(
                                (acc.0.push(eq_term(col)), acc.1.push(SqlValueView::Integer(n))),
                            ),
                            None => Err(v),
                        }
                    } else {
                        Ok((acc.0.push(eq_term(col)), acc.1.push(SqlValueView::Text(v))))
                    },
                }
            },
        }
    }
}

/// "SET " and the conditions joined by ", ", or nothing for no conditions.
pub open spec fn set_text(conds: Seq<Seq<char>>) -> Seq<char> {
    if conds.len() == 0 {
        Seq::empty()
    } else {
        "SET "@ + seq_join(conds, ", "@)
    }
}

proof fn lemma_set_parts_err_persists(p: Seq<(Seq<char>, PatchView)>, k: int)
    requires
        0 <= k <= p.len(),
        set_parts(p.take(k)) is Err,
    ensures
        set_parts(p) == set_parts(p.take(k)),
    decreases p.len() - k,
{
    if k == p.len() {
        assert(p.take(k) =~= p);
    } else {
        assert(p.take(k + 1).drop_last() =~= p.take(k));
        lemma_set_parts_err_persists(p, k + 1);
    }
}

proof fn lemma_where_holds_add_group(
    g: Seq<(int, Seq<SqlValueView>)>,
    k: int,
    vals: Seq<SqlValueView>,
    row: RowFields,
)
    ensures
        where_holds(add_group(g, k, vals), row) == (where_holds(g, row) && (vals.len() == 0
            || group_holds((k, vals), row))),
{
    if vals.len() > 0 {
        let h = g.push((k, vals));
        if where_holds(h, row) {
            assert(h[g.len() as int] == (k, vals));
            assert forall|i: int| 0 <= i < g.len() implies #[trigger] group_holds(g[i], row) by {
                assert(h[i] == g[i]);
            }
        }
        if where_holds(g, row) && group_holds((k, vals), row) {
            assert forall|i: int| 0 <= i < h.len() implies #[trigger] group_holds(h[i], row) by {
                if i < g.len() {
                    assert(h[i] == g[i]);
                }
            }
        }
    }
}

proof fn lemma_int_category(cat: Seq<i64>, v: Option<i64>)
    ensures
        (int_values(cat).len() == 0 || match opt_int_value(v) {
            Some(x) => int_values(cat).contains(x),
            None => false,
        }) == crate::models::int_category_holds(cat, v),
{
    if let Some(n) = v {
        if cat.contains(n) {
            let i = choose|i: int| 0 <= i < cat.len() && cat[i] == n;
            assert(int_values(cat)[i] == SqlValueView::Integer(n));
        }
        if int_values(cat).contains(SqlValueView::Integer(n)) {
            let i = choose|i: int|
                0 <= i < int_values(cat).len() && int_values(cat)[i] == SqlValueView::Integer(n);
            assert(cat[i] == n);
        }
    }
}

proof fn lemma_text_category(cat: Seq<String>, v: Option<Seq<char>>)
    ensures
        (text_values(cat).len() == 0 || match opt_text_value(v) {
            Some(x) => text_values(cat).contains(x),
            None => false,
        }) == crate::models::string_category_holds(cat, v),
{
    if let Some(t) = v {
        if views(cat).contains(t) {
            let i = choose|i: int| 0 <= i < views(cat).len() && views(cat)[i] == t;
            assert(text_values(cat)[i] == SqlValueView::Text(t));
        }
        if text_values(cat).contains(SqlValueView::Text(t)) {
            let i = choose|i: int|
                0 <= i < text_values(cat).len() && text_values(cat)[i] == SqlValueView::Text(t);
            assert(views(cat)[i] == t);
        }
    }
}

/// The WHERE clause of a filter selects exactly the rows that pass the
/// filter: different categories combine by AND, the values of one
/// category by OR, and a NULL value passes no non-empty category.
pub proof fn law_where_clause_selects_accepted(f: TrackFilter, row: RowFields)
    ensures
        where_holds(where_groups(f), row) == f.accepts(row),
{
    let e: Seq<(int, Seq<SqlValueView>)> = Seq::empty();
    assert(where_holds(e, row));
    let g0 = add_group(e, 0, int_values(f.ids@));
    let g1 = add_group(g0, 1, text_values(f.titles@));
    let g2 = add_group(g1, 2, text_values(f.artists@));
    let g3 = add_group(g2, 3, text_values(f.albums@));
    let g4 = add_group(g3, 4, text_values(f.album_artists@));
    let g5 = add_group(g4, 5, text_values(f.recording_dates@));
    let g6 = add_group(g5, 6, text_values(f.release_dates@));
    let g7 = add_group(g6, 7, int_values(f.track_numbers@));
    let g8 = add_group(g7, 8, int_values(f.disc_numbers@));
    let g9 = add_group(g8, 9, text_values(f.genres@));
    let g10 = add_group(g9, 10, text_values(f.composers@));
    lemma_where_holds_add_group(e, 0, int_values(f.ids@), row);
    lemma_where_holds_add_group(g0, 1, text_values(f.titles@), row);
    lemma_where_holds_add_group(g1, 2, text_values(f.artists@), row);
    lemma_where_holds_add_group(g2, 3, text_values(f.albums@), row);
    lemma_where_holds_add_group(g3, 4, text_values(f.album_artists@), row);
    lemma_where_holds_add_group(g4, 5, text_values(f.recording_dates@), row);
    lemma_where_holds_add_group(g5, 6, text_values(f.release_dates@), row);
    lemma_where_holds_add_group(g6, 7, int_values(f.track_numbers@), row);
    lemma_where_holds_add_group(g7, 8, int_values(f.disc_numbers@), row);
    lemma_where_holds_add_group(g8, 9, text_values(f.genres@), row);
    lemma_where_holds_add_group(g9, 10, text_values(f.composers@), row);
    lemma_where_holds_add_group(g10, 11, text_values(f.lyricists@), row);
    lemma_int_category(f.ids@, row.id);
    lemma_text_category(f.titles@, row.title);
    lemma_text_category(f.artists@, row.artist);
    lemma_text_category(f.albums@, row.album);
    lemma_text_category(f.album_artists@, row.album_artist);
    lemma_text_category(f.recording_dates@, row.recording_date);
    lemma_text_category(f.release_dates@, row.release_date);
    lemma_int_category(f.track_numbers@, row.track_number);
    lemma_int_category(f.disc_numbers@, row.disc_number);
    lemma_text_category(f.genres@, row.genre);
    lemma_text_category(f.composers@, row.composer);
    lemma_text_category(f.lyricists@, row.lyricist);
}

/// An empty filter has no WHERE clause and no parameters, and passes every
/// row: a listing without filter options shows every track.
pub proof fn law_empty_filter_selects_all(f: TrackFilter, row: RowFields)
    requires
        f.spec_is_empty(),
    ensures
        where_groups(f).len() == 0,
        where_text(group_conditions(where_groups(f))) == Seq::<char>::empty(),
        group_params(where_groups(f)) == Seq::<SqlValueView>::empty(),
        f.accepts(row),
{
    assert(where_groups(f) =~= Seq::<(int, Seq<SqlValueView>)>::empty());
}

impl TrackRepo {
    /// Adds the condition `col = ?` and its parameter `value`.
    fn add_single_value(
        conditions: &mut Vec<String>,
        params: &mut Vec<SqlValue>,
        col: &str,
        value: SqlValue,
    )
        ensures
            views(final(conditions)@) == views(old(conditions)@).push(eq_term(col@)),
            params_view(final(params)@) == params_view(old(params)@).push(value@),
    {
        let mut c = String::from_str(col);
        c.append(" = ?");
        let ghost before = views(conditions@);
        let ghost pbefore = params_view(params@);
        let ghost vv = value@;
        conditions.push(c);
        params.push(value);
        assert(views(conditions@) =~= before.push(eq_term(col@)));
        assert(params_view(params@) =~= pbefore.push(vv));
    }

    /// Adds the condition of a text category, unless it is empty, and its
    /// parameters.
    fn add_string_filter(
        conditions: &mut Vec<String>,
        params: &mut Vec<SqlValue>,
        col: &str,
        values: &Vec<String>,
    )
        ensures
            views(final(conditions)@) == (if values@.len() == 0 {
                views(old(conditions)@)
            } else {
                views(old(conditions)@).push(category_condition(col@, values@.len()))
            }),
            params_view(final(params)@) == params_view(old(params)@) + text_values(values@),
    {
        let ghost p0 = params_view(params@);
        if values.is_empty() {
            assert(p0 + text_values(values@) =~= p0);
            return;
        }
        let mut parts: Vec<String> = Vec::new();
        let mut i: usize = 0;
        assert(views(parts@) =~= Seq::new(0, |j: int| eq_term(col@)));
        assert(p0 + text_values(values@.take(0)) =~= p0);
        while i < values.len()
            invariant
                i <= values@.len(),
                views(parts@) == Seq::new(i as nat, |j: int| eq_term(col@)),
                params_view(params@) == p0 + text_values(values@.take(i as int)),
            decreases values.len() - i,
        {
            Self::add_single_value(&mut parts, params, col, SqlValue::Text(values[i].clone()));
            assert(views(parts@) =~= Seq::new((i + 1) as nat, |j: int| eq_term(col@)));
            assert(text_values(values@.take(i + 1)) =~= text_values(values@.take(i as int)).push(
                SqlValueView::Text(values@[i as int]@),
            ));
            i += 1;
        }
        assert(values@.take(values@.len() as int) =~= values@);
        let ghost before = views(conditions@);
        let joined = join(&parts, " OR ");
        let mut cond = String::from_str("(");
        cond.append(joined.as_str());
        cond.append(")");
        conditions.push(cond);
        assert(views(conditions@) =~= before.push(category_condition(col@, values@.len())));
    }

    /// Adds the condition of an integer category, unless it is empty, and
    /// its parameters.
    fn add_i64_filter(
        conditions: &mut Vec<String>,
        params: &mut Vec<SqlValue>,
        col: &str,
        values: &Vec<i64>,
    )
        ensures
            views(final(conditions)@) == (if values@.len() == 0 {
                views(old(conditions)@)
            } else {
                views(old(conditions)@).push(category_condition(col@, values@.len()))
            }),
            params_view(final(params)@) == params_view(old(params)@) + int_values(values@),
    {
        let ghost p0 = params_view(params@);
        if values.is_empty() {
            assert(p0 + int_values(values@) =~= p0);
            return;
        }
        let mut parts: Vec<String> = Vec::new();
        let mut i: usize = 0;
        assert(views(parts@) =~= Seq::new(0, |j: int| eq_term(col@)));
        assert(p0 + int_values(values@.take(0)) =~= p0);
        while i < values.len()
            invariant
                i <= values@.len(),
                views(parts@) == Seq::new(i as nat, |j: int| eq_term(col@)),
                params_view(params@) == p0 + int_values(values@.take(i as int)),
            decreases values.len() - i,
        {
            Self::add_single_value(&mut parts, params, col, SqlValue::Integer(values[i]));
            assert(views(parts@) =~= Seq::new((i + 1) as nat, |j: int| eq_term(col@)));
            assert(int_values(values@.take(i + 1)) =~= int_values(values@.take(i as int)).push(
                SqlValueView::Integer(values@[i as int]),
            ));
            i += 1;
        }
        assert(values@.take(values@.len() as int) =~= values@);
        let ghost before = views(conditions@);
        let joined = join(&parts, " OR ");
        let mut cond = String::from_str("(");
        cond.append(joined.as_str());
        cond.append(")");
        conditions.push(cond);
        assert(views(conditions@) =~= before.push(category_condition(col@, values@.len())));
    }

    fn step_int(
        conditions: &mut Vec<String>,
        params: &mut Vec<SqlValue>,
        col: &str,
        values: &Vec<i64>,
        Ghost(g): Ghost<Seq<(int, Seq<SqlValueView>)>>,
        Ghost(k): Ghost<int>,
    )
        requires
            col@ == filter_column(k),
            views(old(conditions)@) == group_conditions(g),
            params_view(old(params)@) == group_params(g),
        ensures
            views(final(conditions)@) == group_conditions(add_group(g, k, int_values(values@))),
            params_view(final(params)@) == group_params(add_group(g, k, int_values(values@))),
    {
        Self::add_i64_filter(conditions, params, col, values);
        proof {
            lemma_add_group(g, k, int_values(values@));
        }
    }

    fn step_text(
        conditions: &mut Vec<String>,
        params: &mut Vec<SqlValue>,
        col: &str,
        values: &Vec<String>,
        Ghost(g): Ghost<Seq<(int, Seq<SqlValueView>)>>,
        Ghost(k): Ghost<int>,
    )
        requires
            col@ == filter_column(k),
            views(old(conditions)@) == group_conditions(g),
            params_view(old(params)@) == group_params(g),
        ensures
            views(final(conditions)@) == group_conditions(add_group(g, k, text_values(values@))),
            params_view(final(params)@) == group_params(add_group(g, k, text_values(values@))),
    {
        Self::add_string_filter(conditions, params, col, values);
        proof {
            lemma_add_group(g, k, text_values(values@));
        }
    }

    /// Builds the WHERE clause of a filter, like `WHERE (artist = ?) AND
    /// (track_number = ? OR track_number = ?)`, along with its parameters:
    /// one condition per non-empty category, in the order of the filter's
    /// fields; the categories hold together, any value of a category will
    /// do. Empty text and no parameters for an empty filter.
    pub fn build_where_clause(filter: &TrackFilter) -> (r: (String, Vec<SqlValue>))
        ensures
            r.0@ == where_text(group_conditions(where_groups(*filter))),
            params_view(r.1@) == group_params(where_groups(*filter)),
    {
        let mut conditions: Vec<String> = Vec::new();
        let mut params: Vec<SqlValue> = Vec::new();
        let ghost f = *filter;
        let ghost e: Seq<(int, Seq<SqlValueView>)> = Seq::empty();
        assert(views(conditions@) =~= group_conditions(e));
        assert(params_view(params@) =~= group_params(e));

        Self::step_int(&mut conditions, &mut params, "id", &filter.ids, Ghost(e), Ghost(0));
        let ghost g0 = add_group(e, 0, int_values(f.ids@));
        Self::step_text(&mut conditions, &mut params, "title", &filter.titles, Ghost(g0), Ghost(1));
        let ghost g1 = add_group(g0, 1, text_values(f.titles@));
        Self::step_text(&mut conditions, &mut params, "artist", &filter.artists, Ghost(g1), Ghost(2));
        let ghost g2 = add_group(g1, 2, text_values(f.artists@));
        Self::step_text(&mut conditions, &mut params, "album", &filter.albums, Ghost(g2), Ghost(3));
        let ghost g3 = add_group(g2, 3, text_values(f.albums@));
        Self::step_text(&mut conditions, &mut params, "album_artist", &filter.album_artists, Ghost(g3), Ghost(4));
        let ghost g4 = add_group(g3, 4, text_values(f.album_artists@));
        Self::step_text(&mut conditions, &mut params, "recording_date", &filter.recording_dates, Ghost(g4), Ghost(5));
        let ghost g5 = add_group(g4, 5, text_values(f.recording_dates@));
        Self::step_text(&mut conditions, &mut params, "release_date", &filter.release_dates, Ghost(g5), Ghost(6));
        let ghost g6 = add_group(g5, 6, text_values(f.release_dates@));
        Self::step_int(&mut conditions, &mut params, "track_number", &filter.track_numbers, Ghost(g6), Ghost(7));
        let ghost g7 = add_group(g6, 7, int_values(f.track_numbers@));
        Self::step_int(&mut conditions, &mut params, "disc_number", &filter.disc_numbers, Ghost(g7), Ghost(8));
        let ghost g8 = add_group(g7, 8, int_values(f.disc_numbers@));
        Self::step_text(&mut conditions, &mut params, "genre", &filter.genres, Ghost(g8), Ghost(9));
        let ghost g9 = add_group(g8, 9, text_values(f.genres@));
        Self::step_text(&mut conditions, &mut params, "composer", &filter.composers, Ghost(g9), Ghost(10));
        let ghost g10 = add_group(g9, 10, text_values(f.composers@));
        Self::step_text(&mut conditions, &mut params, "lyricist", &filter.lyricists, Ghost(g10), Ghost(11));
        let ghost g11 = add_group(g10, 11, text_values(f.lyricists@));
        assert(g11 == where_groups(f));

        let where_clause = if conditions.is_empty() {
            String::new()
        } else {
            let mut w = String::from_str("WHERE ");
            let joined = join(&conditions, " AND ");
            w.append(joined.as_str());
            w
        };
        (where_clause, params)
    }

    /// Builds the SET clause of the patches, like `SET artist = ?,
    /// track_number = ?`, along with its parameters; empty text and no
    /// parameters where every column is kept.
    ///
    /// Fails with the value if a value of `track_number` or `disc_number`
    /// does not parse as an `i64`.
    pub fn build_set_clause(cols_patched: &Vec<(String, Patch)>) -> (r: Result<
        (String, Vec<SqlValue>),
        SetClauseError,
    >)
        ensures
            match r {
                Ok(x) => set_parts(patches_view(cols_patched@)) is Ok && x.0@ == set_text(
                    set_parts(patches_view(cols_patched@))->Ok_0.0,
                ) && params_view(x.1@) == set_parts(patches_view(cols_patched@))->Ok_0.1,
                Err(SetClauseError::NotAnInteger(v)) => set_parts(patches_view(cols_patched@))
                    == Err::<(Seq<Seq<char>>, Seq<SqlValueView>), Seq<char>>(v@),
            },
    {
        let ghost pv = patches_view(cols_patched@);
        let mut conditions: Vec<String> = Vec::new();
        let mut params: Vec<SqlValue> = Vec::new();
        let mut i: usize = 0;
        assert(pv.take(0) =~= Seq::<(Seq<char>, PatchView)>::empty());
        assert(views(conditions@) =~= Seq::<Seq<char>>::empty());
        assert(params_view(params@) =~= Seq::<SqlValueView>::empty());
        while i < cols_patched.len()
            invariant
                i <= cols_patched@.len(),
                pv == patches_view(cols_patched@),
                set_parts(pv.take(i as int)) == Ok::<_, Seq<char>>(
                    (views(conditions@), params_view(params@)),
                ),
            decreases cols_patched.len() - i,
        {
            assert(pv.take(i + 1).drop_last() =~= pv.take(i as int));
            assert(pv.take(i + 1).last() == (cols_patched@[i as int].0@, cols_patched@[i as int].1@));
            let col = &cols_patched[i].0;
            match &cols_patched[i].1 {
                Patch::Keep => {},
                Patch::Clear => {
                    Self::add_single_value(&mut conditions, &mut params, col.as_str(), SqlValue::Null);
                },
                Patch::Assign(val) => {
                    let is_int = same_text(col.as_str(), "track_number") || same_text(
                        col.as_str(),
                        "disc_number",
                    );
                    if is_int {
                        match parse_i64(val.as_str()) {
                            Some(n) => {
                                Self::add_single_value(
                                    &mut conditions,
                                    &mut params,
                                    col.as_str(),
                                    SqlValue::Integer(n),
                                );
                            },
                            None => {
                                proof {
                                    lemma_set_parts_err_persists(pv, i + 1);
                                }
                                return Err(SetClauseError::NotAnInteger(val.clone()));
                            },
                        }
                    } else {
                        Self::add_single_value(
                            &mut conditions,
                            &mut params,
                            col.as_str(),
                            SqlValue::Text(val.clone()),
                        );
                    }
                },
            }
            i += 1;
        }
        assert(pv.take(cols_patched@.len() as int) =~= pv);
        let set_clause = if conditions.is_empty() {
            String::new()
        } else {
            let mut w = String::from_str("SET ");
            let joined = join(&conditions, ", ");
            w.append(joined.as_str());
            w
        };
        Ok((set_clause, params))
    }

    /// Whether `table_name` names a table of the track repository.
    pub fn check_table_name(table_name: &str) -> (r: bool)
        ensures
            r == (table_name@ == "tracks"@ || table_name@ == "lyrics"@ || table_name@ == "images"@
                || table_name@ == "track_files"@),
    {
        same_text(table_name, "tracks") || same_text(table_name, "lyrics") || same_text(
            table_name,
            "images",
        ) || same_text(table_name, "track_files")
    }
}

} // verus!
