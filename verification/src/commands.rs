//! The decisions of the subcommands: which columns a listing shows, and
//! which columns an update changes and how.

pub mod check;
pub mod display;
pub mod edit;
pub mod init;

use vstd::prelude::*;
use vstd::string::*;

use crate::cli::{Cli, Commands, FilterArgs};
use crate::common::{canonical_columns, spec_canonical_columns};
use crate::models::{patches_view, Patch, PatchView, TrackFilter};
use crate::text::{
    contains_text, dedup_seq, dedup_texts, lemma_dedup_empty, same_text, split_once, split_once_at,
    views,
};

verus! {

/// The first of `names` that is not one of `valid`, if any.
pub open spec fn first_not_in(names: Seq<Seq<char>>, valid: Seq<Seq<char>>) -> Option<Seq<char>>
    decreases names.len(),
{
    if names.len() == 0 {
        None
    } else {
        match first_not_in(names.drop_last(), valid) {
            Some(n) => Some(n),
            None => if valid.contains(names.last()) {
                None
            } else {
                Some(names.last())
            },
        }
    }
}

proof fn lemma_first_not_in_persists(s: Seq<Seq<char>>, valid: Seq<Seq<char>>, k: int)
    requires
        0 <= k <= s.len(),
        first_not_in(s.take(k), valid) is Some,
    ensures
        first_not_in(s, valid) == first_not_in(s.take(k), valid),
    decreases s.len() - k,
{
    if k == s.len() {
        assert(s.take(k) =~= s);
    } else {
        assert(s.take(k + 1).drop_last() =~= s.take(k));
        lemma_first_not_in_persists(s, valid, k + 1);
    }
}

/// Do name validation checks for columns: fails with the first given column
/// that is not a valid one.
pub fn validate_columns(cols_given: &Vec<String>, cols_valid: &Vec<String>) -> (r: Result<(), String>)
    ensures
        match r {
            Ok(()) => first_not_in(views(cols_given@), views(cols_valid@)) is None,
            Err(c) => first_not_in(views(cols_given@), views(cols_valid@)) == Some(c@),
        },
{
    let ghost gs = views(cols_given@);
    let ghost vs = views(cols_valid@);
    let mut i: usize = 0;
    assert(gs.take(0) =~= Seq::<Seq<char>>::empty());
    while i < cols_given.len()
        invariant
            i <= cols_given@.len(),
            gs == views(cols_given@),
            vs == views(cols_valid@),
            first_not_in(gs.take(i as int), vs) is None,
        decreases cols_given.len() - i,
    {
        assert(gs.take(i + 1).drop_last() =~= gs.take(i as int));
        assert(gs.take(i + 1).last() == cols_given@[i as int]@);
        if !contains_text(cols_valid, cols_given[i].as_str()) {
            proof {
                lemma_first_not_in_persists(gs, vs, i + 1);
            }
            return Err(cols_given[i].clone());
        }
        i += 1;
    }
    assert(gs.take(cols_given@.len() as int) =~= gs);
    Ok(())
}

/// Deduplicates parsed columns, keeping each where it first occurs.
pub fn dedup_columns(cols: &mut Vec<String>)
    ensures
        views(final(cols)@) == dedup_seq(views(old(cols)@)),
{
    let d = dedup_texts(cols);
    *cols = d;
}

/// The columns a listing shows by default.
pub open spec fn default_list_columns() -> Seq<Seq<char>> {
    seq!["id"@, "title"@, "artist"@, "album"@]
}

/// The columns a listing shows: the given ones, checked against the
/// canonical columns and each kept once, or, if none is given, the default
/// ones. Fails with the first given column that is not canonical.
pub fn list_columns(cols: Vec<String>) -> (r: Result<Vec<String>, String>)
    ensures
        match r {
            Ok(v) => first_not_in(views(cols@), spec_canonical_columns()) is None && views(v@) == (
            if dedup_seq(views(cols@)).len() == 0 {
                default_list_columns()
            } else {
                dedup_seq(views(cols@))
            }),
            Err(c) => first_not_in(views(cols@), spec_canonical_columns()) == Some(c@),
        },
{
    let canon = canonical_columns();
    if let Err(c) = validate_columns(&cols, &canon) {
        return Err(c);
    }
    let mut cols = cols;
    dedup_columns(&mut cols);
    if cols.is_empty() {
        let v = vec![
            String::from_str("id"),
            String::from_str("title"),
            String::from_str("artist"),
            String::from_str("album"),
        ];
        assert(views(v@) =~= default_list_columns());
        return Ok(v);
    }
    Ok(cols)
}

/// What a command line asks for, ready to be carried out.
pub enum Action {
    Init { forced: bool },
    List { in_json: bool, filter: TrackFilter, columns: Vec<String> },
    Add { paths: Vec<String>, recursive: bool },
    /// Remove the tracks passing a filter that holds values.
    Remove { filter: TrackFilter, detailed: bool },
    /// A removal without filter options: no track is removed.
    RemoveNone { detailed: bool },
    /// Update the tracks passing a filter that holds values.
    Update { filter: TrackFilter, columns_patched: Vec<(String, Patch)>, detailed: bool },
    /// An update without filter options: no track is updated.
    UpdateNone { detailed: bool },
}

/// A filter made of filter options is empty exactly when no option is
/// given.
proof fn lemma_made_from_empty(f: TrackFilter, args: FilterArgs)
    requires
        f.made_from(args),
    ensures
        f.spec_is_empty() <==> args.spec_no_options(),
{
    lemma_dedup_empty(args.ids@);
    lemma_dedup_empty(views(args.titles@));
    lemma_dedup_empty(views(args.artists@));
    lemma_dedup_empty(views(args.albums@));
    lemma_dedup_empty(views(args.album_artists@));
    lemma_dedup_empty(views(args.recording_dates@));
    lemma_dedup_empty(views(args.release_dates@));
    lemma_dedup_empty(args.track_numbers@);
    lemma_dedup_empty(args.disc_numbers@);
    lemma_dedup_empty(views(args.genres@));
    lemma_dedup_empty(views(args.composers@));
    lemma_dedup_empty(views(args.lyricists@));
}

/// Dispatches a parsed command line to the action of its subcommand: the
/// filter options become a filter, and the options of an update become the
/// patch of each column, as [`parse_update_kvs`] makes them. A removal or
/// an update without filter options changes no track.
pub fn run(cli: Cli) -> (r: Result<Action, UpdateArgError>)
    ensures
        match cli.cmd {
            Commands::Init { force } => r matches Ok(Action::Init { forced }) && forced == force,
            Commands::List { json, filter_args, columns } => r matches Ok(
                Action::List { in_json, filter, columns: c },
            ) && in_json == json && filter.made_from(*filter_args) && filter.spec_values_distinct() && c == columns,
            Commands::Add { paths, recursive } => r matches Ok(Action::Add { paths: p, recursive: rec })
                && p == paths && rec == recursive,
            Commands::Remove { filter_args, detailed } => if filter_args.spec_no_options() {
                r matches Ok(Action::RemoveNone { detailed: d }) && d == detailed
            } else {
                r matches Ok(Action::Remove { filter, detailed: d }) && filter.made_from(*filter_args) && filter.spec_values_distinct()
                    && !filter.spec_is_empty() && d == detailed
            },
            Commands::Update { detailed, filter_args, kvs_to_set, columns_to_clear } => match r {
                Ok(Action::Update { filter, columns_patched, detailed: d }) => !filter_args.spec_no_options()
                    && filter.made_from(*filter_args) && filter.spec_values_distinct() && !filter.spec_is_empty() && d == detailed
                    && spec_parse_update_kvs(views(kvs_to_set@), views(columns_to_clear@))
                    == Ok::<_, UpdateArgErrorView>(patches_view(columns_patched@)),
                Ok(Action::UpdateNone { detailed: d }) => filter_args.spec_no_options() && d == detailed
                    && spec_parse_update_kvs(views(kvs_to_set@), views(columns_to_clear@)) is Ok,
                Ok(_) => false,
                Err(e) => spec_parse_update_kvs(views(kvs_to_set@), views(columns_to_clear@))
                    == Err::<Seq<(Seq<char>, PatchView)>, _>(e@),
            },
        },
{
    match cli.cmd {
        Commands::Init { force } => Ok(Action::Init { forced: force }),
        Commands::List { json, filter_args, columns } => Ok(
            Action::List { in_json: json, filter: TrackFilter::from_args(&filter_args), columns },
        ),
        Commands::Add { paths, recursive } => Ok(Action::Add { paths, recursive }),
        Commands::Remove { filter_args, detailed } => {
            let filter = TrackFilter::from_args(&filter_args);
            proof {
                lemma_made_from_empty(filter, *filter_args);
            }
            if filter.is_empty() {
                Ok(Action::RemoveNone { detailed })
            } else {
                Ok(Action::Remove { filter, detailed })
            }
        },
        Commands::Update { detailed, filter_args, kvs_to_set, columns_to_clear } => {
            let columns_patched = match parse_update_kvs(kvs_to_set, columns_to_clear) {
                Ok(p) => p,
                Err(e) => return Err(e),
            };
            let filter = TrackFilter::from_args(&filter_args);
            proof {
                lemma_made_from_empty(filter, *filter_args);
            }
            if filter.is_empty() {
                Ok(Action::UpdateNone { detailed })
            } else {
                Ok(Action::Update { filter, columns_patched, detailed })
            }
        },
    }
}

/// Why the arguments of an update were refused.
#[derive(Debug, PartialEq, Eq)]
pub enum UpdateArgError {
    /// A `--set` value that does not match the pattern "key=value".
    BadPattern(String),
    /// A column name that is not a field that an update can change.
    InvalidColumn(String),
    /// A column both set and cleared.
    SetAndCleared(String),
    /// A column that cannot be cleared.
    NotClearable(String),
}

/// The view of an [`UpdateArgError`].
pub enum UpdateArgErrorView {
    BadPattern(Seq<char>),
    InvalidColumn(Seq<char>),
    SetAndCleared(Seq<char>),
    NotClearable(Seq<char>),
}

impl View for UpdateArgError {
    type V = UpdateArgErrorView;

    open spec fn view(&self) -> UpdateArgErrorView {
        match self {
            UpdateArgError::BadPattern(s) => UpdateArgErrorView::BadPattern(s@),
            UpdateArgError::InvalidColumn(s) => UpdateArgErrorView::InvalidColumn(s@),
            UpdateArgError::SetAndCleared(s) => UpdateArgErrorView::SetAndCleared(s@),
            UpdateArgError::NotClearable(s) => UpdateArgErrorView::NotClearable(s@),
        }
    }
}

/// The columns that an update can change, in order, each with whether it
/// can be cleared.
pub open spec fn update_columns() -> Seq<(Seq<char>, bool)> {
    seq![
        ("title"@, false),
        ("artist"@, true),
        ("album"@, true),
        ("album_artist"@, true),
        ("recording_date"@, true),
        ("release_date"@, true),
        ("track_number"@, true),
        ("disc_number"@, true),
        ("genre"@, true),
        ("composer"@, true),
        ("lyricist"@, true),
        ("lyrics"@, true),
        ("front_cover"@, true),
        ("track_file"@, false),
    ]
}

fn update_columns_exec() -> (r: Vec<(String, bool)>)
    ensures
        r@.map_values(|p: (String, bool)| (p.0@, p.1)) == update_columns(),
{
    let v: Vec<(String, bool)> = vec![
        (String::from_str("title"), false),
        (String::from_str("artist"), true),
        (String::from_str("album"), true),
        (String::from_str("album_artist"), true),
        (String::from_str("recording_date"), true),
        (String::from_str("release_date"), true),
        (String::from_str("track_number"), true),
        (String::from_str("disc_number"), true),
        (String::from_str("genre"), true),
        (String::from_str("composer"), true),
        (String::from_str("lyricist"), true),
        (String::from_str("lyrics"), true),
        (String::from_str("front_cover"), true),
        (String::from_str("track_file"), false),
    ];
    assert(v@.map_values(|p: (String, bool)| (p.0@, p.1)) =~= update_columns());
    v
}

/// Whether `name` is a column that an update can change.
pub open spec fn is_update_column(name: Seq<char>) -> bool {
    exists|i: int| 0 <= i < update_columns().len() && #[trigger] update_columns()[i].0 == name
}

/// The `--set` arguments split into (key, value) pairs, or the first one
/// that does not match "key=value".
pub open spec fn set_pairs(kvs: Seq<Seq<char>>) -> Result<
    Seq<(Seq<char>, Seq<char>)>,
    UpdateArgErrorView,
>
    decreases kvs.len(),
{
    if kvs.len() == 0 {
        Ok(Seq::empty())
    } else {
        match set_pairs(kvs.drop_last()) {
            Err(e) => Err(e),
            Ok(ps) => match split_once(kvs.last(), '=') {
                None => Err(UpdateArgErrorView::BadPattern(kvs.last())),
                Some(p) => Ok(ps.push(p)),
            },
        }
    }
}

/// The first name that is not an update column, if any.
pub open spec fn first_invalid_column(names: Seq<Seq<char>>) -> Option<Seq<char>>
    decreases names.len(),
{
    if names.len() == 0 {
        None
    } else {
        match first_invalid_column(names.drop_last()) {
            Some(n) => Some(n),
            None => if is_update_column(names.last()) {
                None
            } else {
                Some(names.last())
            },
        }
    }
}

/// The value that the pairs give `col`: that of its last pair, as a map
/// built from the pairs in order keeps.
pub open spec fn value_for(pairs: Seq<(Seq<char>, Seq<char>)>, col: Seq<char>) -> Option<
    Seq<char>,
>
    decreases pairs.len(),
{
    if pairs.len() == 0 {
        None
    } else if pairs.last().0 == col {
        Some(pairs.last().1)
    } else {
        value_for(pairs.drop_last(), col)
    }
}

/// What happens to one column.
pub open spec fn column_patch(
    col: Seq<char>,
    allow_clear: bool,
    pairs: Seq<(Seq<char>, Seq<char>)>,
    clears: Seq<Seq<char>>,
) -> Result<PatchView, UpdateArgErrorView> {
    let to_clear = clears.contains(col);
    match value_for(pairs, col) {
        Some(v) => if to_clear {
            Err(UpdateArgErrorView::SetAndCleared(col))
        } else {
            Ok(PatchView::Assign(v))
        },
        None => if !to_clear {
            Ok(PatchView::Keep)
        } else if allow_clear {
            Ok(PatchView::Clear)
        } else {
            Err(UpdateArgErrorView::NotClearable(col))
        },
    }
}

/// The patch of each column in `cols`, in order, or the first column's error.
pub open spec fn column_patches(
    cols: Seq<(Seq<char>, bool)>,
    pairs: Seq<(Seq<char>, Seq<char>)>,
    clears: Seq<Seq<char>>,
) -> Result<Seq<(Seq<char>, PatchView)>, UpdateArgErrorView>
    decreases cols.len(),
{
    if cols.len() == 0 {
        Ok(Seq::empty())
    } else {
        match column_patches(cols.drop_last(), pairs, clears) {
            Err(e) => Err(e),
            Ok(ps) => match column_patch(cols.last().0, cols.last().1, pairs, clears) {
                Err(e) => Err(e),
                Ok(p) => Ok(ps.push((cols.last().0, p))),
            },
        }
    }
}

/// What parsing the arguments of an update gives: first every `--set`
/// must match "key=value"; then every column named by `--set` and by
/// `--clear` must be an update column; then, column by column in the order
/// of [`update_columns`], a column set and cleared, or cleared but not
/// clearable, is refused, and each other column is assigned its value
/// (the last one given), cleared, or kept.
pub open spec fn spec_parse_update_kvs(kvs: Seq<Seq<char>>, clears: Seq<Seq<char>>) -> Result<
    Seq<(Seq<char>, PatchView)>,
    UpdateArgErrorView,
> {
    match set_pairs(kvs) {
        Err(e) => Err(e),
        Ok(pairs) => match first_invalid_column(pairs.map_values(|p: (Seq<char>, Seq<char>)| p.0)) {
            Some(n) => Err(UpdateArgErrorView::InvalidColumn(n)),
            None => match first_invalid_column(clears) {
                Some(n) => Err(UpdateArgErrorView::InvalidColumn(n)),
                None => column_patches(update_columns(), pairs, clears),
            },
        },
    }
}

/// The view of the result of [`parse_update_kvs`].
pub open spec fn update_result_view(r: Result<Vec<(String, Patch)>, UpdateArgError>) -> Result<
    Seq<(Seq<char>, PatchView)>,
    UpdateArgErrorView,
> {
    match r {
        Ok(v) => Ok(patches_view(v@)),
        Err(e) => Err(e@),
    }
}

pub open spec fn pairs_view(v: Seq<(String, String)>) -> Seq<(Seq<char>, Seq<char>)> {
    v.map_values(|p: (String, String)| (p.0@, p.1@))
}

proof fn lemma_set_pairs_err_persists(s: Seq<Seq<char>>, k: int)
    requires
        0 <= k <= s.len(),
        set_pairs(s.take(k)) is Err,
    ensures
        set_pairs(s) == set_pairs(s.take(k)),
    decreases s.len() - k,
{
    if k == s.len() {
        assert(s.take(k) =~= s);
    } else {
        assert(s.take(k + 1).drop_last() =~= s.take(k));
        lemma_set_pairs_err_persists(s, k + 1);
    }
}

proof fn lemma_first_invalid_persists(s: Seq<Seq<char>>, k: int)
    requires
        0 <= k <= s.len(),
        first_invalid_column(s.take(k)) is Some,
    ensures
        first_invalid_column(s) == first_invalid_column(s.take(k)),
    decreases s.len() - k,
{
    if k == s.len() {
        assert(s.take(k) =~= s);
    } else {
        assert(s.take(k + 1).drop_last() =~= s.take(k));
        lemma_first_invalid_persists(s, k + 1);
    }
}

proof fn lemma_column_patches_err_persists(
    cols: Seq<(Seq<char>, bool)>,
    pairs: Seq<(Seq<char>, Seq<char>)>,
    clears: Seq<Seq<char>>,
    k: int,
)
    requires
        0 <= k <= cols.len(),
        column_patches(cols.take(k), pairs, clears) is Err,
    ensures
        column_patches(cols, pairs, clears) == column_patches(cols.take(k), pairs, clears),
    decreases cols.len() - k,
{
    if k == cols.len() {
        assert(cols.take(k) =~= cols);
    } else {
        assert(cols.take(k + 1).drop_last() =~= cols.take(k));
        lemma_column_patches_err_persists(cols, pairs, clears, k + 1);
    }
}

fn split_set_args(kvs: &Vec<String>) -> (r: Result<Vec<(String, String)>, UpdateArgError>)
    ensures
        match r {
            Ok(v) => set_pairs(views(kvs@)) == Ok::<_, UpdateArgErrorView>(pairs_view(v@)),
            Err(e) => set_pairs(views(kvs@)) == Err::<Seq<(Seq<char>, Seq<char>)>, _>(e@),
        },
{
    let ghost ks = views(kvs@);
    let mut out: Vec<(String, String)> = Vec::new();
    let mut i: usize = 0;
    assert(ks.take(0) =~= Seq::<Seq<char>>::empty());
    assert(pairs_view(out@) =~= Seq::<(Seq<char>, Seq<char>)>::empty());
    while i < kvs.len()
        invariant
            i <= kvs@.len(),
            ks == views(kvs@),
            set_pairs(ks.take(i as int)) == Ok::<_, UpdateArgErrorView>(pairs_view(out@)),
        decreases kvs.len() - i,
    {
        assert(ks.take(i + 1).drop_last() =~= ks.take(i as int));
        assert(ks.take(i + 1).last() == kvs@[i as int]@);
        match split_once_at(kvs[i].as_str(), '=') {
            Some(p) => {
                let ghost before = out@;
                let ghost pv = (p.0@, p.1@);
                out.push(p);
                assert(pairs_view(out@) =~= pairs_view(before).push(pv));
            },
            None => {
                proof {
                    lemma_set_pairs_err_persists(ks, i + 1);
                }
                return Err(UpdateArgError::BadPattern(kvs[i].clone()));
            },
        }
        i += 1;
    }
    assert(ks.take(kvs@.len() as int) =~= ks);
    Ok(out)
}

/// The columns in the view order of `cols`.
spec fn columns_view(cols: Seq<(String, bool)>) -> Seq<(Seq<char>, bool)> {
    cols.map_values(|p: (String, bool)| (p.0@, p.1))
}

fn is_update_column_exec(cols: &Vec<(String, bool)>, name: &str) -> (r: bool)
    requires
        columns_view(cols@) == update_columns(),
    ensures
        r == is_update_column(name@),
{
    let mut i: usize = 0;
    while i < cols.len()
        invariant
            i <= cols@.len(),
            columns_view(cols@) == update_columns(),
            forall|j: int| 0 <= j < i ==> update_columns()[j].0 != name@,
        decreases cols.len() - i,
    {
        assert(columns_view(cols@)[i as int].0 == cols@[i as int].0@);
        if same_text(cols[i].0.as_str(), name) {
            assert(update_columns()[i as int].0 == name@);
            return true;
        }
        i += 1;
    }
    false
}

fn first_invalid_exec(cols: &Vec<(String, bool)>, names: &Vec<String>) -> (r: Option<String>)
    requires
        columns_view(cols@) == update_columns(),
    ensures
        match r {
            Some(n) => first_invalid_column(views(names@)) == Some(n@),
            None => first_invalid_column(views(names@)) is None,
        },
{
    let ghost ns = views(names@);
    let mut i: usize = 0;
    assert(ns.take(0) =~= Seq::<Seq<char>>::empty());
    while i < names.len()
        invariant
            i <= names@.len(),
            ns == views(names@),
            columns_view(cols@) == update_columns(),
            first_invalid_column(ns.take(i as int)) is None,
        decreases names.len() - i,
    {
        assert(ns.take(i + 1).drop_last() =~= ns.take(i as int));
        assert(ns.take(i + 1).last() == names@[i as int]@);
        if !is_update_column_exec(cols, names[i].as_str()) {
            proof {
                lemma_first_invalid_persists(ns, i + 1);
            }
            return Some(names[i].clone());
        }
        i += 1;
    }
    assert(ns.take(names@.len() as int) =~= ns);
    None
}

fn value_for_exec(pairs: &Vec<(String, String)>, col: &str) -> (r: Option<String>)
    ensures
        crate::opt_view(r) == value_for(pairs_view(pairs@), col@),
{
    let ghost pv = pairs_view(pairs@);
    let mut found: Option<String> = None;
    let mut i: usize = 0;
    assert(pv.take(0) =~= Seq::<(Seq<char>, Seq<char>)>::empty());
    while i < pairs.len()
        invariant
            i <= pairs@.len(),
            pv == pairs_view(pairs@),
            crate::opt_view(found) == value_for(pv.take(i as int), col@),
        decreases pairs.len() - i,
    {
        assert(pv.take(i + 1).drop_last() =~= pv.take(i as int));
        assert(pv.take(i + 1).last() == (pairs@[i as int].0@, pairs@[i as int].1@));
        if same_text(pairs[i].0.as_str(), col) {
            found = Some(pairs[i].1.clone());
        }
        i += 1;
    }
    assert(pv.take(pairs@.len() as int) =~= pv);
    found
}

fn column_patch_exec(
    col: &String,
    allow_clear: bool,
    pairs: &Vec<(String, String)>,
    clears: &Vec<String>,
) -> (r: Result<Patch, UpdateArgError>)
    ensures
        match r {
            Ok(p) => column_patch(col@, allow_clear, pairs_view(pairs@), views(clears@)) == Ok::<
                _,
                UpdateArgErrorView,
            >(p@),
            Err(e) => column_patch(col@, allow_clear, pairs_view(pairs@), views(clears@)) == Err::<
                PatchView,
                _,
            >(e@),
        },
{
    let to_clear = contains_text(clears, col.as_str());
    match value_for_exec(pairs, col.as_str()) {
        Some(v) => if to_clear {
            Err(UpdateArgError::SetAndCleared(col.clone()))
        } else {
            Ok(Patch::Assign(v))
        },
        None => if !to_clear {
            Ok(Patch::Keep)
        } else if allow_clear {
            Ok(Patch::Clear)
        } else {
            Err(UpdateArgError::NotClearable(col.clone()))
        },
    }
}

/// Parses the arguments of an update (`--set key=value` and `--clear key`)
/// into the patch of each column that an update can change, in the order of
/// [`update_columns`].
///
/// Each column is assigned if it appears in `kvs_to_set`, cleared if it
/// appears in `cols_to_clear`, and kept otherwise. It is an error if a value
/// of `kvs_to_set` does not match "key=value", if a column name in
/// `kvs_to_set` or `cols_to_clear` is not a valid field, if a column is both
/// set and cleared, or if a column that cannot be cleared (`title`,
/// `track_file`) is cleared.
pub fn parse_update_kvs(kvs_to_set: Vec<String>, cols_to_clear: Vec<String>) -> (r: Result<
    Vec<(String, Patch)>,
    UpdateArgError,
>)
    ensures
        update_result_view(r) == spec_parse_update_kvs(views(kvs_to_set@), views(cols_to_clear@)),
{
    let pairs = match split_set_args(&kvs_to_set) {
        Ok(p) => p,
        Err(e) => return Err(e),
    };
    let ghost pv = pairs_view(pairs@);
    let cols = update_columns_exec();
    assert(columns_view(cols@) =~= cols@.map_values(|p: (String, bool)| (p.0@, p.1)));
    let mut keys: Vec<String> = Vec::new();
    let mut i: usize = 0;
    while i < pairs.len()
        invariant
            i <= pairs@.len(),
            keys@.len() == i,
            forall|j: int| 0 <= j < i ==> #[trigger] keys@[j]@ == pv[j].0,
            pv == pairs_view(pairs@),
        decreases pairs.len() - i,
    {
        keys.push(pairs[i].0.clone());
        i += 1;
    }
    assert(views(keys@) =~= pv.map_values(|p: (Seq<char>, Seq<char>)| p.0));
    if let Some(n) = first_invalid_exec(&cols, &keys) {
        return Err(UpdateArgError::InvalidColumn(n));
    }
    if let Some(n) = first_invalid_exec(&cols, &cols_to_clear) {
        return Err(UpdateArgError::InvalidColumn(n));
    }
    let ghost cv = update_columns();
    let mut out: Vec<(String, Patch)> = Vec::new();
    let mut k: usize = 0;
    assert(cv.take(0) =~= Seq::<(Seq<char>, bool)>::empty());
    assert(patches_view(out@) =~= Seq::<(Seq<char>, PatchView)>::empty());
    while k < cols.len()
        invariant
            k <= cols@.len(),
            columns_view(cols@) == cv,
            cv == update_columns(),
            pv == pairs_view(pairs@),
            set_pairs(views(kvs_to_set@)) == Ok::<_, UpdateArgErrorView>(pv),
            first_invalid_column(pv.map_values(|p: (Seq<char>, Seq<char>)| p.0)) is None,
            first_invalid_column(views(cols_to_clear@)) is None,
            column_patches(cv.take(k as int), pv, views(cols_to_clear@)) == Ok::<
                _,
                UpdateArgErrorView,
            >(patches_view(out@)),
        decreases cols.len() - k,
    {
        assert(cv.take(k + 1).drop_last() =~= cv.take(k as int));
        assert(cv.take(k + 1).last() == (cols@[k as int].0@, cols@[k as int].1));
        match column_patch_exec(&cols[k].0, cols[k].1, &pairs, &cols_to_clear) {
            Ok(p) => {
                let ghost before = out@;
                let ghost pe = (cols@[k as int].0@, p@);
                out.push((cols[k].0.clone(), p));
                assert(patches_view(out@) =~= patches_view(before).push(pe));
            },
            Err(e) => {
                assert(column_patches(cv.take(k + 1), pv, views(cols_to_clear@)) == Err::<
                    Seq<(Seq<char>, PatchView)>,
                    UpdateArgErrorView,
                >(e@));
                proof {
                    lemma_column_patches_err_persists(cv, pv, views(cols_to_clear@), k + 1);
                    assert(cv.take(cols@.len() as int) =~= cv);
                }
                return Err(e);
            },
        }
        k += 1;
    }
    assert(cv.take(cols@.len() as int) =~= cv);
    Ok(out)
}

/// The patches of columns `cols` where no value is set and only `c` is
/// cleared: `c` cleared and every other column kept, or the refusal of `c`
/// where a column of that name cannot be cleared.
proof fn lemma_patches_clearing_one(cols: Seq<(Seq<char>, bool)>, c: Seq<char>)
    ensures
        column_patches(cols, Seq::empty(), seq![c]) == (if exists|i: int|
            0 <= i < cols.len() && #[trigger] cols[i].0 == c && !cols[i].1 {
            Err(UpdateArgErrorView::NotClearable(c))
        } else {
            Ok(
                cols.map_values(
                    |p: (Seq<char>, bool)|
                        (
                            p.0,
                            if p.0 == c {
                                PatchView::Clear
                            } else {
                                PatchView::Keep
                            },
                        ),
                ),
            )
        }),
    decreases cols.len(),
{
    let f = |p: (Seq<char>, bool)|
        (
            p.0,
            if p.0 == c {
                PatchView::Clear
            } else {
                PatchView::Keep
            },
        );
    let empty = Seq::<(Seq<char>, Seq<char>)>::empty();
    if cols.len() > 0 {
        let d = cols.drop_last();
        let l = cols.last();
        lemma_patches_clearing_one(d, c);
        assert(seq![c].contains(l.0) <==> l.0 == c) by {
            if seq![c].contains(l.0) {
                let k = choose|k: int| 0 <= k < seq![c].len() && seq![c][k] == l.0;
                assert(k == 0);
            }
            if l.0 == c {
                assert(seq![c][0] == l.0);
            }
        }
        assert(value_for(empty, l.0) is None);
        let in_d = exists|i: int| 0 <= i < d.len() && #[trigger] d[i].0 == c && !d[i].1;
        let in_cols = exists|i: int| 0 <= i < cols.len() && #[trigger] cols[i].0 == c && !cols[i].1;
        if in_d {
            let i = choose|i: int| 0 <= i < d.len() && #[trigger] d[i].0 == c && !d[i].1;
            assert(cols[i] == d[i]);
            assert(in_cols);
        } else if l.0 == c && !l.1 {
            assert(cols[cols.len() - 1] == l);
            assert(in_cols);
        } else {
            assert(!in_cols) by {
                if in_cols {
                    let i = choose|i: int| 0 <= i < cols.len() && #[trigger] cols[i].0 == c && !cols[i].1;
                    if i < d.len() {
                        assert(d[i] == cols[i]);
                    }
                }
            }
            assert(d.map_values(f).push(f(l)) =~= cols.map_values(f));
        }
    } else {
        assert(cols.map_values(f) =~= Seq::<(Seq<char>, PatchView)>::empty());
    }
}

proof fn lemma_parse_clearing_one(c: Seq<char>)
    requires
        is_update_column(c),
    ensures
        spec_parse_update_kvs(Seq::empty(), seq![c]) == column_patches(
            update_columns(),
            Seq::empty(),
            seq![c],
        ),
{
    let e = Seq::<Seq<char>>::empty();
    assert(set_pairs(e) == Ok::<Seq<(Seq<char>, Seq<char>)>, UpdateArgErrorView>(Seq::empty()));
    let pairs = Seq::<(Seq<char>, Seq<char>)>::empty();
    assert(pairs.map_values(|p: (Seq<char>, Seq<char>)| p.0) =~= e);
    assert(first_invalid_column(e) is None);
    assert(seq![c].drop_last() =~= e);
    assert(first_invalid_column(seq![c]) is None);
}

proof fn lemma_update_column_names()
    ensures
        update_columns().len() == 14,
        update_columns()[0] == ("title"@, false),
        update_columns()[13] == ("track_file"@, false),
        forall|i: int| 0 < i < 13 ==> #[trigger] update_columns()[i].1,
{
}

/// Clearing is refused for exactly the columns "title" and "track_file":
/// with no value set, clearing any other update column succeeds, clears that
/// column and keeps every other one of the 14 update columns.
pub proof fn law_clearing_allowed(c: Seq<char>)
    requires
        c == "artist"@ || c == "album"@ || c == "album_artist"@ || c == "recording_date"@ || c
            == "release_date"@ || c == "track_number"@ || c == "disc_number"@ || c == "genre"@
            || c == "composer"@ || c == "lyricist"@ || c == "lyrics"@ || c == "front_cover"@,
    ensures
        spec_parse_update_kvs(Seq::empty(), seq![c]) matches Ok(ps) && ps.len() == 14 && (exists|i: int|
            0 <= i < 14 && #[trigger] ps[i].0 == c) && (forall|i: int|
            0 <= i < 14 ==> (#[trigger] ps[i].1 == if ps[i].0 == c {
                PatchView::Clear
            } else {
                PatchView::Keep
            })),
{
    reveal_strlit("title");
    reveal_strlit("track_file");
    reveal_strlit("artist");
    reveal_strlit("album");
    reveal_strlit("album_artist");
    reveal_strlit("recording_date");
    reveal_strlit("release_date");
    reveal_strlit("track_number");
    reveal_strlit("disc_number");
    reveal_strlit("genre");
    reveal_strlit("composer");
    reveal_strlit("lyricist");
    reveal_strlit("lyrics");
    reveal_strlit("front_cover");
    lemma_update_column_names();
    let cols = update_columns();
    assert(c != "title"@) by {
        if c.len() == 5 {
            assert(c[0] != 't');
        }
    }
    assert(c != "track_file"@) by {
        assert(c.len() != 10);
    }
    let k: int = if c == "artist"@ {
        1
    } else if c == "album"@ {
        2
    } else if c == "album_artist"@ {
        3
    } else if c == "recording_date"@ {
        4
    } else if c == "release_date"@ {
        5
    } else if c == "track_number"@ {
        6
    } else if c == "disc_number"@ {
        7
    } else if c == "genre"@ {
        8
    } else if c == "composer"@ {
        9
    } else if c == "lyricist"@ {
        10
    } else if c == "lyrics"@ {
        11
    } else {
        12
    };
    assert(cols[k].0 == c);
    assert(is_update_column(c));
    lemma_parse_clearing_one(c);
    lemma_patches_clearing_one(cols, c);
    assert(!exists|i: int| 0 <= i < cols.len() && #[trigger] cols[i].0 == c && !cols[i].1) by {
        if exists|i: int| 0 <= i < cols.len() && #[trigger] cols[i].0 == c && !cols[i].1 {
            let i = choose|i: int| 0 <= i < cols.len() && #[trigger] cols[i].0 == c && !cols[i].1;
            assert(i == 0 || i == 13);
        }
    }
    let ps = cols.map_values(
        |p: (Seq<char>, bool)|
            (
                p.0,
                if p.0 == c {
                    PatchView::Clear
                } else {
                    PatchView::Keep
                },
            ),
    );
    assert(ps[k].0 == c);
}

/// The columns "title" and "track_file" cannot be cleared: clearing one
/// of them, with no value set, is refused for that column.
pub proof fn law_clearing_refused(c: Seq<char>)
    requires
        c == "title"@ || c == "track_file"@,
    ensures
        spec_parse_update_kvs(Seq::empty(), seq![c]) == Err::<Seq<(Seq<char>, PatchView)>, _>(
            UpdateArgErrorView::NotClearable(c),
        ),
{
    lemma_update_column_names();
    let cols = update_columns();
    let k: int = if c == "title"@ {
        0
    } else {
        13
    };
    assert(cols[k].0 == c && !cols[k].1);
    assert(is_update_column(c));
    lemma_parse_clearing_one(c);
    lemma_patches_clearing_one(cols, c);
}

} // verus!
