//! The command line interface as plain values: the subcommands and their
//! options, as parsed from the arguments.

use vstd::prelude::*;

use crate::models::TrackFilter;
use crate::text::{dedup_i64s, dedup_seq, dedup_texts, lemma_dedup_no_duplicates, views};

verus! {

/// The parsed command line.
pub struct Cli {
    /// Subcommand.
    pub cmd: Commands,
}

/// The subcommands.
pub enum Commands {
    /// Initialize a repository.
    Init {
        /// Overwrite .mcat/ if it already exists.
        force: bool,
    },
    /// List selected tracks in the repository; by default all of them.
    List {
        /// Print the list in JSON format.
        json: bool,
        filter_args: Box<FilterArgs>,
        /// Columns of the result.
        columns: Vec<String>,
    },
    /// Add tracks into the repository.
    Add {
        /// Paths to track files to add; directories with `recursive`.
        paths: Vec<String>,
        /// Recursively add tracks under a directory.
        recursive: bool,
    },
    /// Remove selected tracks from the repository; by default none.
    Remove {
        filter_args: Box<FilterArgs>,
        /// Show the information of tracks removed in JSON format.
        detailed: bool,
    },
    /// Update fields of selected tracks in the repository; by default none.
    Update {
        /// Show the information of tracks updated in JSON format.
        detailed: bool,
        filter_args: Box<FilterArgs>,
        /// Values of fields to set, as "key=value".
        kvs_to_set: Vec<String>,
        /// Fields to clear.
        columns_to_clear: Vec<String>,
    },
}

/// The filter options: each may be given several times, meaning "OR".
pub struct FilterArgs {
    pub ids: Vec<i64>,
    pub titles: Vec<String>,
    pub artists: Vec<String>,
    pub albums: Vec<String>,
    pub album_artists: Vec<String>,
    pub recording_dates: Vec<String>,
    pub release_dates: Vec<String>,
    pub track_numbers: Vec<i64>,
    pub disc_numbers: Vec<i64>,
    pub genres: Vec<String>,
    pub composers: Vec<String>,
    pub lyricists: Vec<String>,
}

impl FilterArgs {
    /// Whether no filter option is given.
    pub open spec fn spec_no_options(&self) -> bool {
        &&& self.ids@.len() == 0
        &&& self.titles@.len() == 0
        &&& self.artists@.len() == 0
        &&& self.albums@.len() == 0
        &&& self.album_artists@.len() == 0
        &&& self.recording_dates@.len() == 0
        &&& self.release_dates@.len() == 0
        &&& self.track_numbers@.len() == 0
        &&& self.disc_numbers@.len() == 0
        &&& self.genres@.len() == 0
        &&& self.composers@.len() == 0
        &&& self.lyricists@.len() == 0
    }
}

impl TrackFilter {
    /// Whether this filter holds the options of `args`, each kept once, in
    /// the order of their first occurrence.
    pub open spec fn made_from(&self, args: FilterArgs) -> bool {
        &&& self.ids@ == dedup_seq(args.ids@)
        &&& views(self.titles@) == dedup_seq(views(args.titles@))
        &&& views(self.artists@) == dedup_seq(views(args.artists@))
        &&& views(self.albums@) == dedup_seq(views(args.albums@))
        &&& views(self.album_artists@) == dedup_seq(views(args.album_artists@))
        &&& views(self.recording_dates@) == dedup_seq(views(args.recording_dates@))
        &&& views(self.release_dates@) == dedup_seq(views(args.release_dates@))
        &&& self.track_numbers@ == dedup_seq(args.track_numbers@)
        &&& self.disc_numbers@ == dedup_seq(args.disc_numbers@)
        &&& views(self.genres@) == dedup_seq(views(args.genres@))
        &&& views(self.composers@) == dedup_seq(views(args.composers@))
        &&& views(self.lyricists@) == dedup_seq(views(args.lyricists@))
    }

    /// The filter of the filter options: each option's values as a set.
    pub fn from_args(filter_args: &FilterArgs) -> (r: Self)
        ensures
            r.made_from(*filter_args),
            r.spec_values_distinct(),
    {
        proof {
            lemma_dedup_no_duplicates(filter_args.ids@);
            lemma_dedup_no_duplicates(views(filter_args.titles@));
            lemma_dedup_no_duplicates(views(filter_args.artists@));
            lemma_dedup_no_duplicates(views(filter_args.albums@));
            lemma_dedup_no_duplicates(views(filter_args.album_artists@));
            lemma_dedup_no_duplicates(views(filter_args.recording_dates@));
            lemma_dedup_no_duplicates(views(filter_args.release_dates@));
            lemma_dedup_no_duplicates(filter_args.track_numbers@);
            lemma_dedup_no_duplicates(filter_args.disc_numbers@);
            lemma_dedup_no_duplicates(views(filter_args.genres@));
            lemma_dedup_no_duplicates(views(filter_args.composers@));
            lemma_dedup_no_duplicates(views(filter_args.lyricists@));
        }
        TrackFilter {
            ids: dedup_i64s(&filter_args.ids),
            titles: dedup_texts(&filter_args.titles),
            artists: dedup_texts(&filter_args.artists),
            albums: dedup_texts(&filter_args.albums),
            album_artists: dedup_texts(&filter_args.album_artists),
            recording_dates: dedup_texts(&filter_args.recording_dates),
            release_dates: dedup_texts(&filter_args.release_dates),
            track_numbers: dedup_i64s(&filter_args.track_numbers),
            disc_numbers: dedup_i64s(&filter_args.disc_numbers),
            genres: dedup_texts(&filter_args.genres),
            composers: dedup_texts(&filter_args.composers),
            lyricists: dedup_texts(&filter_args.lyricists),
        }
    }
}

} // verus!
