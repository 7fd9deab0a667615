//! Types related to tracks in the track repository.

use vstd::prelude::*;

use crate::models::RowFields;
use crate::text::parse_i64;
use crate::{clone_opt, opt_view};

verus! {

/// A track stored in the repository.
pub struct Track {
    pub id: i64,
    pub metadata: TrackMetadata,
    pub file: TrackFile,
}

impl Track {
    /// The stored track made of a new track and what storing it produced:
    /// its id, its stored lyrics, front cover and track file.
    pub fn from_new(
        new_track: NewTrack,
        id: i64,
        lyrics: Option<Lyrics>,
        front_cover: Option<Image>,
        track_file: TrackFile,
    ) -> (r: Self)
        ensures
            r.id == id,
            r.metadata.core == new_track.metadata.core,
            r.metadata.lyrics == lyrics,
            r.metadata.front_cover == front_cover,
            r.file == track_file,
    {
        Self {
            id,
            metadata: TrackMetadata { core: new_track.metadata.core, lyrics, front_cover },
            file: track_file,
        }
    }
}

/// A track not stored yet.
pub struct NewTrack {
    pub metadata: NewTrackMetadata,
    pub file: NewTrackFile,
}

impl NewTrack {
    /// A new track from the items of a file's tag and the file's path.
    pub fn from_tag(tag: TagFields, path: String) -> (r: Self)
        ensures
            r.metadata.made_from_tag(tag),
            r.metadata.core.title@ == (match tag.title {
                Some(t) => t@,
                None => Seq::<char>::empty(),
            }),
            r.metadata.core.artist == tag.artist,
            r.metadata.core.album == tag.album,
            r.metadata.core.album_artist == tag.album_artist,
            r.metadata.core.recording_date == tag.recording_date,
            r.metadata.core.release_date == tag.release_date,
            r.metadata.core.genre == tag.genre,
            r.metadata.core.composer == tag.composer,
            r.metadata.core.lyricist == tag.lyricist,
            r.file.path == path,
    {
        Self { metadata: NewTrackMetadata::from_tag(tag), file: NewTrackFile::from(path) }
    }
}

/// A row of table "tracks".
pub struct TrackRow {
    pub id: i64,
    pub core: TrackMetadataCore,
    pub lyrics_id: Option<i64>,
    pub front_cover_id: Option<i64>,
    pub file_id: Option<i64>,
}

impl TrackRow {
    /// The values a track filter looks at.
    pub open spec fn fields(&self) -> RowFields {
        RowFields {
            id: Some(self.id),
            title: Some(self.core.title@),
            artist: opt_view(self.core.artist),
            album: opt_view(self.core.album),
            album_artist: opt_view(self.core.album_artist),
            recording_date: opt_view(self.core.recording_date),
            release_date: opt_view(self.core.release_date),
            track_number: self.core.track_number,
            disc_number: self.core.disc_number,
            genre: opt_view(self.core.genre),
            composer: opt_view(self.core.composer),
            lyricist: opt_view(self.core.lyricist),
        }
    }
}

/// Metadata of a stored track.
pub struct TrackMetadata {
    pub core: TrackMetadataCore,
    /// Lyrics.
    pub lyrics: Option<Lyrics>,
    /// Front Cover.
    pub front_cover: Option<Image>,
}

/// The textual metadata of a track.
#[derive(Debug, PartialEq, Eq, Hash)]
pub struct TrackMetadataCore {
    /// Track title.
    pub title: String,
    /// Track artist.
    pub artist: Option<String>,
    /// Album title.
    pub album: Option<String>,
    /// Album artist.
    pub album_artist: Option<String>,
    /// Recording date.
    pub recording_date: Option<String>,
    /// Release date.
    pub release_date: Option<String>,
    /// Track number.
    pub track_number: Option<i64>,
    /// Disc number.
    pub disc_number: Option<i64>,
    /// Genre.
    pub genre: Option<String>,
    /// Composer.
    pub composer: Option<String>,
    /// Lyricist.
    pub lyricist: Option<String>,
}

impl TrackMetadataCore {
    /// A copy of this metadata.
    pub fn duplicate(&self) -> (r: Self)
        ensures
            r == *self,
    {
        TrackMetadataCore {
            title: self.title.clone(),
            artist: clone_opt(&self.artist),
            album: clone_opt(&self.album),
            album_artist: clone_opt(&self.album_artist),
            recording_date: clone_opt(&self.recording_date),
            release_date: clone_opt(&self.release_date),
            track_number: self.track_number,
            disc_number: self.disc_number,
            genre: clone_opt(&self.genre),
            composer: clone_opt(&self.composer),
            lyricist: clone_opt(&self.lyricist),
        }
    }
}

/// The items of a file's tag that a new track is made of, each as the tag
/// holds it: text items as text, the lyrics and the front cover as bytes.
pub struct TagFields {
    pub title: Option<String>,
    pub artist: Option<String>,
    pub album: Option<String>,
    pub album_artist: Option<String>,
    pub recording_date: Option<String>,
    pub release_date: Option<String>,
    pub track_number: Option<String>,
    pub disc_number: Option<String>,
    pub genre: Option<String>,
    pub composer: Option<String>,
    pub lyricist: Option<String>,
    pub lyrics: Option<Vec<u8>>,
    pub front_cover: Option<Vec<u8>>,
}

/// Metadata of a track not stored yet.
pub struct NewTrackMetadata {
    pub core: TrackMetadataCore,
    pub lyrics: Option<NewLyrics>,
    pub front_cover: Option<NewImage>,
}

/// A number item of a tag, parsed as an `i64`; absent when the item is
/// absent or does not parse.
pub open spec fn tag_number(item: Option<String>) -> Option<i64> {
    match item {
        Some(s) => crate::text::spec_parse_i64(s@),
        None => None,
    }
}

fn parse_tag_number(item: &Option<String>) -> (r: Option<i64>)
    ensures
        r == tag_number(*item),
{
    match item {
        Some(s) => parse_i64(s.as_str()),
        None => None,
    }
}

impl NewTrackMetadata {
    /// Whether `self` is the metadata that `tag` gives: the title is empty
    /// where the tag has none, track and disc numbers are parsed, the other
    /// items are kept.
    pub open spec fn made_from_tag(&self, tag: TagFields) -> bool {
        &&& self.core.title@ == (match tag.title {
            Some(t) => t@,
            None => Seq::<char>::empty(),
        })
        &&& self.core.artist == tag.artist
        &&& self.core.album == tag.album
        &&& self.core.album_artist == tag.album_artist
        &&& self.core.recording_date == tag.recording_date
        &&& self.core.release_date == tag.release_date
        &&& self.core.track_number == tag_number(tag.track_number)
        &&& self.core.disc_number == tag_number(tag.disc_number)
        &&& self.core.genre == tag.genre
        &&& self.core.composer == tag.composer
        &&& self.core.lyricist == tag.lyricist
        &&& self.lyrics == (match tag.lyrics {
            Some(data) => Some(NewLyrics { data }),
            None => None,
        })
        &&& self.front_cover == (match tag.front_cover {
            Some(data) => Some(NewImage { data }),
            None => None,
        })
    }

    /// The metadata that a tag gives.
    pub fn from_tag(tag: TagFields) -> (r: Self)
        ensures
            r.made_from_tag(tag),
            r.core.title@ == (match tag.title {
                Some(t) => t@,
                None => Seq::<char>::empty(),
            }),
            r.core.artist == tag.artist,
            r.core.album == tag.album,
            r.core.album_artist == tag.album_artist,
            r.core.recording_date == tag.recording_date,
            r.core.release_date == tag.release_date,
            r.core.genre == tag.genre,
            r.core.composer == tag.composer,
            r.core.lyricist == tag.lyricist,
    {
        let track_number = parse_tag_number(&tag.track_number);
        let disc_number = parse_tag_number(&tag.disc_number);
        let title = match tag.title {
            Some(t) => t,
            None => String::new(),
        };
        NewTrackMetadata {
            core: TrackMetadataCore {
                title,
                artist: tag.artist,
                album: tag.album,
                album_artist: tag.album_artist,
                recording_date: tag.recording_date,
                release_date: tag.release_date,
                track_number,
                disc_number,
                genre: tag.genre,
                composer: tag.composer,
                lyricist: tag.lyricist,
            },
            lyrics: match tag.lyrics {
                Some(data) => Some(NewLyrics { data }),
                None => None,
            },
            front_cover: match tag.front_cover {
                Some(data) => Some(NewImage { data }),
                None => None,
            },
        }
    }
}

/// Stored lyrics.
pub struct Lyrics {
    pub id: i64,
    pub hash: Vec<u8>,
    pub data: Option<Vec<u8>>,
}

impl Lyrics {
    /// The stored lyrics made of new lyrics, their id and their hash.
    pub fn from_new(new_lyrics: NewLyrics, id: i64, hash: Vec<u8>) -> (r: Self)
        ensures
            r.id == id,
            r.hash == hash,
            r.data == Some(new_lyrics.data),
    {
        Self { id, hash, data: Some(new_lyrics.data) }
    }
}

/// Lyrics not stored yet.
pub struct NewLyrics {
    pub data: Vec<u8>,
}

/// A stored image.
pub struct Image {
    pub id: i64,
    pub hash: Vec<u8>,
    pub data: Option<Vec<u8>>,
}

impl Image {
    /// The stored image made of a new image, its id and its hash.
    pub fn from_new(new_image: NewImage, id: i64, hash: Vec<u8>) -> (r: Self)
        ensures
            r.id == id,
            r.hash == hash,
            r.data == Some(new_image.data),
    {
        Self { id, hash, data: Some(new_image.data) }
    }
}

/// An image not stored yet.
pub struct NewImage {
    pub data: Vec<u8>,
}

/// A stored track file.
pub struct TrackFile {
    pub id: i64,
    pub name: String,
    pub hash: Vec<u8>,
}

/// A track file not stored yet, by its path.
pub struct NewTrackFile {
    pub path: String,
}

impl From<String> for NewTrackFile {
    fn from(path: String) -> (r: Self) {
        Self { path }
    }
}

impl vstd::std_specs::convert::FromSpecImpl<String> for NewTrackFile {
    open spec fn obeys_from_spec() -> bool {
        true
    }

    open spec fn from_spec(path: String) -> Self {
        NewTrackFile { path }
    }
}

/// A new track keeps each item of its file's tag under the field of the
/// same name: the title (empty where the tag has none), artist, album,
/// album artist, dates, genre, composer and lyricist as they are, the track
/// and disc numbers as the numbers their text denotes, the lyrics and the
/// front cover as their bytes.
pub proof fn law_new_track_keeps_tag_items(m: NewTrackMetadata, tag: TagFields)
    requires
        m.made_from_tag(tag),
    ensures
        m.core.title@ == (match tag.title {
            Some(t) => t@,
            None => Seq::<char>::empty(),
        }),
        m.core.artist == tag.artist,
        m.core.album == tag.album,
        m.core.album_artist == tag.album_artist,
        m.core.recording_date == tag.recording_date,
        m.core.release_date == tag.release_date,
        m.core.genre == tag.genre,
        m.core.composer == tag.composer,
        m.core.lyricist == tag.lyricist,
        m.core.track_number == (match tag.track_number {
            Some(s) => crate::text::spec_parse_i64(s@),
            None => None,
        }),
        m.core.disc_number == (match tag.disc_number {
            Some(s) => crate::text::spec_parse_i64(s@),
            None => None,
        }),
        (m.lyrics matches Some(l) ==> tag.lyrics == Some(l.data)),
        (m.lyrics is None <==> tag.lyrics is None),
        (m.front_cover matches Some(f) ==> tag.front_cover == Some(f.data)),
        (m.front_cover is None <==> tag.front_cover is None),
{
}

} // verus!
