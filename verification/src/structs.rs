//! The shared data model: a `Song` carries a read-mostly source section
//! (what the fetcher reported) and a read-write derived section (what
//! modules compute), both as flat documents. `SongMetadata` and
//! `AlbumMetadata` are the typed records used on the tagging side.

use vstd::prelude::*;
use crate::values::Document;
use crate::values::SpecVal;

verus! {

/// The mathematical value of a song: its two sections as maps.
pub struct SpecSong {
    pub source: Map<Seq<char>, SpecVal>,
    pub derived: Map<Seq<char>, SpecVal>,
}

/// One song being processed: `source` holds the fields fetched from the
/// outside source, `derived` the fields modules compute (path, tags,
/// track numbers). Modules read `source` and read/write `derived`.
pub struct Song {
    pub source: Document,
    pub derived: Document,
}

impl Song {
    /// The denotation of this song.
    pub open spec fn view(&self) -> SpecSong {
        SpecSong { source: self.source@, derived: self.derived@ }
    }

    /// Both sections are well formed.
    pub open spec fn wf(&self) -> bool {
        self.source.wf() && self.derived.wf()
    }

    /// A song fresh from the fetcher: the given source section and an
    /// empty derived section.
    pub fn from_source(source: Document) -> (r: Song)
        ensures
            r@.source == source@,
            r@.derived == Map::<Seq<char>, SpecVal>::empty(),
            source.wf() ==> r.wf(),
            r.derived.keys_in_order() == Seq::<Seq<char>>::empty(),
    {
        Song { source, derived: Document::new() }
    }
}

/// The songs of one run, in track order.
pub type SongSet = Vec<Song>;

/// The denotation of a song list.
pub open spec fn songs_view(songs: Seq<Song>) -> Seq<SpecSong> {
    songs.map_values(|s: Song| s@)
}

/// Every song of the list is well formed.
pub open spec fn songs_wf(songs: Seq<Song>) -> bool {
    forall|i: int| 0 <= i < songs.len() ==> (#[trigger] songs[i]).wf()
}

/// The typed per-song metadata record used by the tagging side.
#[derive(Default)]
pub struct SongMetadata {
    pub fulltitle: String,
    pub title: Option<String>,
    pub album: Option<String>,
    pub artist: Option<String>,
    pub year: Option<u32>,
    pub genre: Option<String>,
    pub track_no: Option<u32>,
    pub total_tracks: Option<u32>,
    pub channel: Option<String>,
    pub description: Option<String>,
}

/// Album-wide metadata collected once and applied to every song.
#[derive(Default)]
pub struct AlbumMetadata {
    pub album_title: String,
    pub artist: String,
    pub year: u32,
    pub genre: String,
}

impl SongMetadata {
    /// Overwrites the album-wide fields of this record with the album's.
    pub fn apply(&mut self, album_metadata: AlbumMetadata)
        ensures
            final(self).album == Some(album_metadata.album_title),
            final(self).artist == Some(album_metadata.artist),
            final(self).year == Some(album_metadata.year),
            final(self).genre == Some(album_metadata.genre),
            final(self).fulltitle == old(self).fulltitle,
            final(self).title == old(self).title,
            final(self).track_no == old(self).track_no,
            final(self).total_tracks == old(self).total_tracks,
            final(self).channel == old(self).channel,
            final(self).description == old(self).description,
    {
        self.album = Some(album_metadata.album_title);
        self.artist = Some(album_metadata.artist);
        self.year = Some(album_metadata.year);
        self.genre = Some(album_metadata.genre);
    }
}

} // verus!
