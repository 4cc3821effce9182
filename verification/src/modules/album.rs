//! The album module: gathers album-wide defaults from the songs, lets
//! the user confirm or edit them in a form (outside the library), and
//! writes the confirmed values into every song's derived section.

use vstd::prelude::*;
use super::Module;
use super::module_deps;
use crate::structs::Song;
use crate::structs::SongSet;
use crate::structs::SpecSong;
use crate::structs::songs_view;
use crate::structs::songs_wf;
use crate::values::FieldValue;
use crate::values::SpecVal;

verus! {

/// The module that collects and applies album-wide metadata.
pub struct AlbumModule;

impl Module for AlbumModule {
    open spec fn spec_name() -> Seq<char> {
        "albumui"@
    }

    fn name() -> (r: String) {
        "albumui".to_owned()
    }

    fn deps() -> (r: Vec<String>) {
        proof {
            super::reveal_module_names();
        }
        let deps: Vec<String> = vec!["fetch_song_info".to_owned()];
        proof {
            assert(deps@.map_values(|s: String| s@) =~= module_deps("albumui"@));
        }
        deps
    }
}

/// Album-wide values offered to the user as defaults, and written back
/// to every song once confirmed.
#[derive(Default)]
pub struct AlbumDraft {
    pub title: String,
    pub artist: String,
    pub year: Option<u64>,
    pub genre: String,
}

/// The last text seen under the key while scanning the first `j` songs.
pub open spec fn last_text(songs: Seq<SpecSong>, j: int, key: Seq<char>, init: Seq<char>) -> Seq<
    char,
>
    decreases j,
{
    if j <= 0 {
        init
    } else {
        let prev = last_text(songs, j - 1, key, init);
        if songs[j - 1].derived.contains_key(key) && songs[j - 1].derived[key] is Text {
            songs[j - 1].derived[key]->Text_0
        } else {
            prev
        }
    }
}

/// The last number seen under the key while scanning the first `j`
/// songs.
pub open spec fn last_num(songs: Seq<SpecSong>, j: int, key: Seq<char>, init: Option<u64>) -> Option<
    u64,
>
    decreases j,
{
    if j <= 0 {
        init
    } else {
        let prev = last_num(songs, j - 1, key, init);
        if songs[j - 1].derived.contains_key(key) && songs[j - 1].derived[key] is Num {
            Some(songs[j - 1].derived[key]->Num_0)
        } else {
            prev
        }
    }
}

/// Scans the songs for album-wide defaults: the last text seen under
/// `album`, `artist` and `genre`, and the last number seen under
/// `year`; fields nowhere present stay at their empty defaults.
pub fn collect_album_defaults(songs: &SongSet) -> (r: AlbumDraft)
    requires
        songs_wf(songs@),
    ensures
        r.title@ == last_text(songs_view(songs@), songs@.len() as int, "album"@, Seq::empty()),
        r.artist@ == last_text(songs_view(songs@), songs@.len() as int, "artist"@, Seq::empty()),
        r.genre@ == last_text(songs_view(songs@), songs@.len() as int, "genre"@, Seq::empty()),
        r.year == last_num(songs_view(songs@), songs@.len() as int, "year"@, None::<u64>),
{
    let ghost sv = songs_view(songs@);
    let mut draft = AlbumDraft {
        title: String::new(),
        artist: String::new(),
        year: None,
        genre: String::new(),
    };
    let n = songs.len();
    let mut i: usize = 0;
    while i < n
        invariant
            0 <= i <= n,
            n == songs@.len(),
            sv == songs_view(songs@),
            songs_wf(songs@),
            draft.title@ == last_text(sv, i as int, "album"@, Seq::empty()),
            draft.artist@ == last_text(sv, i as int, "artist"@, Seq::empty()),
            draft.genre@ == last_text(sv, i as int, "genre"@, Seq::empty()),
            draft.year == last_num(sv, i as int, "year"@, None::<u64>),
        decreases n - i,
    {
        let song = &songs[i];
        proof {
            assert(song@ == sv[i as int]);
            assert(songs@[i as int].wf());
        }
        match song.derived.get("album") {
            Some(v) => match v {
                FieldValue::Text(s) => {
                    draft.title = s.clone();
                },
                _ => {},
            },
            None => {},
        }
        match song.derived.get("artist") {
            Some(v) => match v {
                FieldValue::Text(s) => {
                    draft.artist = s.clone();
                },
                _ => {},
            },
            None => {},
        }
        match song.derived.get("year") {
            Some(v) => match v {
                FieldValue::Num(y) => {
                    draft.year = Some(*y);
                },
                _ => {},
            },
            None => {},
        }
        match song.derived.get("genre") {
            Some(v) => match v {
                FieldValue::Text(s) => {
                    draft.genre = s.clone();
                },
                _ => {},
            },
            None => {},
        }
        i = i + 1;
    }
    draft
}

/// One song's derived section after the album metadata is applied.
pub open spec fn album_applied(derived: Map<Seq<char>, SpecVal>, album: AlbumDraft) -> Map<
    Seq<char>,
    SpecVal,
> {
    derived.insert("album"@, SpecVal::Text(album.title@)).insert(
        "artist"@,
        SpecVal::Text(album.artist@),
    ).insert(
        "year"@,
        match album.year {
            Some(y) => SpecVal::Num(y),
            None => SpecVal::Null,
        },
    ).insert("genre"@, SpecVal::Text(album.genre@))
}

/// Writes the confirmed album metadata into every song: album title,
/// artist, year (null when left empty) and genre. Order and sources
/// are kept; nothing else changes.
pub fn apply_album_metadata(album: &AlbumDraft, songs: &mut SongSet)
    requires
        songs_wf(old(songs)@),
    ensures
        songs_wf(final(songs)@),
        final(songs)@.len() == old(songs)@.len(),
        forall|i: int|
            0 <= i < old(songs)@.len() ==> (#[trigger] final(songs)@[i])@.source == old(
                songs,
            )@[i]@.source && final(songs)@[i]@.derived == album_applied(
                old(songs)@[i]@.derived,
                *album,
            ),
{
    let ghost orig = songs@;
    let count = songs.len();
    let mut input: Vec<Song> = Vec::new();
    core::mem::swap(songs, &mut input);
    let mut out: Vec<Song> = Vec::new();
    while input.len() > 0
        invariant
            out@.len() + input@.len() == count,
            count == orig.len(),
            input@ =~= orig.subrange(out@.len() as int, count as int),
            songs_wf(orig),
            forall|i: int| 0 <= i < out@.len() ==> (#[trigger] out@[i]).wf(),
            forall|i: int|
                0 <= i < out@.len() ==> (#[trigger] out@[i])@.source == orig[i]@.source
                    && out@[i]@.derived == album_applied(orig[i]@.derived, *album),
        decreases input@.len(),
    {
        let ghost pos = out@.len() as int;
        let mut song = input.remove(0);
        proof {
            assert(song == orig[pos]);
            assert(input@ =~= orig.subrange(pos + 1, count as int));
            assert(orig[pos].wf());
        }
        song.derived.set("album", FieldValue::Text(album.title.clone()));
        song.derived.set("artist", FieldValue::Text(album.artist.clone()));
        match &album.year {
            Some(y) => song.derived.set("year", FieldValue::Num(*y)),
            None => song.derived.set("year", FieldValue::Null),
        }
        song.derived.set("genre", FieldValue::Text(album.genre.clone()));
        out.push(song);
    }
    *songs = out;
}

} // verus!
