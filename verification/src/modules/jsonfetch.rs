//! The fetch module: asks the external downloader for metadata and turns
//! each reported record into a fresh song. The subprocess call and the
//! JSON decoding happen outside the library; what arrives here is the
//! flat source section of one song.

use vstd::prelude::*;
use super::Module;
use super::module_deps;
use crate::structs::Song;
use crate::structs::SongSet;
use crate::structs::songs_wf;
use crate::values::Document;
use crate::values::SpecVal;

verus! {

/// The module that fetches song metadata from the external source.
pub struct Jsonfetch;

impl Module for Jsonfetch {
    open spec fn spec_name() -> Seq<char> {
        "fetch_song_info"@
    }

    fn name() -> (r: String) {
        "fetch_song_info".to_owned()
    }

    fn deps() -> (r: Vec<String>) {
        proof {
            super::reveal_module_names();
        }
        let deps: Vec<String> = Vec::new();
        proof {
            assert(deps@.map_values(|s: String| s@) =~= module_deps("fetch_song_info"@));
        }
        deps
    }
}

/// Appends a freshly fetched song: the given source section and an empty
/// derived section. Earlier songs stay untouched and keep their order.
pub fn push_fetched_song(songs: &mut SongSet, source: Document)
    requires
        songs_wf(old(songs)@),
        source.wf(),
    ensures
        songs_wf(final(songs)@),
        final(songs)@.len() == old(songs)@.len() + 1,
        forall|i: int| 0 <= i < old(songs)@.len() ==> final(songs)@[i] == old(songs)@[i],
        final(songs)@.last()@.source == source@,
        final(songs)@.last()@.derived == Map::<Seq<char>, SpecVal>::empty(),
{
    songs.push(Song::from_source(source));
}

} // verus!
