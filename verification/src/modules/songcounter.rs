//! The track counter: numbers the songs in their current order and
//! records the total count, so every song ends up with `track_no` and
//! `total_tracks` in its derived section. It needs nothing done first:
//! a stage list holding only the track counter is a valid plan.

use vstd::prelude::*;
use super::ModuleStruct;
use super::module_deps;
use crate::errors::ModuleError;
use crate::structs::SongSet;
use crate::structs::Song;
use crate::structs::SpecSong;
use crate::structs::songs_view;
use crate::structs::songs_wf;
use crate::values::FieldValue;
use crate::values::SpecVal;

verus! {

pub const MODULE_NAME: &'static str = "trackcounter";

/// The registry entry of the track counter.
pub fn module_info() -> (r: ModuleStruct)
    ensures
        r.deps@.map_values(|s: String| s@) == module_deps("trackcounter"@),
{
    proof {
        super::reveal_module_names();
    }
    let deps: Vec<String> = Vec::new();
    proof {
        assert(deps@.map_values(|s: String| s@) =~= module_deps("trackcounter"@));
    }
    ModuleStruct { deps }
}

/// What running the track counter does: song `i` (zero-based) gets
/// `track_no` `i + 1` and `total_tracks` the number of songs; nothing
/// else changes, and the order is kept.
pub open spec fn spec_trackcounter(songs: Seq<SpecSong>) -> Seq<SpecSong> {
    Seq::new(
        songs.len(),
        |i: int|
            SpecSong {
                source: songs[i].source,
                derived: songs[i].derived.insert(
                    "track_no"@,
                    SpecVal::Num((i + 1) as u64),
                ).insert("total_tracks"@, SpecVal::Num(songs.len() as u64)),
            },
    )
}

/// Runs the track counter over the song list. Never fails.
pub fn run(songs: &mut SongSet) -> (r: Result<(), ModuleError>)
    requires
        songs_wf(old(songs)@),
    ensures
        r is Ok,
        songs_wf(final(songs)@),
        songs_view(final(songs)@) == spec_trackcounter(songs_view(old(songs)@)),
{
    let ghost orig = songs@;
    let count = songs.len();
    let count64: u64 = count as u64;
    let mut input: Vec<Song> = Vec::new();
    core::mem::swap(songs, &mut input);
    let mut out: Vec<Song> = Vec::new();
    while input.len() > 0
        invariant
            out@.len() + input@.len() == count,
            input@ =~= orig.subrange(out@.len() as int, count as int),
            forall|j: int| 0 <= j < out@.len() ==> (#[trigger] out@[j]).wf(),
            forall|j: int|
                0 <= j < out@.len() ==> (#[trigger] out@[j])@ == spec_trackcounter(
                    songs_view(orig),
                )[j],
        decreases input@.len(),
    {
        let ghost pos = out@.len() as int;
        let mut song = input.remove(0);
        proof {
            assert(song == orig[pos]);
            assert(input@ =~= orig.subrange(pos + 1, count as int));
        }
        let track: u64 = out.len() as u64 + 1;
        song.derived.set("track_no", FieldValue::Num(track));
        song.derived.set("total_tracks", FieldValue::Num(count64));
        out.push(song);
    }
    *songs = out;
    proof {
        assert(songs_view(final(songs)@) =~= spec_trackcounter(songs_view(orig)));
    }
    Ok(())
}

} // verus!
