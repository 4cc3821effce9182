//! The download module: hands each song's source record to the external
//! downloader and records where the audio file landed. The subprocess
//! work happens outside the library; here stand the argument list the
//! downloader is started with and the bookkeeping of the paths.

use vstd::prelude::*;
use super::Module;
use super::module_deps;
use crate::structs::Song;
use crate::structs::SongSet;
use crate::structs::songs_wf;
use crate::values::Document;
use crate::values::FieldValue;
use crate::values::SpecVal;

verus! {

/// The module that downloads each song's audio.
pub struct DownloadModule;

impl Module for DownloadModule {
    open spec fn spec_name() -> Seq<char> {
        "download"@
    }

    fn name() -> (r: String) {
        "download".to_owned()
    }

    fn deps() -> (r: Vec<String>) {
        proof {
            super::reveal_module_names();
        }
        let deps: Vec<String> = vec!["fetch_song_info".to_owned()];
        proof {
            assert(deps@.map_values(|s: String| s@) =~= module_deps("download"@));
        }
        deps
    }
}

/// The extra downloader arguments the module's settings configure: the
/// strings under `yt_dlp_args`, empty when absent or of another shape.
pub open spec fn yt_dlp_extras(config: Option<Map<Seq<char>, SpecVal>>) -> Seq<Seq<char>> {
    match config {
        Some(m) => if m.contains_key("yt_dlp_args"@) && m["yt_dlp_args"@] is List {
            m["yt_dlp_args"@]->List_0
        } else {
            Seq::empty()
        },
        None => Seq::empty(),
    }
}

/// The fixed arguments every download starts with.
pub open spec fn yt_dlp_base_args() -> Seq<Seq<char>> {
    seq!["--ignore-config"@, "-x"@, "-o"@, "%(id)s.%(ext)s"@]
}

/// The downloader's argument list: the fixed arguments, then whatever
/// strings the module's settings add under `yt_dlp_args`.
pub fn get_yt_dlp_args(module_config: Option<&Document>) -> (r: Vec<String>)
    requires
        match module_config {
            Some(d) => d.wf(),
            None => true,
        },
    ensures
        r@.map_values(|s: String| s@) == yt_dlp_base_args() + yt_dlp_extras(
            match module_config {
                Some(d) => Some(d@),
                None => None,
            },
        ),
{
    let mut args: Vec<String> = Vec::new();
    args.push("--ignore-config".to_owned());
    args.push("-x".to_owned());
    args.push("-o".to_owned());
    args.push("%(id)s.%(ext)s".to_owned());
    let ghost base = args@.map_values(|s: String| s@);
    proof {
        assert(base =~= yt_dlp_base_args());
        assert(base + Seq::<Seq<char>>::empty() =~= base);
    }
    match module_config {
        None => {},
        Some(d) => {
            match d.get("yt_dlp_args") {
                Some(v) => match v {
                    FieldValue::List(items) => {
                        let mut extras = crate::config::clone_names(items);
                        args.append(&mut extras);
                        proof {
                            assert(args@.map_values(|s: String| s@) =~= yt_dlp_base_args()
                                + yt_dlp_extras(Some(d@)));
                        }
                    },
                    _ => {
                        proof {
                            assert(args@.map_values(|s: String| s@) =~= yt_dlp_base_args()
                                + yt_dlp_extras(Some(d@)));
                        }
                    },
                },
                None => {
                    proof {
                        assert(args@.map_values(|s: String| s@) =~= yt_dlp_base_args()
                            + yt_dlp_extras(Some(d@)));
                    }
                },
            }
        },
    }
    proof {
        match module_config {
            None => {
                assert(args@.map_values(|s: String| s@) =~= yt_dlp_base_args() + yt_dlp_extras(
                    None,
                ));
            },
            Some(_) => {},
        }
    }
    args
}

/// Records where each song's file landed: song `i` gets `path` set to
/// the `i`-th name. Order, sources and all other fields are kept; with
/// fewer names than songs the remaining songs stay untouched.
pub fn set_song_paths(songs: &mut SongSet, filenames: &Vec<String>)
    requires
        songs_wf(old(songs)@),
    ensures
        songs_wf(final(songs)@),
        final(songs)@.len() == old(songs)@.len(),
        forall|i: int|
            0 <= i < old(songs)@.len() && i < filenames@.len() ==> (#[trigger] final(songs)@[i])@.source
                == old(songs)@[i]@.source && final(songs)@[i]@.derived == old(
                songs,
            )@[i]@.derived.insert("path"@, SpecVal::Text(filenames@[i]@)),
        forall|i: int|
            filenames@.len() <= i < old(songs)@.len() ==> (#[trigger] final(songs)@[i]) == old(
                songs,
            )@[i],
{
    let ghost orig = songs@;
    let count = songs.len();
    let mut input: Vec<Song> = Vec::new();
    core::mem::swap(songs, &mut input);
    let mut out: Vec<Song> = Vec::new();
    while input.len() > 0
        invariant
            out@.len() + input@.len() == count,
            count == orig.len(),
            input@ =~= orig.subrange(out@.len() as int, count as int),
            songs_wf(orig),
            forall|i: int| 0 <= i < out@.len() ==> (#[trigger] out@[i]).wf(),
            forall|i: int|
                0 <= i < out@.len() && i < filenames@.len() ==> (#[trigger] out@[i])@.source
                    == orig[i]@.source && out@[i]@.derived == orig[i]@.derived.insert(
                    "path"@,
                    SpecVal::Text(filenames@[i]@),
                ),
            forall|i: int|
                filenames@.len() <= i < out@.len() ==> (#[trigger] out@[i]) == orig[i],
        decreases input@.len(),
    {
        let ghost pos = out@.len() as int;
        let mut song = input.remove(0);
        proof {
            assert(song == orig[pos]);
            assert(input@ =~= orig.subrange(pos + 1, count as int));
            assert(orig[pos].wf());
        }
        if out.len() < filenames.len() {
            let name = filenames[out.len()].clone();
            song.derived.set("path", FieldValue::Text(name));
        }
        out.push(song);
    }
    *songs = out;
}

} // verus!
