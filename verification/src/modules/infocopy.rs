//! The infocopy module: copies fields from each song's source section
//! into its derived section, as directed by its settings — each settings
//! entry maps a derived field name to the name of the source field to
//! copy from. A source field that a song lacks is skipped for that song.

use vstd::prelude::*;
use super::ModuleStruct;
use super::module_deps;
use crate::config::GlobalContext;
use crate::config::find_settings;
use crate::config::module_settings;
use crate::errors::ModuleError;
use crate::structs::Song;
use crate::structs::SongSet;
use crate::structs::SpecSong;
use crate::structs::songs_view;
use crate::structs::songs_wf;
use crate::values::Document;
use crate::values::FieldValue;
use crate::values::SpecVal;
use crate::values::lemma_doc_view;

verus! {

pub const MODULE_NAME: &'static str = "infocopy";

/// The registry entry of the infocopy module.
pub fn module_info() -> (r: ModuleStruct)
    ensures
        r.deps@.map_values(|s: String| s@) == module_deps("infocopy"@),
{
    proof {
        super::reveal_module_names();
    }
    let deps: Vec<String> = vec!["fetch_song_info".to_owned()];
    proof {
        assert(deps@.map_values(|s: String| s@) =~= module_deps("infocopy"@));
    }
    ModuleStruct { deps }
}

/// The text payload of a value, empty for non-text values.
pub open spec fn text_of(v: SpecVal) -> Seq<char> {
    match v {
        SpecVal::Text(s) => s,
        _ => Seq::empty(),
    }
}

/// Every settings entry maps to a source field name, i.e. to text.
pub open spec fn all_text(settings: Map<Seq<char>, SpecVal>) -> bool {
    forall|k: Seq<char>| settings.contains_key(k) ==> (#[trigger] settings[k]) is Text
}

/// One song's derived section after the copy: each settings key whose
/// source field exists takes that field's value; every other field
/// keeps what it had.
pub open spec fn infocopy_derived(
    settings: Map<Seq<char>, SpecVal>,
    source: Map<Seq<char>, SpecVal>,
    derived: Map<Seq<char>, SpecVal>,
) -> Map<Seq<char>, SpecVal> {
    Map::new(
        |k: Seq<char>|
            derived.contains_key(k) || (settings.contains_key(k) && source.contains_key(
                text_of(settings[k]),
            )),
        |k: Seq<char>|
            if settings.contains_key(k) && source.contains_key(text_of(settings[k])) {
                source[text_of(settings[k])]
            } else {
                derived[k]
            },
    )
}

/// What running infocopy does to the whole song list.
pub open spec fn spec_infocopy(settings: Map<Seq<char>, SpecVal>, songs: Seq<SpecSong>) -> Seq<
    SpecSong,
> {
    Seq::new(
        songs.len(),
        |i: int|
            SpecSong {
                source: songs[i].source,
                derived: infocopy_derived(settings, songs[i].source, songs[i].derived),
            },
    )
}

/// The derived section after applying the first `j` settings entries,
/// in entry order.
spec fn copy_upto(
    keys: Seq<Seq<char>>,
    vals: Seq<SpecVal>,
    j: int,
    source: Map<Seq<char>, SpecVal>,
    derived: Map<Seq<char>, SpecVal>,
) -> Map<Seq<char>, SpecVal>
    decreases j,
{
    if j <= 0 {
        derived
    } else {
        let prev = copy_upto(keys, vals, j - 1, source, derived);
        if vals[j - 1] is Text && source.contains_key(text_of(vals[j - 1])) {
            prev.insert(keys[j - 1], source[text_of(vals[j - 1])])
        } else {
            prev
        }
    }
}

/// What `copy_upto` holds at each key: the copied value where some
/// entry among the first `j` names the key and its source field exists,
/// the original derived value everywhere else.
proof fn lemma_copy_upto_at(
    keys: Seq<Seq<char>>,
    vals: Seq<SpecVal>,
    j: int,
    source: Map<Seq<char>, SpecVal>,
    derived: Map<Seq<char>, SpecVal>,
    x: Seq<char>,
)
    requires
        keys.len() == vals.len(),
        0 <= j <= keys.len(),
        forall|a: int, b: int|
            0 <= a < b < keys.len() ==> (#[trigger] keys[a]) != (#[trigger] keys[b]),
    ensures
        (exists|e: int|
            0 <= e < j && #[trigger] keys[e] == x && vals[e] is Text && source.contains_key(
                text_of(vals[e]),
            )) ==> {
            &&& copy_upto(keys, vals, j, source, derived).contains_key(x)
            &&& forall|e: int|
                0 <= e < j && #[trigger] keys[e] == x && vals[e] is Text && source.contains_key(
                    text_of(vals[e]),
                ) ==> copy_upto(keys, vals, j, source, derived)[x] == source[text_of(vals[e])]
        },
        (!exists|e: int|
            0 <= e < j && #[trigger] keys[e] == x && vals[e] is Text && source.contains_key(
                text_of(vals[e]),
            )) ==> {
            &&& copy_upto(keys, vals, j, source, derived).contains_key(x)
                == derived.contains_key(x)
            &&& derived.contains_key(x) ==> copy_upto(keys, vals, j, source, derived)[x]
                == derived[x]
        },
    decreases j,
{
    if j > 0 {
        lemma_copy_upto_at(keys, vals, j - 1, source, derived, x);
    }
}

/// Runs the copy over every song, as directed by the given settings.
/// With at least one song, every settings entry must name a source
/// field as text: the first entry in order that does not is reported as
/// a bad setting, and the songs are left untouched. On success, every
/// song's derived section gains the copied fields; sources and order
/// never change. With no songs there is nothing to check or to copy.
pub fn apply_settings(settings: &Document, songs: &mut SongSet) -> (r: Result<(), ModuleError>)
    requires
        settings.wf(),
        songs_wf(old(songs)@),
    ensures
        songs_wf(final(songs)@),
        r is Ok <==> (old(songs)@.len() == 0 || all_text(settings@)),
        r is Ok ==> songs_view(final(songs)@) == spec_infocopy(
            settings@,
            songs_view(old(songs)@),
        ),
        r is Err ==> final(songs)@ == old(songs)@,
        r matches Err(e) ==> (e matches ModuleError::BadSetting { module, key } && module@
            == "infocopy"@ && exists|j: int|
            {
                &&& 0 <= j < settings.keys_in_order().len()
                &&& #[trigger] settings.keys_in_order()[j] == key@
                &&& !(settings.values_in_order()[j] is Text)
                &&& forall|e: int| 0 <= e < j ==> (#[trigger] settings.values_in_order()[e]) is Text
            }),
{
    proof {
        lemma_doc_view(settings);
    }
    if songs.len() == 0 {
        proof {
            assert(songs_view(final(songs)@) =~= spec_infocopy(
                settings@,
                songs_view(old(songs)@),
            ));
        }
        return Ok(());
    }
    let ghost keys = settings.keys_in_order();
    let ghost vals = settings.values_in_order();
    // First pass: every settings entry must map to a source field name.
    let sn = settings.len();
    let mut j: usize = 0;
    while j < sn
        invariant
            0 <= j <= sn,
            sn == keys.len(),
            forall|e: int| 0 <= e < j ==> (#[trigger] vals[e]) is Text,
        decreases sn - j,
    {
        match settings.value_at(j) {
            FieldValue::Text(_) => {},
            _ => {
                return Err(ModuleError::BadSetting {
                    module: "infocopy".to_owned(),
                    key: settings.key_at(j).clone(),
                });
            },
        }
        j = j + 1;
    }
    proof {
        assert forall|k: Seq<char>| settings@.contains_key(k) implies (#[trigger] settings@[k]) is Text by {
            let e = choose|e: int| 0 <= e < keys.len() && keys[e] == k;
            assert(settings@[keys[e]] == vals[e]);
        }
        assert(all_text(settings@));
    }
    // Second pass: copy, song by song, settings entry by settings entry.
    let ghost orig = songs@;
    let count = songs.len();
    let mut input: Vec<Song> = Vec::new();
    core::mem::swap(songs, &mut input);
    let mut out: Vec<Song> = Vec::new();
    while input.len() > 0
        invariant
            out@.len() + input@.len() == count,
            count == orig.len(),
            input@ =~= orig.subrange(out@.len() as int, count as int),
            songs_wf(orig),
            settings.wf(),
            sn == keys.len(),
            keys == settings.keys_in_order(),
            vals == settings.values_in_order(),
            all_text(settings@),
            forall|i: int| 0 <= i < out@.len() ==> (#[trigger] out@[i]).wf(),
            forall|i: int|
                0 <= i < out@.len() ==> (#[trigger] out@[i])@ == spec_infocopy(
                    settings@,
                    songs_view(orig),
                )[i],
        decreases input@.len(),
    {
        let ghost pos = out@.len() as int;
        let mut song = input.remove(0);
        proof {
            assert(song == orig[pos]);
            assert(input@ =~= orig.subrange(pos + 1, count as int));
            assert(orig[pos].wf());
        }
        let ghost der0 = song.derived@;
        let ghost src = song.source@;
        let mut j: usize = 0;
        while j < sn
            invariant
                0 <= j <= sn,
                sn == keys.len(),
                keys == settings.keys_in_order(),
                vals == settings.values_in_order(),
                settings.wf(),
                song.source.wf(),
                song.derived.wf(),
                song.source@ == src,
                song.derived@ == copy_upto(keys, vals, j as int, src, der0),
            decreases sn - j,
        {
            let key = settings.key_at(j);
            match settings.value_at(j) {
                FieldValue::Text(target) => {
                    match song.source.get(target.as_str()) {
                        Some(v) => {
                            let copied = v.duplicate();
                            let owned_key = key.clone();
                            song.derived.set(owned_key.as_str(), copied);
                        },
                        None => {},
                    }
                },
                _ => {
                    proof {
                        assert(vals[j as int] is Text);
                        assert(false);
                    }
                },
            }
            j = j + 1;
        }
        proof {
            lemma_doc_view(settings);
            assert forall|x: Seq<char>| true implies #[trigger] song.derived@.contains_key(x)
                == infocopy_derived(settings@, src, der0).contains_key(x) && (
            song.derived@.contains_key(x) ==> song.derived@[x] == infocopy_derived(
                settings@,
                src,
                der0,
            )[x]) by {
                lemma_copy_upto_at(keys, vals, sn as int, src, der0, x);
                if settings@.contains_key(x) {
                    let e = choose|e: int| 0 <= e < keys.len() && keys[e] == x;
                    assert(settings@[keys[e]] == vals[e]);
                }
            }
            assert(song.derived@ =~= infocopy_derived(settings@, src, der0));
        }
        out.push(song);
    }
    *songs = out;
    proof {
        assert(songs_view(final(songs)@) =~= spec_infocopy(settings@, songs_view(orig)));
    }
    Ok(())
}

/// Runs the infocopy module against the global context: reads its
/// settings — their absence is itself the module's failure — and copies
/// as they direct.
pub fn run(global: &GlobalContext, songs: &mut SongSet) -> (r: Result<(), ModuleError>)
    requires
        global.wf(),
        songs_wf(old(songs)@),
    ensures
        songs_wf(final(songs)@),
        find_settings(global.config.module@, "infocopy"@) is None <==> (r matches
            Err(ModuleError::MissingSettings { module }) && module@ == "infocopy"@),
        find_settings(global.config.module@, "infocopy"@) matches Some(m) ==> {
            &&& (r is Ok <==> (old(songs)@.len() == 0 || all_text(m)))
            &&& (r is Ok ==> songs_view(final(songs)@) == spec_infocopy(
                m,
                songs_view(old(songs)@),
            ))
            &&& (r is Err ==> final(songs)@ == old(songs)@)
        },
{
    match module_settings(&global.config, "infocopy") {
        None => Err(ModuleError::MissingSettings { module: "infocopy".to_owned() }),
        Some(settings) => apply_settings(settings, songs),
    }
}

/// Order-independence for non-conflicting modules: two copies whose
/// settings write disjoint sets of fields leave the same songs
/// whichever of the two runs first. With each module's work one
/// critical section over the song list, any scheduling of the two is
/// one of the two serial orders, so the schedules agree.
pub proof fn lemma_infocopy_infocopy_commute(
    s1: Map<Seq<char>, SpecVal>,
    s2: Map<Seq<char>, SpecVal>,
    songs: Seq<SpecSong>,
)
    requires
        all_text(s1),
        all_text(s2),
        forall|k: Seq<char>| !(#[trigger] s1.contains_key(k) && s2.contains_key(k)),
    ensures
        spec_infocopy(s1, spec_infocopy(s2, songs)) == spec_infocopy(
            s2,
            spec_infocopy(s1, songs),
        ),
{
    let lhs = spec_infocopy(s1, spec_infocopy(s2, songs));
    let rhs = spec_infocopy(s2, spec_infocopy(s1, songs));
    assert forall|i: int| 0 <= i < songs.len() implies lhs[i] == rhs[i] by {
        let src = songs[i].source;
        let der = songs[i].derived;
        let l = infocopy_derived(s1, src, infocopy_derived(s2, src, der));
        let r = infocopy_derived(s2, src, infocopy_derived(s1, src, der));
        assert forall|x: Seq<char>| true implies l.contains_key(x) == r.contains_key(x) && (
        l.contains_key(x) ==> l[x] == r[x]) by {
            assert(!(s1.contains_key(x) && s2.contains_key(x)));
        }
        assert(l =~= r);
        assert(lhs[i].source == rhs[i].source);
    }
    assert(lhs =~= rhs);
}

/// Order-independence for non-conflicting modules: a copy whose
/// settings write neither `track_no` nor `total_tracks` and the track
/// counter leave the same songs whichever of the two runs first.
pub proof fn lemma_infocopy_trackcounter_commute(
    settings: Map<Seq<char>, SpecVal>,
    songs: Seq<SpecSong>,
)
    requires
        all_text(settings),
        !settings.contains_key("track_no"@),
        !settings.contains_key("total_tracks"@),
    ensures
        crate::modules::songcounter::spec_trackcounter(spec_infocopy(settings, songs))
            == spec_infocopy(settings, crate::modules::songcounter::spec_trackcounter(songs)),
{
    let lhs = crate::modules::songcounter::spec_trackcounter(spec_infocopy(settings, songs));
    let rhs = spec_infocopy(settings, crate::modules::songcounter::spec_trackcounter(songs));
    assert(lhs.len() == songs.len());
    assert(rhs.len() == songs.len());
    assert forall|i: int| 0 <= i < songs.len() implies lhs[i] == rhs[i] by {
        let src = songs[i].source;
        let der = songs[i].derived;
        let counted = der.insert("track_no"@, SpecVal::Num((i + 1) as u64)).insert(
            "total_tracks"@,
            SpecVal::Num(songs.len() as u64),
        );
        let l = infocopy_derived(settings, src, der).insert(
            "track_no"@,
            SpecVal::Num((i + 1) as u64),
        ).insert("total_tracks"@, SpecVal::Num(songs.len() as u64));
        let r = infocopy_derived(settings, src, counted);
        assert forall|x: Seq<char>| true implies l.contains_key(x) == r.contains_key(x) && (
        l.contains_key(x) ==> l[x] == r[x]) by {
            if x == "track_no"@ || x == "total_tracks"@ {
            } else {
            }
        }
        assert(l =~= r);
        assert(lhs[i].source == rhs[i].source);
    }
    assert(lhs =~= rhs);
}

} // verus!
