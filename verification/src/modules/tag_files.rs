//! The tagging module: writes each song's derived fields into the tags
//! of its audio file. Reading and saving the file's tag happens outside
//! the library; here stands the decision of which tag fields to set.

use vstd::prelude::*;
use super::Module;
use super::module_deps;
use crate::structs::Song;
use crate::tagging::SpecTagEdit;
use crate::tagging::TagEdit;
use crate::tagging::edits_view;
use crate::values::FieldValue;
use crate::values::SpecVal;

verus! {

/// The module that writes tags into the downloaded files.
pub struct TagModule;

impl Module for TagModule {
    open spec fn spec_name() -> Seq<char> {
        "tag_files"@
    }

    fn name() -> (r: String) {
        "tag_files".to_owned()
    }

    fn deps() -> (r: Vec<String>) {
        proof {
            super::reveal_module_names();
        }
        let deps: Vec<String> = vec!["download".to_owned()];
        proof {
            assert(deps@.map_values(|s: String| s@) =~= module_deps("tag_files"@));
        }
        deps
    }
}

/// The edits one song's derived section asks for: each text field among
/// title, album, artist and genre that is present, then the numeric
/// year, track number and track total, each taken modulo the tag's
/// 32-bit range. Fields that are absent or of another shape are
/// skipped.
pub open spec fn spec_song_tag_edits(d: Map<Seq<char>, SpecVal>) -> Seq<SpecTagEdit> {
    (if d.contains_key("title"@) && d["title"@] is Text {
        seq![SpecTagEdit::Title(d["title"@]->Text_0)]
    } else {
        Seq::empty()
    }) + (if d.contains_key("album"@) && d["album"@] is Text {
        seq![SpecTagEdit::Album(d["album"@]->Text_0)]
    } else {
        Seq::empty()
    }) + (if d.contains_key("artist"@) && d["artist"@] is Text {
        seq![SpecTagEdit::Artist(d["artist"@]->Text_0)]
    } else {
        Seq::empty()
    }) + (if d.contains_key("genre"@) && d["genre"@] is Text {
        seq![SpecTagEdit::Genre(d["genre"@]->Text_0)]
    } else {
        Seq::empty()
    }) + (if d.contains_key("year"@) && d["year"@] is Num {
        seq![SpecTagEdit::Year(d["year"@]->Num_0 as u32)]
    } else {
        Seq::empty()
    }) + (if d.contains_key("track_no"@) && d["track_no"@] is Num {
        seq![SpecTagEdit::Track(d["track_no"@]->Num_0 as u32)]
    } else {
        Seq::empty()
    }) + (if d.contains_key("total_tracks"@) && d["total_tracks"@] is Num {
        seq![SpecTagEdit::TrackTotal(d["total_tracks"@]->Num_0 as u32)]
    } else {
        Seq::empty()
    })
}

/// Computes the tag edits for one song from its derived fields.
#[verifier::rlimit(100)]
pub fn song_tag_edits(song: &Song) -> (r: Vec<TagEdit>)
    requires
        song.wf(),
    ensures
        edits_view(r@) == spec_song_tag_edits(song@.derived),
{
    let mut edits: Vec<TagEdit> = Vec::new();
    match song.derived.get("title") {
        Some(v) => match v {
            FieldValue::Text(s) => edits.push(TagEdit::Title(s.clone())),
            _ => {},
        },
        None => {},
    }
    match song.derived.get("album") {
        Some(v) => match v {
            FieldValue::Text(s) => edits.push(TagEdit::Album(s.clone())),
            _ => {},
        },
        None => {},
    }
    match song.derived.get("artist") {
        Some(v) => match v {
            FieldValue::Text(s) => edits.push(TagEdit::Artist(s.clone())),
            _ => {},
        },
        None => {},
    }
    match song.derived.get("genre") {
        Some(v) => match v {
            FieldValue::Text(s) => edits.push(TagEdit::Genre(s.clone())),
            _ => {},
        },
        None => {},
    }
    match song.derived.get("year") {
        Some(v) => match v {
            FieldValue::Num(n) => edits.push(TagEdit::Year(#[verifier::truncate] (*n as u32))),
            _ => {},
        },
        None => {},
    }
    match song.derived.get("track_no") {
        Some(v) => match v {
            FieldValue::Num(n) => edits.push(TagEdit::Track(#[verifier::truncate] (*n as u32))),
            _ => {},
        },
        None => {},
    }
    match song.derived.get("total_tracks") {
        Some(v) => match v {
            FieldValue::Num(n) => edits.push(
                TagEdit::TrackTotal(#[verifier::truncate] (*n as u32)),
            ),
            _ => {},
        },
        None => {},
    }
    proof {
        assert(edits_view(edits@) =~= spec_song_tag_edits(song@.derived));
    }
    edits
}

} // verus!
