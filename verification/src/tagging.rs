//! The tagging side: which tag fields are written into an audio file,
//! decided from the typed metadata record. The tag reading and saving
//! itself happens outside the library; these functions compute the
//! exact list of edits to apply.

use vstd::prelude::*;
use crate::structs::SongMetadata;
use crate::text::spec_decimal;
use crate::text::u64_to_string;

verus! {

/// One tag field to write.
#[derive(Debug, PartialEq)]
pub enum TagEdit {
    Title(String),
    Album(String),
    Artist(String),
    Genre(String),
    Year(u32),
    Track(u32),
    TrackTotal(u32),
}

/// The mathematical value of a tag edit.
pub enum SpecTagEdit {
    Title(Seq<char>),
    Album(Seq<char>),
    Artist(Seq<char>),
    Genre(Seq<char>),
    Year(u32),
    Track(u32),
    TrackTotal(u32),
}

impl TagEdit {
    /// The denotation of this edit.
    pub open spec fn view(&self) -> SpecTagEdit {
        match self {
            TagEdit::Title(s) => SpecTagEdit::Title(s@),
            TagEdit::Album(s) => SpecTagEdit::Album(s@),
            TagEdit::Artist(s) => SpecTagEdit::Artist(s@),
            TagEdit::Genre(s) => SpecTagEdit::Genre(s@),
            TagEdit::Year(y) => SpecTagEdit::Year(*y),
            TagEdit::Track(t) => SpecTagEdit::Track(*t),
            TagEdit::TrackTotal(t) => SpecTagEdit::TrackTotal(*t),
        }
    }
}

/// The denotation of a list of edits.
pub open spec fn edits_view(edits: Seq<TagEdit>) -> Seq<SpecTagEdit> {
    edits.map_values(|e: TagEdit| e@)
}

/// The edits the metadata record asks for: every present field, in the
/// order title, album, artist, year, genre; the track number and the
/// track total only where the tag does not already carry one.
pub open spec fn spec_add_metadata(
    md: SongMetadata,
    tag_has_track: bool,
    tag_has_total: bool,
) -> Seq<SpecTagEdit> {
    (match md.title {
        Some(t) => seq![SpecTagEdit::Title(t@)],
        None => Seq::empty(),
    }) + (match md.album {
        Some(a) => seq![SpecTagEdit::Album(a@)],
        None => Seq::empty(),
    }) + (match md.artist {
        Some(a) => seq![SpecTagEdit::Artist(a@)],
        None => Seq::empty(),
    }) + (match md.year {
        Some(y) => seq![SpecTagEdit::Year(y)],
        None => Seq::empty(),
    }) + (match md.genre {
        Some(g) => seq![SpecTagEdit::Genre(g@)],
        None => Seq::empty(),
    }) + (if !tag_has_track {
        match md.track_no {
            Some(t) => seq![SpecTagEdit::Track(t)],
            None => Seq::empty(),
        }
    } else {
        Seq::empty()
    }) + (if !tag_has_total {
        match md.total_tracks {
            Some(t) => seq![SpecTagEdit::TrackTotal(t)],
            None => Seq::empty(),
        }
    } else {
        Seq::empty()
    })
}

/// Computes the tag edits for one metadata record. The caller says
/// whether the file's tag already carries a track number or a track
/// total: a generated one never overwrites what a file already has.
#[verifier::rlimit(100)]
pub fn add_metadata_to_tag(
    metadata: &SongMetadata,
    tag_has_track: bool,
    tag_has_total: bool,
) -> (r: Vec<TagEdit>)
    ensures
        edits_view(r@) == spec_add_metadata(*metadata, tag_has_track, tag_has_total),
{
    let mut edits: Vec<TagEdit> = Vec::new();
    match &metadata.title {
        Some(t) => edits.push(TagEdit::Title(t.clone())),
        None => {},
    }
    match &metadata.album {
        Some(a) => edits.push(TagEdit::Album(a.clone())),
        None => {},
    }
    match &metadata.artist {
        Some(a) => edits.push(TagEdit::Artist(a.clone())),
        None => {},
    }
    match &metadata.year {
        Some(y) => edits.push(TagEdit::Year(*y)),
        None => {},
    }
    match &metadata.genre {
        Some(g) => edits.push(TagEdit::Genre(g.clone())),
        None => {},
    }
    if !tag_has_track {
        match &metadata.track_no {
            Some(t) => edits.push(TagEdit::Track(*t)),
            None => {},
        }
    }
    if !tag_has_total {
        match &metadata.total_tracks {
            Some(t) => edits.push(TagEdit::TrackTotal(*t)),
            None => {},
        }
    }
    proof {
        assert(edits_view(edits@) =~= spec_add_metadata(*metadata, tag_has_track, tag_has_total));
    }
    edits
}

/// Unwraps an optional value into the text a form shows: the value's
/// rendering, or the empty string for `None`.
pub trait UnwrapString {
    /// What the rendering is.
    spec fn spec_unwrap_string(&self) -> Seq<char>;

    /// Returns the value as a string, or the empty string for `None`.
    fn unwrap_string(self) -> (r: String)
        ensures
            r@ == self.spec_unwrap_string(),
    ;
}

impl UnwrapString for Option<u32> {
    open spec fn spec_unwrap_string(&self) -> Seq<char> {
        match self {
            Some(v) => spec_decimal(*v as nat),
            None => Seq::empty(),
        }
    }

    fn unwrap_string(self) -> (r: String) {
        match self {
            Some(v) => u64_to_string(v as u64),
            None => String::new(),
        }
    }
}

impl UnwrapString for Option<String> {
    open spec fn spec_unwrap_string(&self) -> Seq<char> {
        match self {
            Some(s) => s@,
            None => Seq::empty(),
        }
    }

    fn unwrap_string(self) -> (r: String) {
        match self {
            Some(s) => s,
            None => String::new(),
        }
    }
}

} // verus!
