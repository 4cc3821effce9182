//! Helpers modules share when reading song fields.

use vstd::prelude::*;
use crate::errors::ModuleError;
use crate::structs::Song;
use crate::values::FieldValue;
use crate::values::SpecVal;

verus! {

/// The display name of a song: its derived title if that is text, else
/// its source title if that is text.
pub fn song_to_string(song: &Song) -> (r: Option<String>)
    requires
        song.wf(),
    ensures
        match r {
            Some(name) => {
                ||| song@.derived.contains_key("title"@) && song@.derived["title"@]
                    == SpecVal::Text(name@)
                ||| !song@.derived.contains_key("title"@) && song@.source.contains_key("title"@)
                    && song@.source["title"@] == SpecVal::Text(name@)
            },
            None => {
                &&& !(song@.derived.contains_key("title"@) && song@.derived["title"@] matches
                    SpecVal::Text(_))
                &&& song@.derived.contains_key("title"@) || !(song@.source.contains_key("title"@)
                    && song@.source["title"@] matches SpecVal::Text(_))
            },
        },
{
    match song.derived.get("title") {
        Some(v) => match v {
            FieldValue::Text(s) => Some(s.clone()),
            _ => None,
        },
        None => match song.source.get("title") {
            Some(v) => match v {
                FieldValue::Text(s) => Some(s.clone()),
                _ => None,
            },
            None => None,
        },
    }
}

/// Reads a derived field of a song, failing with the field's name when
/// it is absent.
pub fn get_songinfo_field<'a>(song: &'a Song, field: &str) -> (r: Result<
    &'a FieldValue,
    ModuleError,
>)
    requires
        song.wf(),
    ensures
        match r {
            Ok(v) => song@.derived.contains_key(field@) && v@ == song@.derived[field@],
            Err(e) => !song@.derived.contains_key(field@) && (e matches
            ModuleError::MissingField { field: f } && f@ == field@),
        },
{
    match song.derived.get(field) {
        Some(v) => Ok(v),
        None => Err(ModuleError::MissingField { field: field.to_owned() }),
    }
}

} // verus!
