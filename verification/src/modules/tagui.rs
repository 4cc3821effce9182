//! The tag-editing module: an interactive form over the song list. The
//! terminal UI lives outside the library; here stand the pure pieces it
//! drives — reading a field as display text, ordering songs by track
//! number, sanitising numeric input, nudging a track number, applying a
//! total-tracks edit to every song, and merging edited fields back.

use vstd::prelude::*;
use super::Module;
use super::module_deps;
use crate::errors::ModuleError;
use crate::structs::Song;
use crate::structs::SongSet;
use crate::structs::SpecSong;
use crate::structs::songs_wf;
use crate::text::digits_value;
use crate::text::is_digit_char;
use crate::text::is_digit;
use crate::text::parse_u64;
use crate::text::spec_decimal;
use crate::text::u64_to_string;
use crate::values::Document;
use crate::values::FieldValue;
use crate::values::SpecVal;
use crate::values::lemma_doc_view;
use vstd::string::StrSliceExecFns;
use vstd::string::StringExecFns;

verus! {

/// The module that opens the interactive tag editor.
pub struct TagUI;

impl Module for TagUI {
    open spec fn spec_name() -> Seq<char> {
        "tagui"@
    }

    fn name() -> (r: String) {
        "tagui".to_owned()
    }

    fn deps() -> (r: Vec<String>) {
        proof {
            super::reveal_module_names();
        }
        let deps: Vec<String> = vec!["fetch_song_info".to_owned()];
        proof {
            assert(deps@.map_values(|s: String| s@) =~= module_deps("tagui"@));
        }
        deps
    }
}

/// The display text of a derived field: text as itself, zero as the
/// empty string, any other number in decimal. Meaningful only for text
/// and number fields.
pub open spec fn field_display(v: SpecVal) -> Seq<char> {
    match v {
        SpecVal::Text(s) => s,
        SpecVal::Num(n) => if n == 0 {
            Seq::empty()
        } else {
            spec_decimal(n as nat)
        },
        _ => Seq::empty(),
    }
}

/// Reads a derived field of a song as the text an edit box shows:
/// succeeds exactly on present text or number fields.
pub fn get_song_field(song: &Song, field: &str) -> (r: Result<String, ModuleError>)
    requires
        song.wf(),
    ensures
        match r {
            Ok(s) => song@.derived.contains_key(field@) && (song@.derived[field@] is Text
                || song@.derived[field@] is Num) && s@ == field_display(song@.derived[field@]),
            Err(e) => !(song@.derived.contains_key(field@) && (song@.derived[field@] is Text
                || song@.derived[field@] is Num)) && (e matches
            ModuleError::WrongFieldType { field: f } && f@ == field@),
        },
{
    match song.derived.get(field) {
        Some(v) => match v {
            FieldValue::Text(s) => Ok(s.clone()),
            FieldValue::Num(n) => {
                if *n == 0 {
                    Ok(String::new())
                } else {
                    Ok(u64_to_string(*n))
                }
            },
            _ => Err(ModuleError::WrongFieldType { field: field.to_owned() }),
        },
        None => Err(ModuleError::WrongFieldType { field: field.to_owned() }),
    }
}

/// The sort key of a song in the track list: its numeric `track_no`,
/// with songs lacking one ordered last.
pub open spec fn track_key(song: SpecSong) -> u64 {
    if song.derived.contains_key("track_no"@) && song.derived["track_no"@] is Num {
        song.derived["track_no"@]->Num_0
    } else {
        u64::MAX
    }
}

/// Orders two songs by track number; songs without one come last.
pub fn compare_songs_by_track_no(song1: &Song, song2: &Song) -> (r: core::cmp::Ordering)
    requires
        song1.wf(),
        song2.wf(),
    ensures
        r == core::cmp::Ordering::Less <==> track_key(song1@) < track_key(song2@),
        r == core::cmp::Ordering::Equal <==> track_key(song1@) == track_key(song2@),
        r == core::cmp::Ordering::Greater <==> track_key(song1@) > track_key(song2@),
{
    let k1 = song_track_key(song1);
    let k2 = song_track_key(song2);
    if k1 < k2 {
        core::cmp::Ordering::Less
    } else if k1 == k2 {
        core::cmp::Ordering::Equal
    } else {
        core::cmp::Ordering::Greater
    }
}

/// The executable form of `track_key`.
fn song_track_key(song: &Song) -> (k: u64)
    requires
        song.wf(),
    ensures
        k == track_key(song@),
{
    match song.derived.get("track_no") {
        Some(v) => match v {
            FieldValue::Num(n) => *n,
            _ => u64::MAX,
        },
        None => u64::MAX,
    }
}

/// Removes all non-numeric characters from a string.
pub fn remove_non_numeric_chars(string: &str) -> (r: String)
    ensures
        r@ == string@.filter(|c: char| is_digit_char(c)),
{
    let len = string.unicode_len();
    let mut out = String::new();
    proof {
        reveal(Seq::filter);
        assert(string@.subrange(0, 0).filter(|c: char| is_digit_char(c)) =~= Seq::<char>::empty());
    }
    let mut i: usize = 0;
    while i < len
        invariant
            0 <= i <= len,
            len as nat == string@.len(),
            out@ == string@.subrange(0, i as int).filter(|c: char| is_digit_char(c)),
        decreases len - i,
    {
        let c = string.get_char(i);
        let ghost prefix = string@.subrange(0, i as int);
        let ghost next = string@.subrange(0, i as int + 1);
        proof {
            reveal(Seq::filter);
            assert(next.drop_last() =~= prefix);
            assert(next.last() == string@[i as int]);
        }
        if is_digit(c) {
            let piece = string.substring_char(i, i + 1);
            out.append(piece);
            proof {
                reveal(Seq::filter);
                assert(next.filter(|c: char| is_digit_char(c)) == prefix.filter(
                    |c: char| is_digit_char(c),
                ).push(next.last()));
                assert(out@ =~= prefix.filter(|c: char| is_digit_char(c)).push(
                    string@[i as int],
                ));
            }
        } else {
            proof {
                reveal(Seq::filter);
                assert(next.filter(|c: char| is_digit_char(c)) == prefix.filter(
                    |c: char| is_digit_char(c),
                ));
            }
        }
        i = i + 1;
    }
    proof {
        reveal(Seq::filter);
        assert(string@.subrange(0, len as int).filter(|c: char| is_digit_char(c))
            == string@.filter(|c: char| is_digit_char(c))) by {
            assert(string@.subrange(0, len as int) =~= string@);
        }
    }
    out
}

/// The digits a year edit box keeps: the digits of the input, at most
/// four of them.
pub open spec fn year_digits(s: Seq<char>) -> Seq<char> {
    let f = s.filter(|c: char| is_digit_char(c));
    if f.len() <= 4 {
        f
    } else {
        f.subrange(0, 4)
    }
}

/// Sanitises the text typed into the year box: its digits, at most four.
pub fn sanitize_year_input(text: &str) -> (r: String)
    ensures
        r@ == year_digits(text@),
{
    let digits = remove_non_numeric_chars(text);
    if digits.as_str().unicode_len() > 4 {
        digits.as_str().substring_char(0, 4).to_owned()
    } else {
        digits
    }
}

/// How the track number of the selected song is changed from the
/// keyboard: nudged up or down, or set outright.
pub enum ChangeType {
    Relative(i32),
    Absolute(i32),
}

/// The track number after a change: a relative change is applied to the
/// current number (treated as one when absent), an absolute change
/// stands by itself; the result never goes below zero.
pub open spec fn spec_next_track_no(current: Option<u64>, change: ChangeType) -> u64 {
    match change {
        ChangeType::Relative(i) => {
            let base = (match current {
                Some(n) => n,
                None => 1u64,
            }) as i32;
            if base as int + i as int >= 0 {
                (base as int + i as int) as u64
            } else {
                0u64
            }
        },
        ChangeType::Absolute(i) => if i >= 0 {
            i as u64
        } else {
            0u64
        },
    }
}

/// Applies a keyboard change to a song's track number.
pub fn next_track_no(current: Option<u64>, change: &ChangeType) -> (r: u64)
    ensures
        r == spec_next_track_no(current, *change),
{
    match change {
        ChangeType::Relative(i) => {
            let base: i32 = #[verifier::truncate] ((match current {
                Some(n) => n,
                None => 1u64,
            }) as i32);
            let shifted: i64 = base as i64 + *i as i64;
            if shifted >= 0 {
                shifted as u64
            } else {
                0u64
            }
        },
        ChangeType::Absolute(i) => if *i >= 0 {
            *i as u64
        } else {
            0u64
        },
    }
}

/// Writes the total-tracks count typed into the edit box to every song:
/// the digits of the input must form a number; then every song's
/// `total_tracks` is set to it, and nothing else changes. Input without
/// a usable number changes nothing.
pub fn apply_total_tracks(songs: &mut SongSet, text: &str) -> (r: Option<u64>)
    requires
        songs_wf(old(songs)@),
    ensures
        songs_wf(final(songs)@),
        ({
            let digits = text@.filter(|c: char| is_digit_char(c));
            match r {
                Some(v) => {
                    &&& digits.len() > 0
                    &&& digits_value(digits) <= u64::MAX
                    &&& v == digits_value(digits)
                    &&& final(songs)@.len() == old(songs)@.len()
                    &&& forall|i: int|
                        0 <= i < old(songs)@.len() ==> (#[trigger] final(songs)@[i])@.source
                            == old(songs)@[i]@.source && final(songs)@[i]@.derived == old(
                            songs,
                        )@[i]@.derived.insert("total_tracks"@, SpecVal::Num(v))
                },
                None => {
                    &&& !(digits.len() > 0 && digits_value(digits) <= u64::MAX)
                    &&& final(songs)@ == old(songs)@
                },
            }
        }),
{
    let digits = remove_non_numeric_chars(text);
    let value = match parse_u64(digits.as_str()) {
        None => {
            proof {
                broadcast use vstd::seq_lib::group_filter_ensures;

            }
            return None;
        },
        Some(v) => v,
    };
    proof {
        broadcast use vstd::seq_lib::group_filter_ensures;

    }
    let ghost orig = songs@;
    let count = songs.len();
    let mut input: Vec<Song> = Vec::new();
    core::mem::swap(songs, &mut input);
    let mut out: Vec<Song> = Vec::new();
    while input.len() > 0
        invariant
            out@.len() + input@.len() == count,
            count == orig.len(),
            input@ =~= orig.subrange(out@.len() as int, count as int),
            songs_wf(orig),
            forall|i: int| 0 <= i < out@.len() ==> (#[trigger] out@[i]).wf(),
            forall|i: int|
                0 <= i < out@.len() ==> (#[trigger] out@[i])@.source == orig[i]@.source
                    && out@[i]@.derived == orig[i]@.derived.insert(
                    "total_tracks"@,
                    SpecVal::Num(value),
                ),
        decreases input@.len(),
    {
        let ghost pos = out@.len() as int;
        let mut song = input.remove(0);
        proof {
            assert(song == orig[pos]);
            assert(input@ =~= orig.subrange(pos + 1, count as int));
            assert(orig[pos].wf());
        }
        song.derived.set("total_tracks", FieldValue::Num(value));
        out.push(song);
    }
    *songs = out;
    Some(value)
}

/// The fields of `b` written over `a`, entry by entry.
spec fn merge_upto(
    keys: Seq<Seq<char>>,
    vals: Seq<SpecVal>,
    j: int,
    base: Map<Seq<char>, SpecVal>,
) -> Map<Seq<char>, SpecVal>
    decreases j,
{
    if j <= 0 {
        base
    } else {
        merge_upto(keys, vals, j - 1, base).insert(keys[j - 1], vals[j - 1])
    }
}

/// What `merge_upto` holds at each key.
proof fn lemma_merge_upto_at(
    keys: Seq<Seq<char>>,
    vals: Seq<SpecVal>,
    j: int,
    base: Map<Seq<char>, SpecVal>,
    x: Seq<char>,
)
    requires
        keys.len() == vals.len(),
        0 <= j <= keys.len(),
        forall|a: int, b: int|
            0 <= a < b < keys.len() ==> (#[trigger] keys[a]) != (#[trigger] keys[b]),
    ensures
        (exists|e: int| 0 <= e < j && #[trigger] keys[e] == x) ==> {
            &&& merge_upto(keys, vals, j, base).contains_key(x)
            &&& forall|e: int|
                0 <= e < j && #[trigger] keys[e] == x ==> merge_upto(keys, vals, j, base)[x]
                    == vals[e]
        },
        (!exists|e: int| 0 <= e < j && #[trigger] keys[e] == x) ==> {
            &&& merge_upto(keys, vals, j, base).contains_key(x) == base.contains_key(x)
            &&& base.contains_key(x) ==> merge_upto(keys, vals, j, base)[x] == base[x]
        },
    decreases j,
{
    if j > 0 {
        lemma_merge_upto_at(keys, vals, j - 1, base, x);
    }
}

/// Writes every field of `b` into `a`, overwriting what `a` had under
/// the same name and keeping the rest: afterwards `a` is `a` overridden
/// by `b`.
pub fn merge_b_into_a(a: &mut Document, b: &Document)
    requires
        old(a).wf(),
        b.wf(),
    ensures
        final(a).wf(),
        final(a)@ == old(a)@.union_prefer_right(b@),
{
    proof {
        lemma_doc_view(b);
    }
    let ghost keys = b.keys_in_order();
    let ghost vals = b.values_in_order();
    let ghost base = old(a)@;
    let n = b.len();
    let mut j: usize = 0;
    while j < n
        invariant
            0 <= j <= n,
            n == keys.len(),
            keys == b.keys_in_order(),
            vals == b.values_in_order(),
            b.wf(),
            a.wf(),
            a@ == merge_upto(keys, vals, j as int, base),
        decreases n - j,
    {
        let key = b.key_at(j);
        let value = b.value_at(j).duplicate();
        let owned_key = key.clone();
        a.set(owned_key.as_str(), value);
        j = j + 1;
    }
    proof {
        assert forall|x: Seq<char>| true implies #[trigger] a@.contains_key(x) == base.union_prefer_right(
            b@,
        ).contains_key(x) && (a@.contains_key(x) ==> a@[x] == base.union_prefer_right(b@)[x]) by {
            lemma_merge_upto_at(keys, vals, n as int, base, x);
            if b@.contains_key(x) {
                let e = choose|e: int| 0 <= e < keys.len() && keys[e] == x;
                assert(b@[keys[e]] == vals[e]);
            }
        }
        assert(a@ =~= base.union_prefer_right(b@));
    }
}

} // verus!
