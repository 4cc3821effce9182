//! The rename module: computes each song's final file name from a
//! configured template such as `%(artist) - %(title)` and records the
//! new path and the file extension. Each `%(field)` placeholder is
//! replaced by the named derived field, rendered as text with `/`
//! turned into `_`; the rest of the template is copied as it stands.
//! Moving the file on disk happens outside the library.

use vstd::prelude::*;
use super::ModuleStruct;
use super::module_deps;
use crate::errors::ModuleError;
use crate::structs::Song;
use crate::text::is_digit_char;
use crate::text::is_digit;
use crate::text::spec_decimal;
use crate::text::u64_to_string;
use crate::values::Document;
use crate::values::FieldValue;
use crate::values::SpecVal;
use vstd::string::StrSliceExecFns;
use vstd::string::StringExecFns;

verus! {

pub const MODULE_NAME: &'static str = "rename";

/// The registry entry of the rename module.
pub fn module_info() -> (r: ModuleStruct)
    ensures
        r.deps@.map_values(|s: String| s@) == module_deps("rename"@),
{
    proof {
        super::reveal_module_names();
    }
    let deps: Vec<String> = vec!["download".to_owned()];
    proof {
        assert(deps@.map_values(|s: String| s@) =~= module_deps("rename"@));
    }
    ModuleStruct { deps }
}

/// A placeholder name character: an ASCII letter, digit or underscore.
pub open spec fn is_word_char(c: char) -> bool {
    (97 <= c as u32 && c as u32 <= 122) || (65 <= c as u32 && c as u32 <= 90) || is_digit_char(c)
        || c == '_'
}

/// Tests whether a character may stand in a placeholder name.
fn is_word(c: char) -> (r: bool)
    ensures
        r == is_word_char(c),
{
    let u = c as u32;
    (97 <= u && u <= 122) || (65 <= u && u <= 90) || is_digit(c) || c == '_'
}

/// The length of the run of word characters starting at `from`.
pub open spec fn word_run(t: Seq<char>, from: int) -> int
    decreases t.len() - from,
{
    if from < 0 || from >= t.len() || !is_word_char(t[from]) {
        0
    } else {
        1 + word_run(t, from + 1)
    }
}

/// The word run ends exactly where word characters end.
proof fn lemma_word_run(t: Seq<char>, from: int, stop: int)
    requires
        0 <= from <= stop <= t.len(),
        forall|e: int| from <= e < stop ==> is_word_char(#[trigger] t[e]),
        stop == t.len() || !is_word_char(t[stop]),
    ensures
        word_run(t, from) == stop - from,
    decreases stop - from,
{
    if from < stop {
        lemma_word_run(t, from + 1, stop);
    }
}

/// The template starts with a placeholder: `%(`, a nonempty word, `)`.
pub open spec fn has_placeholder_at(t: Seq<char>) -> bool {
    &&& t.len() >= 2
    &&& t[0] == '%'
    &&& t[1] == '('
    &&& word_run(t, 2) > 0
    &&& 2 + word_run(t, 2) < t.len()
    &&& t[2 + word_run(t, 2)] == ')'
}

/// The name of the placeholder the template starts with.
pub open spec fn placeholder_name(t: Seq<char>) -> Seq<char> {
    t.subrange(2, 2 + word_run(t, 2))
}

/// The template after the placeholder it starts with.
pub open spec fn placeholder_rest(t: Seq<char>) -> Seq<char> {
    t.subrange(3 + word_run(t, 2), t.len() as int)
}

/// A field value's rendering in a file name: text as itself, numbers in
/// decimal, booleans as `true` / `false`. Null and lists have no
/// rendering and make the expansion fail.
pub open spec fn render_value(v: SpecVal) -> Seq<char> {
    match v {
        SpecVal::Bool(b) => if b {
            "true"@
        } else {
            "false"@
        },
        SpecVal::Num(n) => spec_decimal(n as nat),
        SpecVal::Text(s) => s,
        _ => Seq::empty(),
    }
}

/// The value can stand in a file name.
pub open spec fn value_renderable(v: SpecVal) -> bool {
    v is Bool || v is Num || v is Text
}

/// Path separators in a substituted value become underscores.
pub open spec fn sanitize(s: Seq<char>) -> Seq<char> {
    s.map_values(
        |c: char|
            if c == '/' {
                '_'
            } else {
                c
            },
    )
}

/// The template expands against the document: every placeholder names a
/// present, non-null, renderable field.
pub open spec fn expand_ok(t: Seq<char>, doc: Map<Seq<char>, SpecVal>) -> bool
    decreases t.len(),
{
    if t.len() == 0 {
        true
    } else if has_placeholder_at(t) {
        let name = placeholder_name(t);
        &&& doc.contains_key(name)
        &&& !(doc[name] is Null)
        &&& value_renderable(doc[name])
        &&& expand_ok(placeholder_rest(t), doc)
    } else {
        expand_ok(t.drop_first(), doc)
    }
}

/// The expansion of the template against the document: placeholders are
/// replaced by their field's sanitised rendering, all other characters
/// are copied.
pub open spec fn expand_val(t: Seq<char>, doc: Map<Seq<char>, SpecVal>) -> Seq<char>
    decreases t.len(),
{
    if t.len() == 0 {
        Seq::empty()
    } else if has_placeholder_at(t) {
        sanitize(render_value(doc[placeholder_name(t)])) + expand_val(placeholder_rest(t), doc)
    } else {
        seq![t[0]] + expand_val(t.drop_first(), doc)
    }
}

/// The template holds a placeholder of the given name.
pub open spec fn has_placeholder(t: Seq<char>, name: Seq<char>) -> bool
    decreases t.len(),
{
    if t.len() == 0 {
        false
    } else if has_placeholder_at(t) {
        placeholder_name(t) == name || has_placeholder(placeholder_rest(t), name)
    } else {
        has_placeholder(t.drop_first(), name)
    }
}

/// Renders one field value as file-name text.
fn render(v: &FieldValue) -> (r: String)
    requires
        value_renderable(v@),
    ensures
        r@ == render_value(v@),
{
    match v {
        FieldValue::Bool(b) => if *b {
            "true".to_owned()
        } else {
            "false".to_owned()
        },
        FieldValue::Num(n) => u64_to_string(*n),
        FieldValue::Text(s) => s.clone(),
        _ => {
            proof {
                assert(false);
            }
            "".to_owned()
        },
    }
}

/// Replaces `/` by `_` in a substituted value.
fn sanitize_component(s: &str) -> (r: String)
    ensures
        r@ == sanitize(s@),
{
    let len = s.unicode_len();
    let mut out = String::new();
    let mut i: usize = 0;
    while i < len
        invariant
            0 <= i <= len,
            len as nat == s@.len(),
            out@ == sanitize(s@.subrange(0, i as int)),
        decreases len - i,
    {
        if s.get_char(i) == '/' {
            proof {
                reveal_strlit("_");
            }
            out.append("_");
        } else {
            let piece = s.substring_char(i, i + 1);
            out.append(piece);
        }
        proof {
            assert(out@ =~= sanitize(s@.subrange(0, i as int + 1)));
        }
        i = i + 1;
    }
    proof {
        assert(s@.subrange(0, len as int) =~= s@);
    }
    out
}

/// Expands a file-name template against a song's derived section:
/// succeeds exactly when every placeholder names a present, non-null,
/// renderable field; a placeholder over an absent or null field is a
/// missing field, one over a list is a wrongly typed field.
pub fn expand_template(t: &str, derived: &Document) -> (r: Result<String, ModuleError>)
    requires
        derived.wf(),
    ensures
        r is Ok <==> expand_ok(t@, derived@),
        r matches Ok(s) ==> s@ == expand_val(t@, derived@),
        r matches Err(e) ==> match e {
            ModuleError::MissingField { field } => has_placeholder(t@, field@) && (
            !derived@.contains_key(field@) || derived@[field@] is Null),
            ModuleError::WrongFieldType { field } => has_placeholder(t@, field@)
                && derived@.contains_key(field@) && !value_renderable(derived@[field@]),
            _ => false,
        },
    decreases t@.len(),
{
    let len = t.unicode_len();
    if len == 0 {
        return Ok(String::new());
    }
    // Is there a placeholder at the start?
    let mut is_ph = false;
    let mut run_end: usize = 2;
    if len >= 2 && t.get_char(0) == '%' && t.get_char(1) == '(' {
        while run_end < len && is_word(t.get_char(run_end))
            invariant
                2 <= run_end <= len,
                len as nat == t@.len(),
                forall|e: int| 2 <= e < run_end ==> is_word_char(#[trigger] t@[e]),
            decreases len - run_end,
        {
            run_end = run_end + 1;
        }
        proof {
            lemma_word_run(t@, 2, run_end as int);
        }
        if run_end > 2 && run_end < len && t.get_char(run_end) == ')' {
            is_ph = true;
        }
    }
    if is_ph {
        proof {
            assert(has_placeholder_at(t@));
        }
        let name = t.substring_char(2, run_end);
        proof {
            assert(name@ == placeholder_name(t@));
        }
        let rest = t.substring_char(run_end + 1, len);
        proof {
            assert(rest@ == placeholder_rest(t@));
        }
        let piece = match derived.get(name) {
            None => {
                return Err(ModuleError::MissingField { field: name.to_owned() });
            },
            Some(v) => match v {
                FieldValue::Null => {
                    return Err(ModuleError::MissingField { field: name.to_owned() });
                },
                FieldValue::List(_) => {
                    return Err(ModuleError::WrongFieldType { field: name.to_owned() });
                },
                _ => sanitize_component(render(v).as_str()),
            },
        };
        match expand_template(rest, derived) {
            Ok(tail) => Ok(piece.concat(tail.as_str())),
            Err(e) => Err(e),
        }
    } else {
        proof {
            assert(!has_placeholder_at(t@));
        }
        let head = t.substring_char(0, 1);
        let rest = t.substring_char(1, len);
        proof {
            assert(rest@ == t@.drop_first());
            assert(head@ =~= seq![t@[0]]);
        }
        match expand_template(rest, derived) {
            Ok(tail) => Ok(head.to_owned().concat(tail.as_str())),
            Err(e) => Err(e),
        }
    }
}

/// Computes the file name for one song from the template, from the
/// song's derived fields.
pub fn get_path_for_song(path_template: &str, song: &Song) -> (r: Result<String, ModuleError>)
    requires
        song.wf(),
    ensures
        r is Ok <==> expand_ok(path_template@, song@.derived),
        r matches Ok(s) ==> s@ == expand_val(path_template@, song@.derived),
        r matches Err(e) ==> match e {
            ModuleError::MissingField { field } => has_placeholder(path_template@, field@) && (
            !song@.derived.contains_key(field@) || song@.derived[field@] is Null),
            ModuleError::WrongFieldType { field } => has_placeholder(path_template@, field@)
                && song@.derived.contains_key(field@) && !value_renderable(
                song@.derived[field@],
            ),
            _ => false,
        },
{
    expand_template(path_template, &song.derived)
}

/// The position after the last `.` of the path, or zero if it has none.
pub open spec fn ext_start(path: Seq<char>) -> int
    decreases path.len(),
{
    if path.len() == 0 {
        0
    } else if path.last() == '.' {
        path.len() as int
    } else {
        ext_start(path.drop_last())
    }
}

/// The file extension: what follows the last `.`, or the whole path
/// when it has no dot.
pub open spec fn ext_of(path: Seq<char>) -> Seq<char> {
    path.subrange(ext_start(path), path.len() as int)
}

/// The extension of a path, as executable code.
pub fn file_extension(path: &str) -> (r: String)
    ensures
        r@ == ext_of(path@),
{
    proof {
        lemma_ext_start_bounds(path@);
        lemma_ext_start_dot(path@);
    }
    let len = path.unicode_len();
    let mut start: usize = len;
    let mut done = false;
    while start > 0 && !done
        invariant
            0 <= start <= len,
            len as nat == path@.len(),
            done ==> ext_start(path@) == start,
            !done ==> forall|e: int| start <= e < len ==> path@[e] != '.',
            !done ==> ext_start(path@) <= start,
        decreases start + (if done {
            0int
        } else {
            1int
        }),
    {
        if path.get_char(start - 1) == '.' {
            proof {
                lemma_ext_start_after_dot(path@, start as int);
            }
            done = true;
        } else {
            proof {
                if ext_start(path@) == start as int {
                    assert(path@[start as int - 1] == '.');
                }
            }
            start = start - 1;
        }
    }
    proof {
        assert(ext_start(path@) == start as int);
    }
    path.substring_char(start, len).to_owned()
}

/// The extension starts right after a dot that no later dot follows.
proof fn lemma_ext_start_after_dot(path: Seq<char>, start: int)
    requires
        0 < start <= path.len(),
        path[start - 1] == '.',
        forall|e: int| start <= e < path.len() ==> path[e] != '.',
    ensures
        ext_start(path) == start,
    decreases path.len(),
{
    if start == path.len() {
    } else {
        assert(path.last() != '.');
        assert(forall|e: int|
            start <= e < path.drop_last().len() ==> path.drop_last()[e] != '.');
        assert(path.drop_last()[start - 1] == '.');
        lemma_ext_start_after_dot(path.drop_last(), start);
    }
}

/// The extension start lies within the path.
proof fn lemma_ext_start_bounds(path: Seq<char>)
    ensures
        0 <= ext_start(path) <= path.len(),
    decreases path.len(),
{
    if path.len() > 0 && path.last() != '.' {
        lemma_ext_start_bounds(path.drop_last());
    }
}

/// A positive extension start is preceded by a dot.
proof fn lemma_ext_start_dot(path: Seq<char>)
    ensures
        ext_start(path) == 0 || (0 < ext_start(path) <= path.len() && path[ext_start(path) - 1]
            == '.'),
    decreases path.len(),
{
    lemma_ext_start_bounds(path);
    if path.len() > 0 && path.last() != '.' {
        lemma_ext_start_dot(path.drop_last());
        lemma_ext_start_bounds(path.drop_last());
        if ext_start(path) > 0 {
            assert(path.drop_last()[ext_start(path) - 1] == '.');
        }
    }
}

/// The failure of reading a song's `path` field before renaming.
pub open spec fn path_read_error(der: Map<Seq<char>, SpecVal>, e: ModuleError) -> bool {
    match e {
        ModuleError::MissingField { field } => field@ == "path"@ && !der.contains_key("path"@),
        ModuleError::WrongFieldType { field } => field@ == "path"@ && der.contains_key("path"@)
            && !(der["path"@] is Text),
        _ => false,
    }
}

/// The failure of expanding a template against a derived section.
pub open spec fn template_error(
    t: Seq<char>,
    der: Map<Seq<char>, SpecVal>,
    e: ModuleError,
) -> bool {
    match e {
        ModuleError::MissingField { field } => has_placeholder(t, field@) && (!der.contains_key(
            field@,
        ) || der[field@] is Null),
        ModuleError::WrongFieldType { field } => has_placeholder(t, field@) && der.contains_key(
            field@,
        ) && !value_renderable(der[field@]),
        _ => false,
    }
}

/// Prepares one song for renaming: reads its current path, records the
/// file extension under `ext`, expands the template into the new path
/// and records it under `path`. Returns the old and the new path for
/// the caller to move the file. A song without a text `path` is
/// reported and left untouched; a failing expansion leaves the `ext`
/// field recorded, nothing else.
pub fn rename_song_fields(template: &str, song: &mut Song) -> (r: Result<
    (String, String),
    ModuleError,
>)
    requires
        old(song).wf(),
    ensures
        final(song).wf(),
        final(song)@.source == old(song)@.source,
        match r {
            Ok((old_path, new_path)) => {
                let der1 = old(song)@.derived.insert(
                    "ext"@,
                    SpecVal::Text(ext_of(old_path@)),
                );
                &&& old(song)@.derived.contains_key("path"@) && old(song)@.derived["path"@]
                    == SpecVal::Text(old_path@)
                &&& expand_ok(template@, der1)
                &&& new_path@ == expand_val(template@, der1)
                &&& final(song)@.derived == der1.insert("path"@, SpecVal::Text(new_path@))
            },
            Err(e) => {
                ||| (final(song)@ == old(song)@ && path_read_error(old(song)@.derived, e))
                ||| {
                    &&& old(song)@.derived.contains_key("path"@)
                    &&& old(song)@.derived["path"@] is Text
                    &&& final(song)@.derived == old(song)@.derived.insert(
                        "ext"@,
                        SpecVal::Text(ext_of(old(song)@.derived["path"@]->Text_0)),
                    )
                    &&& !expand_ok(template@, final(song)@.derived)
                    &&& template_error(template@, final(song)@.derived, e)
                }
            },
        },
{
    let old_path = match song.derived.get("path") {
        None => {
            return Err(ModuleError::MissingField { field: "path".to_owned() });
        },
        Some(v) => match v {
            FieldValue::Text(p) => p.clone(),
            _ => {
                return Err(ModuleError::WrongFieldType { field: "path".to_owned() });
            },
        },
    };
    let ext = file_extension(old_path.as_str());
    song.derived.set("ext", FieldValue::Text(ext));
    let new_path = match expand_template(template, &song.derived) {
        Ok(p) => p,
        Err(e) => {
            return Err(e);
        },
    };
    song.derived.set("path", FieldValue::Text(new_path.clone()));
    Ok((old_path, new_path))
}

} // verus!
