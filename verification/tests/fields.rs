//! Tests of the field-level helpers: documents, text rendering and
//! parsing, template expansion, and the per-module field computations.

use musicfetch::errors::ModuleError;
use musicfetch::module_util::get_songinfo_field;
use musicfetch::module_util::song_to_string;
use musicfetch::modules::album::AlbumDraft;
use musicfetch::modules::album::apply_album_metadata;
use musicfetch::modules::album::collect_album_defaults;
use musicfetch::modules::download::get_yt_dlp_args;
use musicfetch::modules::rename::file_extension;
use musicfetch::modules::rename::get_path_for_song;
use musicfetch::modules::rename::rename_song_fields;
use musicfetch::modules::tag_files::song_tag_edits;
use musicfetch::modules::tagui::ChangeType;
use musicfetch::modules::tagui::apply_total_tracks;
use musicfetch::modules::tagui::compare_songs_by_track_no;
use musicfetch::modules::tagui::get_song_field;
use musicfetch::modules::tagui::merge_b_into_a;
use musicfetch::modules::tagui::next_track_no;
use musicfetch::modules::tagui::remove_non_numeric_chars;
use musicfetch::modules::tagui::sanitize_year_input;
use musicfetch::structs::AlbumMetadata;
use musicfetch::structs::Song;
use musicfetch::structs::SongMetadata;
use musicfetch::tagging::TagEdit;
use musicfetch::tagging::UnwrapString;
use musicfetch::tagging::add_metadata_to_tag;
use musicfetch::text::parse_u64;
use musicfetch::text::str_eq;
use musicfetch::text::u64_to_string;
use musicfetch::values::Document;
use musicfetch::values::FieldValue;

fn song_with_derived(fields: &[(&str, FieldValue)]) -> Song {
    let mut derived = Document::new();
    for (key, value) in fields {
        derived.set(key, match value {
            FieldValue::Text(s) => FieldValue::Text(s.clone()),
            FieldValue::Num(n) => FieldValue::Num(*n),
            FieldValue::Bool(b) => FieldValue::Bool(*b),
            FieldValue::Null => FieldValue::Null,
            FieldValue::List(items) => FieldValue::List(items.clone()),
        });
    }
    Song { source: Document::new(), derived }
}

#[test]
fn test_filename_creation() {
    let song = song_with_derived(&[
        ("title", FieldValue::Text("Test Song".to_string())),
        ("artist", FieldValue::Text("Testartist".to_string())),
        ("year", FieldValue::Num(1994)),
    ]);

    assert_eq!(
        "Testartist - Test Song",
        get_path_for_song("%(artist) - %(title)", &song).unwrap()
    );
    assert_eq!(
        "1994 Test Song",
        get_path_for_song("%(year) %(title)", &song).unwrap()
    );
    assert_eq!("lalala", get_path_for_song("lalala", &song).unwrap());
}

#[test]
fn template_reports_missing_and_unusable_fields() {
    let song = song_with_derived(&[
        ("gone", FieldValue::Null),
        ("many", FieldValue::List(vec!["a".to_string()])),
    ]);
    match get_path_for_song("%(title)", &song) {
        Err(ModuleError::MissingField { field }) => assert_eq!(field, "title"),
        other => panic!("expected a missing field, got {:?}", other),
    }
    match get_path_for_song("%(gone)", &song) {
        Err(ModuleError::MissingField { field }) => assert_eq!(field, "gone"),
        other => panic!("a null field must count as missing, got {:?}", other),
    }
    match get_path_for_song("%(many)", &song) {
        Err(ModuleError::WrongFieldType { field }) => assert_eq!(field, "many"),
        other => panic!("a list field must be unusable, got {:?}", other),
    }
}

#[test]
fn template_sanitises_separators_and_renders_booleans() {
    let song = song_with_derived(&[
        ("title", FieldValue::Text("AC/DC song".to_string())),
        ("flag", FieldValue::Bool(true)),
    ]);
    assert_eq!("AC_DC song", get_path_for_song("%(title)", &song).unwrap());
    assert_eq!("true", get_path_for_song("%(flag)", &song).unwrap());
    // An unclosed or empty placeholder is copied as literal text.
    assert_eq!("%(title", get_path_for_song("%(title", &song).unwrap());
    assert_eq!("%()", get_path_for_song("%()", &song).unwrap());
}

#[test]
fn file_extension_takes_the_last_dot() {
    assert_eq!("mp3", file_extension("song.mp3"));
    assert_eq!("opus", file_extension("a.b/song.tar.opus"));
    assert_eq!("noext", file_extension("noext"));
    assert_eq!("", file_extension("trailing."));
}

#[test]
fn rename_records_extension_and_new_path() {
    let mut song = song_with_derived(&[
        ("path", FieldValue::Text("xYz123.mp3".to_string())),
        ("title", FieldValue::Text("Test Song".to_string())),
    ]);
    let (old_path, new_path) = rename_song_fields("%(title).%(ext)", &mut song).unwrap();
    assert_eq!(old_path, "xYz123.mp3");
    assert_eq!(new_path, "Test Song.mp3");
    assert_eq!(song.derived.get("ext"), Some(&FieldValue::Text("mp3".to_string())));
    assert_eq!(
        song.derived.get("path"),
        Some(&FieldValue::Text("Test Song.mp3".to_string()))
    );
}

#[test]
fn rename_without_path_reports_it() {
    let mut song = song_with_derived(&[]);
    match rename_song_fields("%(title)", &mut song) {
        Err(ModuleError::MissingField { field }) => assert_eq!(field, "path"),
        other => panic!("expected the path to be missing, got {:?}", other),
    }
}

#[test]
fn decimal_rendering_and_parsing() {
    assert_eq!("0", u64_to_string(0));
    assert_eq!("1994", u64_to_string(1994));
    assert_eq!("18446744073709551615", u64_to_string(u64::MAX));
    assert_eq!(Some(7), parse_u64("007"));
    assert_eq!(Some(u64::MAX), parse_u64("18446744073709551615"));
    assert_eq!(None, parse_u64(""));
    assert_eq!(None, parse_u64("12a"));
    assert_eq!(None, parse_u64("18446744073709551616"));
    assert!(str_eq("abc", "abc"));
    assert!(!str_eq("abc", "abd"));
    assert!(!str_eq("abc", "ab"));
}

#[test]
fn digit_filtering_and_year_input() {
    assert_eq!("1234", remove_non_numeric_chars("x1y2z3 4"));
    assert_eq!("", remove_non_numeric_chars("none"));
    assert_eq!("1994", sanitize_year_input("1x9y9z4extra5"));
    assert_eq!("19", sanitize_year_input("19"));
}

#[test]
fn song_fields_display_as_edit_box_text() {
    let song = song_with_derived(&[
        ("title", FieldValue::Text("Hello".to_string())),
        ("track_no", FieldValue::Num(0)),
        ("year", FieldValue::Num(2001)),
        ("flag", FieldValue::Bool(false)),
    ]);
    assert_eq!("Hello", get_song_field(&song, "title").unwrap());
    assert_eq!("", get_song_field(&song, "track_no").unwrap());
    assert_eq!("2001", get_song_field(&song, "year").unwrap());
    match get_song_field(&song, "flag") {
        Err(ModuleError::WrongFieldType { field }) => assert_eq!(field, "flag"),
        other => panic!("a boolean has no display text, got {:?}", other),
    }
    match get_song_field(&song, "absent") {
        Err(ModuleError::WrongFieldType { field }) => assert_eq!(field, "absent"),
        other => panic!("an absent field has no display text, got {:?}", other),
    }
}

#[test]
fn songs_order_by_track_number() {
    let first = song_with_derived(&[("track_no", FieldValue::Num(1))]);
    let second = song_with_derived(&[("track_no", FieldValue::Num(2))]);
    let unnumbered = song_with_derived(&[]);
    assert_eq!(std::cmp::Ordering::Less, compare_songs_by_track_no(&first, &second));
    assert_eq!(std::cmp::Ordering::Equal, compare_songs_by_track_no(&first, &first));
    assert_eq!(std::cmp::Ordering::Greater, compare_songs_by_track_no(&second, &first));
    assert_eq!(std::cmp::Ordering::Less, compare_songs_by_track_no(&first, &unnumbered));
}

#[test]
fn total_tracks_edit_applies_to_every_song() {
    let mut songs = vec![
        song_with_derived(&[("title", FieldValue::Text("A".to_string()))]),
        song_with_derived(&[]),
    ];
    assert_eq!(Some(12), apply_total_tracks(&mut songs, " 1x2 "));
    for song in &songs {
        assert_eq!(song.derived.get("total_tracks"), Some(&FieldValue::Num(12)));
    }
    assert_eq!(None, apply_total_tracks(&mut songs, "no digits"));
    assert_eq!(songs[0].derived.get("total_tracks"), Some(&FieldValue::Num(12)));
}

#[test]
fn track_number_changes_clamp_at_zero() {
    assert_eq!(5, next_track_no(Some(4), &ChangeType::Relative(1)));
    assert_eq!(3, next_track_no(Some(4), &ChangeType::Relative(-1)));
    assert_eq!(0, next_track_no(Some(2), &ChangeType::Relative(-5)));
    assert_eq!(0, next_track_no(None, &ChangeType::Relative(-1)));
    assert_eq!(2, next_track_no(None, &ChangeType::Relative(1)));
    assert_eq!(7, next_track_no(Some(1), &ChangeType::Absolute(7)));
    assert_eq!(0, next_track_no(Some(1), &ChangeType::Absolute(-7)));
}

#[test]
fn merging_overrides_and_extends() {
    let mut a = Document::new();
    a.set("title", FieldValue::Text("Old".to_string()));
    a.set("year", FieldValue::Num(1990));
    let mut b = Document::new();
    b.set("title", FieldValue::Text("New".to_string()));
    b.set("genre", FieldValue::Text("Jazz".to_string()));
    merge_b_into_a(&mut a, &b);
    assert_eq!(a.get("title"), Some(&FieldValue::Text("New".to_string())));
    assert_eq!(a.get("year"), Some(&FieldValue::Num(1990)));
    assert_eq!(a.get("genre"), Some(&FieldValue::Text("Jazz".to_string())));
    assert_eq!(a.len(), 3);
}

#[test]
fn album_defaults_take_the_last_value_seen() {
    let songs = vec![
        song_with_derived(&[
            ("album", FieldValue::Text("First Album".to_string())),
            ("year", FieldValue::Num(1999)),
        ]),
        song_with_derived(&[
            ("album", FieldValue::Text("Second Album".to_string())),
            ("artist", FieldValue::Text("Band".to_string())),
        ]),
    ];
    let draft = collect_album_defaults(&songs);
    assert_eq!(draft.title, "Second Album");
    assert_eq!(draft.artist, "Band");
    assert_eq!(draft.year, Some(1999));
    assert_eq!(draft.genre, "");
}

#[test]
fn album_metadata_reaches_every_song() {
    let mut songs = vec![song_with_derived(&[]), song_with_derived(&[])];
    let draft = AlbumDraft {
        title: "The Album".to_string(),
        artist: "The Artist".to_string(),
        year: Some(2020),
        genre: "Rock".to_string(),
    };
    apply_album_metadata(&draft, &mut songs);
    for song in &songs {
        assert_eq!(song.derived.get("album"), Some(&FieldValue::Text("The Album".to_string())));
        assert_eq!(song.derived.get("artist"), Some(&FieldValue::Text("The Artist".to_string())));
        assert_eq!(song.derived.get("year"), Some(&FieldValue::Num(2020)));
        assert_eq!(song.derived.get("genre"), Some(&FieldValue::Text("Rock".to_string())));
    }
}

#[test]
fn downloader_arguments_include_configured_extras() {
    let base = get_yt_dlp_args(None);
    assert_eq!(base, vec!["--ignore-config", "-x", "-o", "%(id)s.%(ext)s"]);
    let mut settings = Document::new();
    settings.set(
        "yt_dlp_args",
        FieldValue::List(vec!["--audio-format".to_string(), "mp3".to_string()]),
    );
    let with_extras = get_yt_dlp_args(Some(&settings));
    assert_eq!(
        with_extras,
        vec!["--ignore-config", "-x", "-o", "%(id)s.%(ext)s", "--audio-format", "mp3"]
    );
    let mut odd = Document::new();
    odd.set("yt_dlp_args", FieldValue::Text("not a list".to_string()));
    assert_eq!(get_yt_dlp_args(Some(&odd)), base);
}

#[test]
fn download_paths_land_per_song() {
    let mut songs = vec![song_with_derived(&[]), song_with_derived(&[])];
    let names = vec!["one.mp3".to_string(), "two.mp3".to_string()];
    musicfetch::modules::download::set_song_paths(&mut songs, &names);
    assert_eq!(songs[0].derived.get("path"), Some(&FieldValue::Text("one.mp3".to_string())));
    assert_eq!(songs[1].derived.get("path"), Some(&FieldValue::Text("two.mp3".to_string())));
}

#[test]
fn tag_edits_follow_the_derived_fields() {
    let song = song_with_derived(&[
        ("title", FieldValue::Text("T".to_string())),
        ("artist", FieldValue::Text("A".to_string())),
        ("year", FieldValue::Num(1994)),
        ("track_no", FieldValue::Num(2)),
        ("total_tracks", FieldValue::Num(10)),
        ("album", FieldValue::Bool(true)),
    ]);
    let edits = song_tag_edits(&song);
    assert_eq!(
        edits,
        vec![
            TagEdit::Title("T".to_string()),
            TagEdit::Artist("A".to_string()),
            TagEdit::Year(1994),
            TagEdit::Track(2),
            TagEdit::TrackTotal(10),
        ]
    );
}

#[test]
fn metadata_edits_respect_existing_track_fields() {
    let md = SongMetadata {
        fulltitle: "whatever".to_string(),
        title: Some("T".to_string()),
        album: None,
        artist: Some("A".to_string()),
        year: Some(2000),
        genre: None,
        track_no: Some(3),
        total_tracks: Some(9),
        channel: None,
        description: None,
    };
    let edits = add_metadata_to_tag(&md, false, false);
    assert_eq!(
        edits,
        vec![
            TagEdit::Title("T".to_string()),
            TagEdit::Artist("A".to_string()),
            TagEdit::Year(2000),
            TagEdit::Track(3),
            TagEdit::TrackTotal(9),
        ]
    );
    // A file that already carries track numbers keeps them.
    let edits = add_metadata_to_tag(&md, true, true);
    assert_eq!(
        edits,
        vec![
            TagEdit::Title("T".to_string()),
            TagEdit::Artist("A".to_string()),
            TagEdit::Year(2000),
        ]
    );
}

#[test]
fn applying_album_metadata_to_the_typed_record() {
    let mut md = SongMetadata::default();
    md.title = Some("Keep".to_string());
    md.apply(AlbumMetadata {
        album_title: "Album".to_string(),
        artist: "Artist".to_string(),
        year: 2005,
        genre: "Folk".to_string(),
    });
    assert_eq!(md.album, Some("Album".to_string()));
    assert_eq!(md.artist, Some("Artist".to_string()));
    assert_eq!(md.year, Some(2005));
    assert_eq!(md.genre, Some("Folk".to_string()));
    assert_eq!(md.title, Some("Keep".to_string()));
}

#[test]
fn unwrap_string_renders_options() {
    assert_eq!("5", Some(5u32).unwrap_string());
    assert_eq!("", None::<u32>.unwrap_string());
    assert_eq!("text", Some("text".to_string()).unwrap_string());
    assert_eq!("", None::<String>.unwrap_string());
}

#[test]
fn song_names_prefer_the_edited_title() {
    let mut song = song_with_derived(&[]);
    song.source.set("title", FieldValue::Text("Fetched".to_string()));
    assert_eq!(Some("Fetched".to_string()), song_to_string(&song));
    song.derived.set("title", FieldValue::Text("Edited".to_string()));
    assert_eq!(Some("Edited".to_string()), song_to_string(&song));
    let nameless = song_with_derived(&[]);
    assert_eq!(None, song_to_string(&nameless));
}

#[test]
fn derived_fields_are_read_by_name() {
    let song = song_with_derived(&[("path", FieldValue::Text("x.mp3".to_string()))]);
    assert_eq!(
        get_songinfo_field(&song, "path").unwrap(),
        &FieldValue::Text("x.mp3".to_string())
    );
    match get_songinfo_field(&song, "other") {
        Err(ModuleError::MissingField { field }) => assert_eq!(field, "other"),
        other => panic!("expected a missing field, got {:?}", other),
    }
}

#[test]
fn error_descriptions_name_the_subject() {
    let e = ModuleError::MissingSettings { module: "infocopy".to_string() };
    assert_eq!("Module infocopy has no settings", e.describe());
    let e = musicfetch::errors::PlanError::DependencyOrder {
        module: "tagui".to_string(),
        dependency: "fetch_song_info".to_string(),
    };
    assert_eq!(
        "Module tagui depends on fetch_song_info but it hasn't run. \
         Please move fetch_song_info to an earlier stage.",
        e.describe()
    );
}
