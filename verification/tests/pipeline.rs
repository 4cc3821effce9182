//! Tests of the orchestrator: planning, stage execution, failure
//! propagation, and the end-to-end track counter run.

use musicfetch::config::Config;
use musicfetch::config::ModuleConfig;
use musicfetch::config::StageEntry;
use musicfetch::config::collect_stages;
use musicfetch::errors::ModuleError;
use musicfetch::errors::PlanError;
use musicfetch::executor::Executor;
use musicfetch::executor::ModuleOutcome;
use musicfetch::modules::get_module;
use musicfetch::modules::infocopy;
use musicfetch::modules::jsonfetch::push_fetched_song;
use musicfetch::modules::songcounter;
use musicfetch::plan::plan_stages;
use musicfetch::structs::Song;
use musicfetch::values::Document;
use musicfetch::values::FieldValue;

fn names(list: &[&str]) -> Vec<Vec<String>> {
    vec![list.iter().map(|s| s.to_string()).collect()]
}

fn two_stages(first: &[&str], second: &[&str]) -> Vec<Vec<String>> {
    vec![
        first.iter().map(|s| s.to_string()).collect(),
        second.iter().map(|s| s.to_string()).collect(),
    ]
}

fn song_with_source(fields: &[(&str, FieldValue)]) -> Song {
    let mut source = Document::new();
    for (key, value) in fields {
        source.set(key, match value {
            FieldValue::Text(s) => FieldValue::Text(s.clone()),
            FieldValue::Num(n) => FieldValue::Num(*n),
            FieldValue::Bool(b) => FieldValue::Bool(*b),
            FieldValue::Null => FieldValue::Null,
            FieldValue::List(items) => FieldValue::List(items.clone()),
        });
    }
    Song { source, derived: Document::new() }
}

fn num_field(song: &Song, key: &str) -> u64 {
    match song.derived.get(key) {
        Some(FieldValue::Num(n)) => *n,
        other => panic!("field {} is not a number: {:?}", key, other),
    }
}

#[test]
fn registry_knows_all_modules() {
    for name in [
        "fetch_song_info",
        "infocopy",
        "download",
        "trackcounter",
        "albumcover",
        "albumui",
        "tagui",
        "rename",
        "tag_files",
    ] {
        assert!(get_module(name).is_ok(), "registry lacks {}", name);
    }
    let m = get_module("tagui").unwrap();
    assert_eq!(m.deps, vec!["fetch_song_info".to_string()]);
    let m = get_module("rename").unwrap();
    assert_eq!(m.deps, vec!["download".to_string()]);
    let m = get_module("fetch_song_info").unwrap();
    assert!(m.deps.is_empty());
    let m = get_module("trackcounter").unwrap();
    assert!(m.deps.is_empty());
}

#[test]
fn registry_rejects_unknown_name() {
    match get_module("does_not_exist") {
        Err(PlanError::UnknownModule { name }) => {
            assert_eq!(name, "does_not_exist");
        }
        other => panic!("expected an unknown-module error, got {:?}", other.is_ok()),
    }
}

#[test]
fn planning_accepts_ordered_dependencies() {
    let plan = plan_stages(two_stages(&["fetch_song_info"], &["tagui", "infocopy"]))
        .expect("a dependency in an earlier stage must validate");
    assert_eq!(plan.num_stages(), 2);
    assert_eq!(plan.stage_at(1)[0], "tagui");
}

#[test]
fn planning_rejects_unknown_module_before_anything_runs() {
    let spy_ran = false;
    match plan_stages(two_stages(&["fetch_song_info"], &["mystery_module"])) {
        Err(PlanError::UnknownModule { name }) => {
            assert_eq!(name, "mystery_module");
            assert_eq!(
                PlanError::UnknownModule { name }.describe(),
                "No module named mystery_module"
            );
        }
        _ => panic!("planning must fail on an unknown module"),
    }
    // Planning failed, so the run loop is never entered and no module
    // is ever invoked.
    assert!(!spy_ran);
}

#[test]
fn planning_rejects_same_stage_dependency() {
    // tagui depends on fetch_song_info; both in the same stage.
    match plan_stages(names(&["fetch_song_info", "tagui"])) {
        Err(PlanError::DependencyOrder { module, dependency }) => {
            assert_eq!(module, "tagui");
            assert_eq!(dependency, "fetch_song_info");
        }
        _ => panic!("a same-stage dependency must be rejected"),
    }
}

#[test]
fn planning_rejects_missing_dependency() {
    match plan_stages(names(&["tagui"])) {
        Err(PlanError::DependencyOrder { module, dependency }) => {
            assert_eq!(module, "tagui");
            assert_eq!(dependency, "fetch_song_info");
        }
        _ => panic!("a dependency that is scheduled nowhere must be rejected"),
    }
}

fn ok_outcome(name: &str) -> ModuleOutcome {
    ModuleOutcome { name: name.to_string(), result: Ok(()) }
}

fn err_outcome(name: &str, message: &str) -> ModuleOutcome {
    ModuleOutcome {
        name: name.to_string(),
        result: Err(ModuleError::External { message: message.to_string() }),
    }
}

#[test]
fn execution_runs_earlier_stages_to_completion_first() {
    // Stage one: two independent modules. Stage two: one that depends
    // on the first. The executor hands out stage two only after every
    // stage-one outcome is in, so its module sees their effects.
    let plan = plan_stages(two_stages(&["fetch_song_info", "albumcover"], &["tagui"]))
        .expect("plan must validate");
    let mut executor = Executor::new(plan);
    let mut songs: Vec<Song> = Vec::new();
    let mut invoked: Vec<&str> = Vec::new();

    let stage = executor.current_stage().expect("stage one must be offered");
    assert_eq!(stage, vec!["fetch_song_info".to_string(), "albumcover".to_string()]);
    let mut outcomes = Vec::new();
    for name in &stage {
        match name.as_str() {
            "fetch_song_info" => {
                // The fetcher contributes two songs.
                let mut src = Document::new();
                src.set("title", FieldValue::Text("One".to_string()));
                push_fetched_song(&mut songs, src);
                let mut src = Document::new();
                src.set("title", FieldValue::Text("Two".to_string()));
                push_fetched_song(&mut songs, src);
                invoked.push("fetch_song_info");
            }
            "albumcover" => {
                // A stand-in for the second module's work: it records a
                // derived field on every song present so far.
                for song in songs.iter_mut() {
                    song.derived.set("cover", FieldValue::Text("cover.jpg".to_string()));
                }
                invoked.push("albumcover");
            }
            other => panic!("unexpected module {}", other),
        }
        outcomes.push(ok_outcome(name));
    }
    executor.report_stage(outcomes);

    let stage = executor.current_stage().expect("stage two must follow");
    assert_eq!(stage, vec!["tagui".to_string()]);
    // Both stage-one modules completed before the dependent module runs.
    assert!(executor.completed.contains(&"fetch_song_info".to_string()));
    assert!(executor.completed.contains(&"albumcover".to_string()));
    assert_eq!(invoked, vec!["fetch_song_info", "albumcover"]);
    // The dependent module observes both earlier modules' effects: the
    // fetcher's songs and the derived field the sibling wrote.
    assert_eq!(songs.len(), 2);
    for song in &songs {
        assert_eq!(song.derived.get("cover"), Some(&FieldValue::Text("cover.jpg".to_string())));
    }
    executor.report_stage(vec![ok_outcome("tagui")]);
    assert!(executor.current_stage().is_none());
    assert!(executor.failure.is_none());
}

#[test]
fn failure_lets_siblings_finish_and_stops_later_stages() {
    let plan = plan_stages(two_stages(&["fetch_song_info", "albumcover"], &["tagui"]))
        .expect("plan must validate");
    let mut executor = Executor::new(plan);
    let mut sibling_finished = false;
    let mut later_stage_ran = false;

    let stage = executor.current_stage().expect("stage one must be offered");
    let mut outcomes = Vec::new();
    for name in &stage {
        match name.as_str() {
            "fetch_song_info" => outcomes.push(err_outcome(name, "the fetch failed")),
            "albumcover" => {
                // The sibling runs to completion even though the other
                // module of the stage failed.
                sibling_finished = true;
                outcomes.push(ok_outcome(name));
            }
            other => panic!("unexpected module {}", other),
        }
    }
    executor.report_stage(outcomes);

    assert!(sibling_finished);
    // The failure names the failing module and its cause.
    match &executor.failure {
        Some(rt) => {
            assert_eq!(rt.module, "fetch_song_info");
            assert_eq!(rt.cause.describe(), "the fetch failed");
        }
        None => panic!("the run must have failed"),
    }
    // No later stage is offered, so its module never runs.
    if executor.current_stage().is_some() {
        later_stage_ran = true;
    }
    assert!(!later_stage_ran);
}

#[test]
fn trackcounter_numbers_three_songs_in_order() {
    // Three songs with empty derived sections; one stage holding only
    // the track counter, and no later stages.
    let mut songs: Vec<Song> = Vec::new();
    for title in ["First", "Second", "Third"] {
        let mut src = Document::new();
        src.set("title", FieldValue::Text(title.to_string()));
        push_fetched_song(&mut songs, src);
    }
    for song in &songs {
        assert_eq!(song.derived.len(), 0);
    }

    let plan = plan_stages(names(&["trackcounter"])).expect("plan must validate");
    let mut executor = Executor::new(plan);
    let stage = executor.current_stage().expect("the counter stage must be offered");
    assert_eq!(stage, vec!["trackcounter".to_string()]);
    songcounter::run(&mut songs).unwrap();
    executor.report_stage(vec![ok_outcome("trackcounter")]);
    assert!(executor.current_stage().is_none());
    assert!(executor.failure.is_none());

    assert_eq!(songs.len(), 3);
    for (i, song) in songs.iter().enumerate() {
        assert_eq!(num_field(song, "track_no"), i as u64 + 1);
        assert_eq!(num_field(song, "total_tracks"), 3);
    }
    // The order is untouched.
    for (song, title) in songs.iter().zip(["First", "Second", "Third"]) {
        match song.source.get("title") {
            Some(FieldValue::Text(s)) => assert_eq!(s, title),
            other => panic!("source title lost: {:?}", other),
        }
    }
}

fn sorted_fields(doc: &Document) -> Vec<(String, FieldValue)> {
    let mut fields = Vec::new();
    for i in 0..doc.len() {
        let key = doc.key_at(i).clone();
        let value = doc.get(key.as_str()).unwrap();
        fields.push((
            key,
            match value {
                FieldValue::Text(s) => FieldValue::Text(s.clone()),
                FieldValue::Num(n) => FieldValue::Num(*n),
                FieldValue::Bool(b) => FieldValue::Bool(*b),
                FieldValue::Null => FieldValue::Null,
                FieldValue::List(items) => FieldValue::List(items.clone()),
            },
        ));
    }
    fields.sort_by(|a, b| a.0.cmp(&b.0));
    fields
}

#[test]
fn independent_modules_commute() {
    // The copy writes `title`; the counter writes `track_no` and
    // `total_tracks`. With no shared field, running them in either
    // order produces the same documents.
    let mut settings = Document::new();
    settings.set("title", FieldValue::Text("track".to_string()));

    let build = || {
        vec![
            song_with_source(&[("track", FieldValue::Text("Alpha".to_string()))]),
            song_with_source(&[("track", FieldValue::Text("Beta".to_string()))]),
        ]
    };

    let mut counter_first = build();
    songcounter::run(&mut counter_first).unwrap();
    infocopy::apply_settings(&settings, &mut counter_first).unwrap();

    let mut copy_first = build();
    infocopy::apply_settings(&settings, &mut copy_first).unwrap();
    songcounter::run(&mut copy_first).unwrap();

    assert_eq!(counter_first.len(), copy_first.len());
    for (a, b) in counter_first.iter().zip(copy_first.iter()) {
        assert_eq!(sorted_fields(&a.derived), sorted_fields(&b.derived));
        assert_eq!(sorted_fields(&a.source), sorted_fields(&b.source));
    }
}

#[test]
fn disjoint_copies_commute() {
    let mut titles = Document::new();
    titles.set("title", FieldValue::Text("track".to_string()));
    let mut artists = Document::new();
    artists.set("artist", FieldValue::Text("channel".to_string()));

    let build = || {
        vec![song_with_source(&[
            ("track", FieldValue::Text("Gamma".to_string())),
            ("channel", FieldValue::Text("Someone".to_string())),
        ])]
    };

    let mut titles_first = build();
    infocopy::apply_settings(&titles, &mut titles_first).unwrap();
    infocopy::apply_settings(&artists, &mut titles_first).unwrap();

    let mut artists_first = build();
    infocopy::apply_settings(&artists, &mut artists_first).unwrap();
    infocopy::apply_settings(&titles, &mut artists_first).unwrap();

    for (a, b) in titles_first.iter().zip(artists_first.iter()) {
        assert_eq!(sorted_fields(&a.derived), sorted_fields(&b.derived));
    }
}

#[test]
fn collect_stages_stops_at_first_gap() {
    let config = Config {
        stages: vec![
            StageEntry { name: "stage2".to_string(), modules: vec!["trackcounter".to_string()] },
            StageEntry { name: "stage1".to_string(), modules: vec!["fetch_song_info".to_string()] },
            StageEntry { name: "stage4".to_string(), modules: vec!["tagui".to_string()] },
        ],
        module: Vec::new(),
    };
    let stages = collect_stages(&config);
    assert_eq!(
        stages,
        vec![vec!["fetch_song_info".to_string()], vec!["trackcounter".to_string()]]
    );
}

#[test]
fn collect_stages_empty_config() {
    let config = Config { stages: Vec::new(), module: Vec::new() };
    assert!(collect_stages(&config).is_empty());
}

#[test]
fn infocopy_needs_its_settings() {
    let config = Config { stages: Vec::new(), module: Vec::new() };
    let global = musicfetch::config::GlobalContext {
        args: musicfetch::cmdline::Args::default(),
        config,
    };
    let mut songs = vec![song_with_source(&[])];
    match infocopy::run(&global, &mut songs) {
        Err(ModuleError::MissingSettings { module }) => assert_eq!(module, "infocopy"),
        other => panic!("expected missing settings, got {:?}", other),
    }
}

#[test]
fn infocopy_copies_configured_fields() {
    let mut settings = Document::new();
    settings.set("title", FieldValue::Text("track".to_string()));
    settings.set("artist", FieldValue::Text("channel".to_string()));
    let mut songs = vec![song_with_source(&[
        ("track", FieldValue::Text("Song A".to_string())),
        ("channel", FieldValue::Text("Someone".to_string())),
        ("ignored", FieldValue::Num(9)),
    ])];
    infocopy::apply_settings(&settings, &mut songs).unwrap();
    match songs[0].derived.get("title") {
        Some(FieldValue::Text(s)) => assert_eq!(s, "Song A"),
        other => panic!("title not copied: {:?}", other),
    }
    match songs[0].derived.get("artist") {
        Some(FieldValue::Text(s)) => assert_eq!(s, "Someone"),
        other => panic!("artist not copied: {:?}", other),
    }
    assert!(songs[0].derived.get("ignored").is_none());
}

#[test]
fn infocopy_skips_missing_source_fields() {
    let mut settings = Document::new();
    settings.set("genre", FieldValue::Text("style".to_string()));
    let mut songs = vec![song_with_source(&[])];
    infocopy::apply_settings(&settings, &mut songs).unwrap();
    assert!(songs[0].derived.get("genre").is_none());
}

#[test]
fn infocopy_rejects_non_text_setting() {
    let mut settings = Document::new();
    settings.set("title", FieldValue::Num(3));
    let mut songs = vec![song_with_source(&[])];
    match infocopy::apply_settings(&settings, &mut songs) {
        Err(ModuleError::BadSetting { module, key }) => {
            assert_eq!(module, "infocopy");
            assert_eq!(key, "title");
        }
        other => panic!("expected a bad-setting error, got {:?}", other),
    }
    assert_eq!(songs[0].derived.len(), 0);
}
