use ratgames::config::{
    level_index, level_index_of, order_level_files, take_levels_flag, LevelLoadError,
};

#[test]
fn level_index_parses_only_level_json_names() {
    assert_eq!(level_index("level_0.json"), Some(0));
    assert_eq!(level_index("/packs/easy/level_12.json"), Some(12));
    assert_eq!(level_index("level_.json"), None);
    assert_eq!(level_index("level_x.json"), None);
    assert_eq!(level_index("level_1.toml"), None);
    assert_eq!(level_index("readme.json"), None);
}

#[test]
fn take_levels_flag_extracts_dir_and_keeps_the_rest_in_order() {
    let args = ["--levels", "packs/easy", "--config", "c.json", "HELLO"].map(String::from);
    let (dir, rest) = take_levels_flag(args.to_vec()).expect("parse");
    assert_eq!(dir, Some("packs/easy".to_string()));
    assert_eq!(rest, vec!["--config", "c.json", "HELLO"]);
}

#[test]
fn take_levels_flag_accepts_the_equals_form() {
    let (dir, rest) = take_levels_flag(vec!["--levels=packs/hard".to_string()]).expect("parse");
    assert_eq!(dir, Some("packs/hard".to_string()));
    assert!(rest.is_empty());
}

#[test]
fn take_levels_flag_requires_a_dir() {
    assert!(matches!(
        take_levels_flag(vec!["--levels".to_string()]),
        Err(LevelLoadError::MissingDir)
    ));
}

#[test]
fn take_levels_flag_passes_everything_through_when_absent() {
    let (dir, rest) =
        take_levels_flag(vec!["--config".to_string(), "c.json".to_string()]).expect("parse");
    assert_eq!(dir, None);
    assert_eq!(rest, vec!["--config", "c.json"]);
}

#[test]
fn level_index_of_reads_the_extension_and_stem() {
    assert_eq!(level_index_of(Some("json"), Some("level_7")), Some(7));
    assert_eq!(level_index_of(Some("toml"), Some("level_7")), None);
    assert_eq!(level_index_of(None, Some("level_7")), None);
    assert_eq!(level_index_of(Some("json"), Some("stage_7")), None);
    assert_eq!(level_index_of(Some("json"), None), None);
}

#[test]
fn level_files_come_in_index_order_and_others_are_left_out() {
    let paths = ["p/level_10.json", "p/notes.txt", "p/level_2.json", "p/level_0.json"]
        .map(String::from)
        .to_vec();
    let files = order_level_files("p", &paths).expect("levels");
    assert_eq!(
        files,
        vec![
            (0, "p/level_0.json".to_string()),
            (2, "p/level_2.json".to_string()),
            (10, "p/level_10.json".to_string()),
        ]
    );
}

#[test]
fn a_directory_without_level_files_is_refused() {
    let paths = ["p/readme.md", "p/level_x.json"].map(String::from).to_vec();
    match order_level_files("p", &paths) {
        Err(LevelLoadError::NoLevels { dir }) => assert_eq!(dir, "p"),
        other => panic!("expected NoLevels, got {:?}", other),
    }
}
