use laracli::config::{
    add_to_linked_paths, add_to_watched_paths, config_from_json, get_config_path,
    get_service_config_path, linked_paths_from_json, load_config, load_linked_paths,
    load_watched_paths, remove_from_linked_paths, remove_from_watched_paths, set_linked_paths,
    watched_paths_from_json, Config, LINKED_PATHS, WATCHED_PATHS,
};
use laracli::json::Json;
use laracli::path_set::PathSet;

fn list(paths: &[&str]) -> Vec<String> {
    paths.iter().map(|path| path.to_string()).collect()
}

fn set(paths: &[&str]) -> PathSet {
    PathSet::from_vec(list(paths))
}

fn array(items: &[&str]) -> Json {
    Json::Array(items.iter().map(|item| Json::Text(item.to_string())).collect())
}

fn object(members: Vec<(&str, Json)>) -> Json {
    Json::Object(members.into_iter().map(|(key, member)| (key.to_string(), member)).collect())
}

#[test]
fn a_written_registry_loads_as_it_was() {
    let mut config = Config::new();
    assert!(add_to_linked_paths(&mut config, "/a/b"));
    let text = config.to_json_text();
    let loaded = load_config(Some(&text));
    assert!(!loaded.rewrite);
    assert_eq!(loaded.config.linked_paths, set(&["/a/b"]));
    assert_eq!(loaded.config.linked_paths.to_vec(), list(&["/a/b"]));
    assert!(loaded.config.watched_paths.is_empty());
}

#[test]
fn the_registry_text_is_indented_json() {
    let mut config = Config::new();
    assert_eq!(config.to_json_text(), "{\n  \"watched_paths\": [],\n  \"linked_paths\": []\n}");
    add_to_watched_paths(&mut config, "C:\\www").unwrap();
    add_to_linked_paths(&mut config, "/a/b");
    add_to_linked_paths(&mut config, "D:\\projects\\\"shop\"");
    assert_eq!(
        config.to_json_text(),
        "{\n  \"watched_paths\": [\n    \"C:\\\\www\"\n  ],\n  \"linked_paths\": [\n    \"/a/b\",\n    \"D:\\\\projects\\\\\\\"shop\\\"\"\n  ]\n}"
    );
}

#[test]
fn a_registry_with_both_sets_round_trips() {
    let mut config = Config::new();
    add_to_watched_paths(&mut config, "C:\\www").unwrap();
    add_to_watched_paths(&mut config, "D:\\sites \u{e9}").unwrap();
    add_to_linked_paths(&mut config, "D:\\projects\\shop");
    let loaded = load_config(Some(&config.to_json_text()));
    assert!(!loaded.rewrite);
    assert_eq!(loaded.config.watched_paths.to_vec(), list(&["C:\\www", "D:\\sites \u{e9}"]));
    assert_eq!(loaded.config.linked_paths.to_vec(), list(&["D:\\projects\\shop"]));
}

#[test]
fn invalid_json_loads_the_default_and_asks_for_a_rewrite() {
    let loaded = load_config(Some("{ \"watched_paths\": [\"C:\\\\www\" "));
    assert!(loaded.rewrite);
    assert!(loaded.config.watched_paths.is_empty());
    assert!(loaded.config.linked_paths.is_empty());
    let repaired = loaded.config.to_json_text();
    let again = load_config(Some(&repaired));
    assert!(!again.rewrite);
    assert!(again.config.watched_paths.is_empty());
    assert!(again.config.linked_paths.is_empty());
}

#[test]
fn a_missing_file_loads_the_default_and_asks_for_a_rewrite() {
    let loaded = load_config(None);
    assert!(loaded.rewrite);
    assert!(loaded.config.watched_paths.is_empty());
    assert!(loaded.config.linked_paths.is_empty());
    let empty = load_config(Some(""));
    assert!(empty.rewrite);
    assert!(empty.config.linked_paths.is_empty());
}

#[test]
fn missing_members_are_empty_and_unknown_members_are_passed_over() {
    let loaded = load_config(Some("{\"linked_paths\": [\"/a\"], \"theme\": {\"dark\": true}}"));
    assert!(!loaded.rewrite);
    assert!(loaded.config.watched_paths.is_empty());
    assert_eq!(loaded.config.linked_paths.to_vec(), list(&["/a"]));
    let empty = load_config(Some("{}"));
    assert!(!empty.rewrite);
    assert!(empty.config.watched_paths.is_empty());
    assert!(empty.config.linked_paths.is_empty());
}

#[test]
fn paths_named_twice_collapse_on_load() {
    let loaded = load_config(Some(
        "{\"watched_paths\": [\"C:\\\\www\", \"C:\\\\www\"], \"linked_paths\": [\"/b\", \"/a\", \"/b\"]}",
    ));
    assert!(!loaded.rewrite);
    assert_eq!(loaded.config.watched_paths.to_vec(), list(&["C:\\www"]));
    assert_eq!(loaded.config.linked_paths.to_vec(), list(&["/b", "/a"]));
}

#[test]
fn watched_paths_are_saved_from_a_broken_registry() {
    let loaded = load_config(Some("{\"watched_paths\": [\"C:\\\\www\"], \"linked_paths\": 7}"));
    assert!(loaded.rewrite);
    assert_eq!(loaded.config.watched_paths.to_vec(), list(&["C:\\www"]));
    assert!(loaded.config.linked_paths.is_empty());
    let lost = load_config(Some("{\"watched_paths\": [1, 2], \"linked_paths\": [\"/a\"]}"));
    assert!(lost.rewrite);
    assert!(lost.config.watched_paths.is_empty());
    assert!(lost.config.linked_paths.is_empty());
}

#[test]
fn a_document_that_is_no_object_is_no_registry() {
    for text in ["[]", "null", "7", "\"text\"", "true", "[[\"/a\"], [\"/b\"]]"] {
        let loaded = load_config(Some(text));
        assert!(loaded.rewrite, "{}", text);
        assert!(loaded.config.watched_paths.is_empty());
        assert!(loaded.config.linked_paths.is_empty());
    }
}

#[test]
fn a_registry_is_read_from_a_document() {
    let doc = object(vec![
        ("watched_paths", array(&["C:\\www"])),
        ("extra", Json::Number),
        ("linked_paths", array(&["/a", "/b", "/a"])),
    ]);
    let loaded = config_from_json(Some(&doc));
    assert!(!loaded.rewrite);
    assert_eq!(loaded.config.watched_paths.to_vec(), list(&["C:\\www"]));
    assert_eq!(loaded.config.linked_paths.to_vec(), list(&["/a", "/b"]));
    let broken = object(vec![
        ("watched_paths", array(&["C:\\www"])),
        ("linked_paths", Json::Array(vec![Json::Text("/a".to_string()), Json::Null])),
    ]);
    let saved = config_from_json(Some(&broken));
    assert!(saved.rewrite);
    assert_eq!(saved.config.watched_paths.to_vec(), list(&["C:\\www"]));
    assert!(saved.config.linked_paths.is_empty());
    let nothing = config_from_json(None);
    assert!(nothing.rewrite);
    assert!(nothing.config.watched_paths.is_empty());
    let other = config_from_json(Some(&Json::Bool(true)));
    assert!(other.rewrite);
    assert!(other.config.watched_paths.is_empty());
}

#[test]
fn the_member_that_stands_first_is_read() {
    let doc = object(vec![("linked_paths", array(&["/a"])), ("linked_paths", array(&["/b"]))]);
    assert_eq!(linked_paths_from_json(&doc), Some(list(&["/a"])));
}

#[test]
fn the_link_reconciler_reads_the_linked_paths_as_they_stand() {
    assert_eq!(
        load_linked_paths(Some("{\"linked_paths\": [\"/b\", \"/a\", \"/b\"], \"watched_paths\": 3}")),
        Some(list(&["/b", "/a", "/b"]))
    );
    assert_eq!(load_linked_paths(Some("{\"linked_paths\": []}")), Some(Vec::new()));
    assert_eq!(load_linked_paths(Some("{\"watched_paths\": []}")), None);
    assert_eq!(load_linked_paths(Some("{\"linked_paths\": [\"/a\", 1]}")), None);
    assert_eq!(load_linked_paths(Some("{\"linked_paths\": \"/a\"}")), None);
    assert_eq!(load_linked_paths(Some("not json")), None);
    assert_eq!(load_linked_paths(Some("[]")), None);
    assert_eq!(load_linked_paths(None), None);
    assert_eq!(linked_paths_from_json(&Json::Null), None);
}

#[test]
fn the_watch_service_reads_the_watched_paths() {
    assert_eq!(
        load_watched_paths(Some("{\"watched_paths\": [\"C:\\\\www\", \"D:\\\\x\", \"C:\\\\www\"]}"))
            .to_vec(),
        list(&["C:\\www", "D:\\x"])
    );
    assert!(load_watched_paths(Some("{\"linked_paths\": [\"/a\"]}")).is_empty());
    assert!(load_watched_paths(Some("{\"watched_paths\": {}}")).is_empty());
    assert!(load_watched_paths(Some("{")).is_empty());
    assert!(load_watched_paths(None).is_empty());
    assert!(watched_paths_from_json(&array(&["C:\\www"])).is_empty());
    assert_eq!(
        watched_paths_from_json(&object(vec![("watched_paths", array(&["C:\\www"]))])).to_vec(),
        list(&["C:\\www"])
    );
}

#[test]
fn linking_a_path_twice_inserts_it_once() {
    let mut config = Config::new();
    assert!(add_to_linked_paths(&mut config, "/a"));
    assert!(!add_to_linked_paths(&mut config, "/a"));
    assert!(add_to_linked_paths(&mut config, "/b"));
    assert_eq!(config.linked_paths.to_vec(), list(&["/a", "/b"]));
    assert!(config.watched_paths.is_empty());
}

#[test]
fn watching_a_path_twice_is_an_error() {
    let mut config = Config::new();
    assert_eq!(add_to_watched_paths(&mut config, "C:\\www"), Ok(()));
    assert_eq!(
        add_to_watched_paths(&mut config, "C:\\www"),
        Err("Path already exists in watched_paths: C:\\www".to_string())
    );
    assert_eq!(config.watched_paths.to_vec(), list(&["C:\\www"]));
    assert!(config.linked_paths.is_empty());
}

#[test]
fn unwatching_an_unknown_path_is_an_error() {
    let mut config = Config::new();
    add_to_watched_paths(&mut config, "C:\\www").unwrap();
    assert_eq!(
        remove_from_watched_paths(&mut config, "C:\\other"),
        Err("Path not found in watched_paths: C:\\other".to_string())
    );
    assert_eq!(remove_from_watched_paths(&mut config, "C:\\www"), Ok(()));
    assert!(config.watched_paths.is_empty());
}

#[test]
fn unlinking_an_unknown_path_is_an_error() {
    let mut config = Config::new();
    add_to_linked_paths(&mut config, "/a");
    add_to_linked_paths(&mut config, "/b");
    assert_eq!(
        remove_from_linked_paths(&mut config, "/c"),
        Err("Path not found in linked_paths: /c".to_string())
    );
    assert_eq!(remove_from_linked_paths(&mut config, "/a"), Ok(()));
    assert_eq!(config.linked_paths.to_vec(), list(&["/b"]));
}

#[test]
fn stored_forms_replace_the_linked_paths_when_the_set_changes() {
    let mut config = Config::new();
    add_to_linked_paths(&mut config, "\\\\?\\C:\\a");
    add_to_linked_paths(&mut config, "C:\\b");
    assert!(set_linked_paths(&mut config, list(&["C:\\a", "C:\\b"])));
    assert_eq!(config.linked_paths.to_vec(), list(&["C:\\a", "C:\\b"]));
    assert!(!set_linked_paths(&mut config, list(&["C:\\b", "C:\\a", "C:\\b"])));
    assert_eq!(config.linked_paths.to_vec(), list(&["C:\\a", "C:\\b"]));
}

#[test]
fn a_copy_of_the_registry_holds_the_same_paths() {
    let mut config = Config::new();
    add_to_watched_paths(&mut config, "C:\\www").unwrap();
    add_to_linked_paths(&mut config, "/a");
    let copy = config.copy();
    add_to_linked_paths(&mut config, "/b");
    assert_eq!(copy.watched_paths.to_vec(), list(&["C:\\www"]));
    assert_eq!(copy.linked_paths.to_vec(), list(&["/a"]));
}

#[test]
fn the_command_line_looks_for_the_registry_in_order() {
    assert_eq!(
        get_config_path(true, true, Some("C:\\Users\\me")),
        Some("C:\\laracli\\config.json".to_string())
    );
    assert_eq!(
        get_config_path(false, true, None),
        Some("C:\\ProgramData\\laracli\\config.json".to_string())
    );
    assert_eq!(
        get_config_path(false, false, Some("C:\\Users\\me")),
        Some("C:\\Users\\me\\.laracli\\config.json".to_string())
    );
    assert_eq!(get_config_path(false, false, None), None);
    assert_eq!(get_config_path(true, false, None), Some("C:\\laracli\\config.json".to_string()));
}

#[test]
fn the_watch_service_looks_for_the_registry_in_order() {
    assert_eq!(
        get_service_config_path(Some("C:\\Users\\me\\.laracli\\config.json"), true, true),
        "C:\\Users\\me\\.laracli\\config.json"
    );
    assert_eq!(get_service_config_path(None, true, true), "C:\\laracli\\config.json");
    assert_eq!(get_service_config_path(None, false, true), "C:\\ProgramData\\laracli\\config.json");
    assert_eq!(get_service_config_path(None, false, false), "C:\\ProgramData\\laracli\\config.json");
}

#[test]
fn the_keys_of_the_registry_document() {
    assert_eq!(WATCHED_PATHS, "watched_paths");
    assert_eq!(LINKED_PATHS, "linked_paths");
}
