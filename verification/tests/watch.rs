use laracli::hosts::{apply_host_action, HostAction};
use laracli::path::join_path;
use laracli::watch::{
    project_name_at, EventKind, FsEvent, Observation, ObservedPath, WatchReconciler,
};

const ROOT: &str = "C:\\www";
const HOSTS_BEFORE: &str = "127.0.0.1       localhost\n::1             localhost\n";

fn seen(path: &str, is_dir: bool) -> ObservedPath {
    ObservedPath { path: path.to_string(), is_dir }
}

fn event(kind: EventKind, paths: Vec<ObservedPath>) -> FsEvent {
    FsEvent { kind, paths }
}

fn apply_all(mut hosts: String, actions: &[HostAction]) -> String {
    for action in actions {
        hosts = apply_host_action(&hosts, action, true).unwrap();
    }
    hosts
}

#[test]
fn a_created_project_directory_gets_its_host_entry() {
    let reconciler = WatchReconciler::new(ROOT.to_string());
    assert_eq!(reconciler.root(), ROOT);
    assert!(reconciler.on_start(&Vec::new()).is_empty());
    let actions = reconciler.on_event(&event(EventKind::Create, vec![seen("C:\\www\\blog", true)]));
    assert_eq!(actions, vec![HostAction::Add("blog".to_string())]);
    let hosts = apply_all(HOSTS_BEFORE.to_string(), &actions);
    assert_eq!(hosts, format!("{}127.0.0.1\tblog.test #added by laracli\n", HOSTS_BEFORE));
}

#[test]
fn a_removed_project_directory_loses_its_host_entry() {
    let reconciler = WatchReconciler::new(ROOT.to_string());
    let before = format!(
        "127.0.0.1       localhost\n127.0.0.1\tblog.test #added by laracli\n127.0.0.1\tshop.test #added by laracli\n# end\n"
    );
    let actions =
        reconciler.on_event(&event(EventKind::Remove, vec![seen("C:\\www\\blog", false)]));
    assert_eq!(actions, vec![HostAction::Remove("blog".to_string())]);
    let hosts = apply_all(before, &actions);
    assert_eq!(
        hosts,
        "127.0.0.1       localhost\n127.0.0.1\tshop.test #added by laracli\n# end\n"
    );
}

#[test]
fn a_rename_removes_the_old_name_and_adds_the_new() {
    let reconciler = WatchReconciler::new(ROOT.to_string());
    let before = format!("{}127.0.0.1\tblog.test #added by laracli\n", HOSTS_BEFORE);
    let from =
        reconciler.on_event(&event(EventKind::RenameFrom, vec![seen("C:\\www\\blog", false)]));
    let to = reconciler.on_event(&event(EventKind::RenameTo, vec![seen("C:\\www\\blog2", true)]));
    assert_eq!(from, vec![HostAction::Remove("blog".to_string())]);
    assert_eq!(to, vec![HostAction::Add("blog2".to_string())]);
    let hosts = apply_all(apply_all(before, &from), &to);
    assert!(hosts.contains("blog2.test"));
    assert!(!hosts.contains("blog.test"));
    assert_eq!(hosts, format!("{}127.0.0.1\tblog2.test #added by laracli\n", HOSTS_BEFORE));
}

#[test]
fn a_created_file_is_no_project() {
    let reconciler = WatchReconciler::new(ROOT.to_string());
    let actions =
        reconciler.on_event(&event(EventKind::Create, vec![seen("C:\\www\\notes.txt", false)]));
    assert!(actions.is_empty());
}

#[test]
fn nested_changes_are_passed_over() {
    let reconciler = WatchReconciler::new(ROOT.to_string());
    for kind in [EventKind::Create, EventKind::Remove, EventKind::RenameFrom, EventKind::RenameTo] {
        let nested = event(kind, vec![seen("C:\\www\\blog\\public", true)]);
        assert!(reconciler.on_event(&nested).is_empty());
        let outside = event(kind, vec![seen("C:\\other\\blog", true)]);
        assert!(reconciler.on_event(&outside).is_empty());
        let itself = event(kind, vec![seen("C:\\www", true)]);
        assert!(reconciler.on_event(&itself).is_empty());
    }
}

#[test]
fn a_removal_does_not_ask_whether_it_was_a_directory() {
    let reconciler = WatchReconciler::new(ROOT.to_string());
    let actions = reconciler.on_event(&event(
        EventKind::Remove,
        vec![seen("C:\\www\\blog", false), seen("C:\\www\\shop", true), seen("C:\\x\\y", false)],
    ));
    assert_eq!(
        actions,
        vec![HostAction::Remove("blog".to_string()), HostAction::Remove("shop".to_string())]
    );
}

#[test]
fn a_creation_speaks_of_each_of_its_paths() {
    let reconciler = WatchReconciler::new(ROOT.to_string());
    let actions = reconciler.on_event(&event(
        EventKind::Create,
        vec![seen("C:\\www\\a", true), seen("C:\\www\\b.txt", false), seen("C:\\www\\c", true)],
    ));
    assert_eq!(actions, vec![HostAction::Add("a".to_string()), HostAction::Add("c".to_string())]);
}

#[test]
fn a_rename_half_speaks_of_its_first_path_alone() {
    let reconciler = WatchReconciler::new(ROOT.to_string());
    let paths = vec![seen("C:\\www\\old", true), seen("C:\\www\\new", true)];
    assert_eq!(
        reconciler.on_event(&event(EventKind::RenameFrom, paths.clone())),
        vec![HostAction::Remove("old".to_string())]
    );
    assert_eq!(
        reconciler.on_event(&event(EventKind::RenameTo, paths)),
        vec![HostAction::Add("old".to_string())]
    );
    assert!(reconciler.on_event(&event(EventKind::RenameFrom, Vec::new())).is_empty());
    assert!(reconciler.on_event(&event(EventKind::RenameTo, Vec::new())).is_empty());
}

#[test]
fn a_renamed_file_gets_an_entry_like_a_directory() {
    let reconciler = WatchReconciler::new(ROOT.to_string());
    let actions =
        reconciler.on_event(&event(EventKind::RenameTo, vec![seen("C:\\www\\notes.txt", false)]));
    assert_eq!(actions, vec![HostAction::Add("notes.txt".to_string())]);
}

#[test]
fn other_events_ask_for_nothing() {
    let reconciler = WatchReconciler::new(ROOT.to_string());
    for kind in [EventKind::Modify, EventKind::Other] {
        let changed = event(kind, vec![seen("C:\\www\\blog", true)]);
        assert!(reconciler.on_event(&changed).is_empty());
    }
}

#[test]
fn a_path_without_a_name_is_dropped() {
    let reconciler = WatchReconciler::new(ROOT.to_string());
    let actions =
        reconciler.on_event(&event(EventKind::Remove, vec![seen("C:\\www\\..", false)]));
    assert!(actions.is_empty());
}

#[test]
fn a_failed_or_quiet_cycle_asks_for_nothing() {
    let reconciler = WatchReconciler::new(ROOT.to_string());
    assert!(reconciler.on_observation(&Observation::Failed).is_empty());
    assert!(reconciler.on_observation(&Observation::Quiet).is_empty());
    let changed = Observation::Changed(event(EventKind::Create, vec![seen("C:\\www\\blog", true)]));
    assert_eq!(reconciler.on_observation(&changed), vec![HostAction::Add("blog".to_string())]);
}

#[test]
fn directories_found_at_the_start_are_projects() {
    let reconciler = WatchReconciler::new("/srv/www/".to_string());
    let children =
        vec![seen("/srv/www/blog", true), seen("/srv/www/readme.md", false), seen("/srv/www/shop", true)];
    assert_eq!(
        reconciler.on_start(&children),
        vec![HostAction::Add("blog".to_string()), HostAction::Add("shop".to_string())]
    );
}

#[test]
fn a_project_is_named_by_what_lies_directly_in_the_root() {
    assert_eq!(project_name_at("C:\\www", "C:\\www\\blog"), Some("blog".to_string()));
    assert_eq!(project_name_at("C:\\www\\", "C:\\www\\blog\\"), Some("blog".to_string()));
    assert_eq!(project_name_at("C:\\www", "C:\\www\\blog\\public"), None);
    assert_eq!(project_name_at("C:\\www", "C:\\www"), None);
    assert_eq!(project_name_at("C:\\www", "C:\\www\\.."), None);
    assert_eq!(project_name_at("", "blog"), Some("blog".to_string()));
}

#[test]
fn a_name_joined_to_the_root_is_a_project_of_the_root() {
    for root in ["C:\\www", "C:\\www\\", "/srv/www", "/", "", "www"] {
        for name in ["blog", "my.site", "a b", "x"] {
            let path = join_path(root, name);
            assert_eq!(project_name_at(root, &path), Some(name.to_string()), "{:?}", path);
            let reconciler = WatchReconciler::new(root.to_string());
            let created = event(EventKind::Create, vec![seen(&path, true)]);
            assert_eq!(reconciler.on_event(&created), vec![HostAction::Add(name.to_string())]);
            let removed = event(EventKind::Remove, vec![seen(&path, false)]);
            assert_eq!(reconciler.on_event(&removed), vec![HostAction::Remove(name.to_string())]);
        }
    }
}
