use laracli::hosts::HostAction;
use laracli::link::{LinkAction, LinkReconciler, DEBOUNCE_MILLIS};
use laracli::watch::EventKind;

fn list(paths: &[&str]) -> Vec<String> {
    paths.iter().map(|path| path.to_string()).collect()
}

fn add(name: &str) -> LinkAction {
    LinkAction::Host(HostAction::Add(name.to_string()))
}

fn remove(name: &str) -> LinkAction {
    LinkAction::Host(HostAction::Remove(name.to_string()))
}

#[test]
fn the_diff_adds_what_is_new_and_removes_what_is_gone() {
    let mut reconciler = LinkReconciler::new(Some(list(&["/a", "/b"])));
    let actions = reconciler.on_registry_change(Some(list(&["/b", "/c"])));
    assert_eq!(
        actions,
        vec![add("c"), LinkAction::ReloadProxy, remove("a"), LinkAction::ReloadProxy]
    );
    assert_eq!(reconciler.previous_paths(), list(&["/b", "/c"]));
}

#[test]
fn an_unlinked_project_loses_its_entry_and_nothing_else() {
    let mut reconciler =
        LinkReconciler::new(Some(list(&["D:\\projects\\shop", "D:\\projects\\blog"])));
    let actions = reconciler.on_registry_change(Some(list(&["D:\\projects\\blog"])));
    assert_eq!(actions, vec![remove("shop"), LinkAction::ReloadProxy]);
    assert_eq!(actions.iter().filter(|action| **action == LinkAction::ReloadProxy).count(), 1);
    assert!(actions
        .iter()
        .all(|action| matches!(action, LinkAction::Host(_) | LinkAction::ReloadProxy)));
}

#[test]
fn a_linked_project_gets_its_entry_and_a_reload() {
    let mut reconciler = LinkReconciler::new(Some(Vec::new()));
    let actions = reconciler.on_registry_change(Some(list(&["D:\\projects\\shop"])));
    assert_eq!(actions, vec![add("shop"), LinkAction::ReloadProxy]);
}

#[test]
fn each_changed_path_has_its_own_reload() {
    let mut reconciler = LinkReconciler::new(Some(list(&["/x/one", "/x/two"])));
    let actions = reconciler.on_registry_change(Some(list(&["/y/three", "/y/four"])));
    assert_eq!(
        actions,
        vec![
            add("three"),
            LinkAction::ReloadProxy,
            add("four"),
            LinkAction::ReloadProxy,
            remove("one"),
            LinkAction::ReloadProxy,
            remove("two"),
            LinkAction::ReloadProxy,
        ]
    );
}

#[test]
fn an_unreadable_registry_changes_nothing() {
    let mut reconciler = LinkReconciler::new(Some(list(&["/a"])));
    assert!(reconciler.on_registry_change(None).is_empty());
    assert_eq!(reconciler.previous_paths(), list(&["/a"]));
    let actions = reconciler.on_registry_change(Some(list(&["/a", "/b"])));
    assert_eq!(actions, vec![add("b"), LinkAction::ReloadProxy]);
}

#[test]
fn the_same_paths_need_no_step() {
    let mut reconciler = LinkReconciler::new(Some(list(&["/a", "/b"])));
    assert!(reconciler.on_registry_change(Some(list(&["/b", "/a", "/b"]))).is_empty());
    assert_eq!(reconciler.previous_paths(), list(&["/b", "/a"]));
}

#[test]
fn a_reconciler_without_a_first_list_starts_empty() {
    let mut reconciler = LinkReconciler::new(None);
    assert_eq!(reconciler.previous_paths(), Vec::<String>::new());
    let actions = reconciler.on_registry_change(Some(list(&["/a"])));
    assert_eq!(actions, vec![add("a"), LinkAction::ReloadProxy]);
}

#[test]
fn a_path_named_twice_counts_once() {
    let mut reconciler = LinkReconciler::new(Some(list(&["/a", "/a"])));
    assert_eq!(reconciler.previous_paths(), list(&["/a"]));
    let actions = reconciler.on_registry_change(Some(list(&["/c", "/c"])));
    assert_eq!(
        actions,
        vec![add("c"), LinkAction::ReloadProxy, remove("a"), LinkAction::ReloadProxy]
    );
}

#[test]
fn a_linked_path_without_a_name_is_passed_over() {
    let mut reconciler = LinkReconciler::new(Some(Vec::new()));
    let actions = reconciler.on_registry_change(Some(list(&["/", "/srv/..", "/srv/shop"])));
    assert_eq!(actions, vec![add("shop"), LinkAction::ReloadProxy]);
    assert_eq!(reconciler.previous_paths(), list(&["/", "/srv/..", "/srv/shop"]));
}

#[test]
fn the_reconciler_reacts_to_modifications() {
    assert!(LinkReconciler::reacts_to(EventKind::Modify));
    assert!(LinkReconciler::reacts_to(EventKind::RenameFrom));
    assert!(LinkReconciler::reacts_to(EventKind::RenameTo));
    assert!(!LinkReconciler::reacts_to(EventKind::Create));
    assert!(!LinkReconciler::reacts_to(EventKind::Remove));
    assert!(!LinkReconciler::reacts_to(EventKind::Other));
    assert_eq!(DEBOUNCE_MILLIS, 100);
}
