use laracli::path_set::PathSet;

fn set(paths: &[&str]) -> PathSet {
    PathSet::from_vec(paths.iter().map(|path| path.to_string()).collect())
}

#[test]
fn a_new_set_is_empty() {
    let paths = PathSet::new();
    assert!(paths.is_empty());
    assert_eq!(paths.len(), 0);
    assert!(!paths.contains("/a"));
    assert_eq!(paths.to_vec(), Vec::<String>::new());
}

#[test]
fn insert_reports_new_paths() {
    let mut paths = PathSet::new();
    assert!(paths.insert("/a".to_string()));
    assert!(paths.insert("/b".to_string()));
    assert!(!paths.insert("/a".to_string()));
    assert_eq!(paths.len(), 2);
    assert_eq!(paths.to_vec(), vec!["/a", "/b"]);
    assert_eq!(paths.get(0), Some("/a"));
    assert_eq!(paths.get(1), Some("/b"));
    assert_eq!(paths.get(2), None);
    assert!(paths.contains("/a"));
    assert!(!paths.contains("/A"));
}

#[test]
fn remove_reports_held_paths() {
    let mut paths = set(&["/a", "/b", "/c"]);
    assert!(paths.remove("/b"));
    assert!(!paths.remove("/b"));
    assert!(!paths.remove("/x"));
    assert_eq!(paths.to_vec(), vec!["/a", "/c"]);
}

#[test]
fn from_vec_counts_each_path_once() {
    let paths = set(&["/b", "/a", "/b", "/c", "/a"]);
    assert_eq!(paths.to_vec(), vec!["/b", "/a", "/c"]);
    assert_eq!(paths.len(), 3);
}

#[test]
fn difference_keeps_the_order() {
    let left = set(&["/a", "/b", "/c", "/d"]);
    let right = set(&["/d", "/b", "/x"]);
    assert_eq!(left.difference(&right).to_vec(), vec!["/a", "/c"]);
    assert_eq!(right.difference(&left).to_vec(), vec!["/x"]);
    assert!(left.difference(&left).is_empty());
}

#[test]
fn sets_are_equal_in_any_order() {
    assert!(set(&["/a", "/b"]).same_set(&set(&["/b", "/a"])));
    assert!(set(&["/a", "/b"]) == set(&["/b", "/a", "/b"]));
    assert!(set(&["/a"]) != set(&["/a", "/b"]));
    assert!(set(&["/a", "/b"]) != set(&["/a"]));
    assert!(set(&[]) == PathSet::new());
}

#[test]
fn copies_hold_the_same_paths() {
    let paths = set(&["/a", "/b"]);
    let mut copy = paths.copy();
    assert_eq!(copy, paths);
    assert_eq!(paths.clone().to_vec(), vec!["/a", "/b"]);
    copy.insert("/c".to_string());
    assert_eq!(paths.len(), 2);
    assert_eq!(copy.len(), 3);
}
