use dirmon::classifier::{ClassifiedEvent, EventClassifier};
use dirmon::path::{file_name, is_child_of, split_path};
use dirmon::registry::PathRegistry;
use dirmon::resolver::{find_by_name, TreeEntry};

fn s(x: &str) -> String {
    x.to_string()
}

fn dir(p: &str) -> TreeEntry {
    TreeEntry { path: s(p), is_dir: true }
}

fn file(p: &str) -> TreeEntry {
    TreeEntry { path: s(p), is_dir: false }
}

fn monitor() -> EventClassifier {
    EventClassifier::new(s("/root"), s("New folder"))
}

#[test]
fn split_path_parts() {
    assert_eq!(split_path(&s("/root/Beta")), (Some(s("/root")), s("Beta")));
    assert_eq!(split_path(&s("/root/Sub/Alpha")), (Some(s("/root/Sub")), s("Alpha")));
    assert_eq!(split_path(&s("Beta")), (None, s("Beta")));
    assert_eq!(split_path(&s("/root/")), (Some(s("/root")), s("")));
    assert_eq!(file_name(&s("./New folder")), s("New folder"));
}

#[test]
fn child_of_root() {
    assert!(is_child_of(&s("/root/Beta"), &s("/root")));
    assert!(is_child_of(&s("./Beta"), &s(".")));
    assert!(!is_child_of(&s("/root/Sub/Alpha"), &s("/root")));
    assert!(!is_child_of(&s("/root/"), &s("/root")));
    assert!(!is_child_of(&s("/rootBeta"), &s("/root")));
    assert!(!is_child_of(&s("Beta"), &s("/root")));
}

#[test]
fn registry_operations() {
    let mut r = PathRegistry::new();
    assert_eq!(r.len(), 0);
    r.insert(s("/root/A"));
    r.insert(s("/root/B"));
    r.insert(s("/root/A"));
    assert_eq!(r.len(), 2);
    assert!(r.contains(&s("/root/A")));
    assert!(r.remove(&s("/root/A")));
    assert!(!r.remove(&s("/root/A")));
    assert!(!r.contains(&s("/root/A")));
    assert!(r.contains(&s("/root/B")));
    assert_eq!(r.len(), 1);
}

#[test]
fn find_by_name_first_directory() {
    let entries = vec![
        dir("/root"),
        file("/root/Alpha"),
        dir("/root/Sub"),
        dir("/root/Sub/Alpha"),
        dir("/root/Other/Alpha"),
    ];
    assert_eq!(find_by_name(&s("Alpha"), &entries), Some(s("/root/Sub/Alpha")));
    assert_eq!(find_by_name(&s("Sub"), &entries), Some(s("/root/Sub")));
    assert_eq!(find_by_name(&s("Gamma"), &entries), None);
    assert_eq!(find_by_name(&s("Alpha"), &vec![]), None);
}

#[test]
fn moved_into_subdirectory() {
    let mut m = monitor();
    m.seed(s("/root/Alpha"), true);
    let entries = vec![dir("/root"), dir("/root/Sub"), dir("/root/Sub/Alpha")];
    let r = m.on_remove_in_tree(&s("/root/Alpha"), &entries);
    assert_eq!(r, Some(ClassifiedEvent::TopLevelMoved(s("Alpha"), s("/root/Sub/Alpha"))));
    assert_eq!(m.known_count(), 0);
}

#[test]
fn created_at_top_level() {
    let mut m = monitor();
    let r = m.on_create(&s("/root/Beta"), true);
    assert_eq!(r, Some(ClassifiedEvent::TopLevelCreated(s("/root/Beta"))));
    assert_eq!(m.known_count(), 1);
    assert!(m.is_known(&s("/root/Beta")));
}

#[test]
fn create_of_file_ignored() {
    let mut m = monitor();
    assert_eq!(m.on_create(&s("/root/notes.txt"), false), None);
    assert_eq!(m.known_count(), 0);
}

#[test]
fn placeholder_create_and_remove_squelched() {
    let mut m = monitor();
    assert_eq!(m.on_create(&s("/root/New folder"), true), None);
    assert!(m.is_known(&s("/root/New folder")));
    assert_eq!(m.on_remove_in_tree(&s("/root/New folder"), &vec![dir("/root")]), None);
    assert!(!m.is_known(&s("/root/New folder")));
    assert_eq!(m.known_count(), 0);
}

#[test]
fn placeholder_move_reported() {
    let mut m = monitor();
    m.on_create(&s("/root/New folder"), true);
    let r = m.on_remove(&s("/root/New folder"), Some(s("/root/Sub/New folder")));
    assert_eq!(r, Some(ClassifiedEvent::TopLevelMoved(s("New folder"), s("/root/Sub/New folder"))));
    assert_eq!(m.known_count(), 0);
}

#[test]
fn true_deletion_reported() {
    let mut m = monitor();
    m.seed(s("/root/Gamma"), true);
    let entries = vec![dir("/root"), dir("/root/Delta"), file("/root/Delta/Gamma")];
    let r = m.on_remove_in_tree(&s("/root/Gamma"), &entries);
    assert_eq!(r, Some(ClassifiedEvent::TopLevelRemoved(s("/root/Gamma"))));
    assert!(!m.is_known(&s("/root/Gamma")));
    assert_eq!(m.known_count(), 0);
}

#[test]
fn rename_at_top_level_keeps_tracking() {
    let mut m = monitor();
    m.seed(s("/root/Alpha"), true);
    let entries = vec![dir("/root"), dir("/root/Sub"), dir("/root/Sub/Inner"), dir("/root/Alpha2")];
    assert_eq!(m.name_to_resolve(&s("/root/Alpha")), Some(s("Alpha")));
    let r = m.on_remove(&s("/root/Alpha"), Some(s("/elsewhere/Alpha")));
    assert_eq!(r, Some(ClassifiedEvent::TopLevelMoved(s("Alpha"), s("/elsewhere/Alpha"))));
    assert_eq!(m.known_count(), 0);
    m.seed(s("/root/Alpha"), true);
    let r = m.on_remove(&s("/root/Alpha"), Some(s("/root/Sub")));
    assert_eq!(r, Some(ClassifiedEvent::TopLevelMoved(s("Alpha"), s("/root/Sub"))));
    assert!(m.is_known(&s("/root/Sub")));
    assert!(!m.is_known(&s("/root/Alpha")));
    assert_eq!(find_by_name(&s("Alpha"), &entries), None);
}

#[test]
fn unknown_remove_ignored() {
    let mut m = monitor();
    m.seed(s("/root/Alpha"), true);
    let entries = vec![dir("/root"), dir("/root/Ghost")];
    assert_eq!(m.name_to_resolve(&s("/root/Ghost")), None);
    assert_eq!(m.on_remove_in_tree(&s("/root/Ghost"), &entries), None);
    assert_eq!(m.on_remove(&s("/root/Ghost"), Some(s("/root/Ghost"))), None);
    assert_eq!(m.known_count(), 1);
    assert!(m.is_known(&s("/root/Alpha")));
}

#[test]
fn nested_notifications_ignored() {
    let mut m = monitor();
    assert_eq!(m.on_create(&s("/root/Sub/Inner"), true), None);
    assert_eq!(m.known_count(), 0);
    m.seed(s("/root/Sub"), true);
    assert_eq!(m.on_remove(&s("/root/Sub/Inner"), None), None);
    assert_eq!(m.known_count(), 1);
}

#[test]
fn seed_skips_files_and_nested() {
    let mut m = monitor();
    m.seed(s("/root/a.txt"), false);
    m.seed(s("/root/Sub/Inner"), true);
    m.seed(s("/root/Sub"), true);
    m.seed(s("/root/Sub"), true);
    assert_eq!(m.known_count(), 1);
    assert!(m.is_known(&s("/root/Sub")));
}

#[test]
fn watch_error_reported() {
    let m = monitor();
    assert_eq!(m.on_error(s("poll failed")), ClassifiedEvent::WatchError(s("poll failed")));
}
