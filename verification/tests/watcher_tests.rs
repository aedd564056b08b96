use file_watcher::collections::StringMap;
use file_watcher::package_deps::models::{DirectoryListing, ScannedFile};
use file_watcher::service::models::{DetectedService, ServiceDetectionType};
use file_watcher::watcher::{unique_paths, FileWatcher, DEBOUNCE_MILLIS};

fn file(path: &str, content: &str) -> ScannedFile {
    ScannedFile {
        path: path.to_string(),
        content: Some(content.to_string()),
    }
}

fn services() -> StringMap<DetectedService> {
    let mut services = StringMap::new();
    for (name, root) in [("one", "/w/one"), ("two", "/v/two")] {
        services.insert(
            name.to_string(),
            DetectedService {
                name: name.to_string(),
                root_path: root.to_string(),
                package_root: root.to_string(),
                detection_type: ServiceDetectionType::ConfigurationDefined,
            },
        );
    }
    services
}

fn listings() -> Vec<DirectoryListing> {
    vec![
        DirectoryListing {
            dir: "/w".to_string(),
            files: vec![
                file("/w/one/a.py", "import one.b"),
                file("/w/one/b.py", ""),
            ],
        },
        DirectoryListing {
            dir: "/v".to_string(),
            files: vec![
                file("/v/two/requirements.txt", "one>=1.0"),
                file("/v/two/c.py", "import one"),
            ],
        },
    ]
}

#[test]
fn unique_paths_keeps_first_occurrences() {
    let paths: Vec<String> = ["b", "a", "b", "c", "a", "b"].iter().map(|s| s.to_string()).collect();
    assert_eq!(unique_paths(&paths), vec!["b", "a", "c"]);
    assert!(unique_paths(&vec![]).is_empty());
}

#[test]
fn debounce_time() {
    assert_eq!(DEBOUNCE_MILLIS, 100);
}

#[test]
fn no_change_yet_affects_no_service() {
    let watcher = FileWatcher::new(&listings(), services(), 0);
    assert!(watcher.get_affected_services().is_empty());
}

#[test]
fn change_too_soon_after_the_start_is_passed_over() {
    let mut watcher = FileWatcher::new(&listings(), services(), 1000);
    assert!(!watcher.run_command(1000, "/w/one/b.py"));
    assert!(!watcher.run_command(1099, "/w/one/b.py"));
    assert!(!watcher.run_command(5, "/w/one/b.py"));
    assert!(watcher.get_affected_services().is_empty());
    assert!(watcher.run_command(1100, "/w/one/b.py"));
    assert_eq!(
        watcher.get_affected_services(),
        vec![("one".to_string(), "/w/one".to_string())]
    );
}

#[test]
fn run_sets_the_time_of_the_last_run() {
    let mut watcher = FileWatcher::new(&listings(), services(), 0);
    assert!(watcher.run_command(100, "/w/one/b.py"));
    assert!(!watcher.run_command(199, "/v/two/requirements.txt"));
    assert_eq!(
        watcher.get_affected_services(),
        vec![("one".to_string(), "/w/one".to_string())]
    );
    assert!(watcher.run_command(200, "/v/two/requirements.txt"));
    assert_eq!(
        watcher.get_affected_services(),
        vec![
            ("one".to_string(), "/w/one".to_string()),
            ("two".to_string(), "/v/two".to_string()),
        ]
    );
    assert!(watcher.run_command(300, "/v/two/c.py"));
    assert_eq!(
        watcher.get_affected_services(),
        vec![("two".to_string(), "/v/two".to_string())]
    );
    assert!(watcher.run_command(u64::MAX, "/elsewhere"));
    assert!(watcher.get_affected_services().is_empty());
    assert!(!watcher.run_command(0, "/w/one/b.py"));
    assert!(watcher.get_affected_services().is_empty());
}

#[test]
fn every_listing_is_taken_in() {
    let mut watcher = FileWatcher::new(&listings(), services(), 0);
    assert!(watcher.run_command(500, "/w/one/b.py"));
    assert_eq!(watcher.get_affected_services().len(), 1);
    let none = FileWatcher::new(&vec![], StringMap::new(), 0);
    assert!(none.get_affected_services().is_empty());
}
