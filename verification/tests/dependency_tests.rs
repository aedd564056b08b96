use file_watcher::collections::StringMap;
use file_watcher::dependency::DependencyGraph;
use file_watcher::package_deps::models::ScannedFile;
use file_watcher::service::models::{DetectedService, ServiceDetectionType};

const ROOT: &str = "/tmp/project";

fn at(relative: &str) -> String {
    format!("{}/{}", ROOT, relative)
}

fn file(relative: &str, content: &str) -> ScannedFile {
    ScannedFile {
        path: at(relative),
        content: Some(content.to_string()),
    }
}

fn service(name: &str, root: &str) -> DetectedService {
    DetectedService {
        name: name.to_string(),
        root_path: at(root),
        package_root: at(&format!("{}/src", root)),
        detection_type: ServiceDetectionType::SetupPy,
    }
}

fn test_services() -> StringMap<DetectedService> {
    let mut services = StringMap::new();
    // Create test services
    services.insert("service1".to_string(), service("service1", "service1"));
    services.insert("service2".to_string(), service("service2", "service2"));
    services
}

fn setup_test_env() -> DependencyGraph {
    let mut graph = DependencyGraph::new();
    graph.build_from_directory(ROOT, &vec![], test_services());
    graph
}

fn sorted(items: &Vec<String>) -> Vec<String> {
    let mut v = items.clone();
    v.sort();
    v
}

#[test]
fn test_service_dependencies() {
    let mut graph = setup_test_env();

    // Add dependency
    graph.add_dependency(at("service1/src/main.py"), at("service2/src/utils.py"));

    // Test affected services
    let affected = graph.get_affected_services(&at("service2/src/utils.py"));

    assert_eq!(affected.len(), 2);
    assert!(affected.iter().any(|(name, _)| *name == "service1"));
    assert!(affected.iter().any(|(name, _)| *name == "service2"));
}

#[test]
fn test_package_dependencies() {
    let mut graph = setup_test_env();

    let files = vec![
        // Create requirements.txt in service1
        file("service1/requirements.txt", "requests==2.26.0"),
        // Create Python file using requests in service1
        file("service1/src/api.py", "import requests"),
    ];

    // Rebuild graph with new files
    graph.build_from_directory(ROOT, &files, test_services());

    // Test affected services when requirements.txt changes
    let affected = graph.get_affected_services(&at("service1/requirements.txt"));

    assert_eq!(affected.len(), 1);
    assert_eq!(affected[0].0, "service1");
}

#[test]
fn manifest_change_affects_its_importers() {
    let mut graph = DependencyGraph::new();
    let files = vec![
        file("service1/requirements.txt", "requests==2.26.0"),
        file("service1/src/api.py", "import requests"),
    ];
    graph.build_from_directory(ROOT, &files, StringMap::new());
    let affected = graph.get_affected_files(&at("service1/requirements.txt"));
    assert_eq!(
        sorted(affected.items()),
        vec![at("service1/requirements.txt"), at("service1/src/api.py")]
    );
    assert!(affected.contains(&at("service1/src/api.py")));
    let dependents = graph.collect_affected_files(&at("service1/requirements.txt"));
    assert_eq!(sorted(dependents.items()), vec![at("service1/requirements.txt")]);
}

#[test]
fn import_of_a_listed_file_gives_an_edge() {
    let mut graph = DependencyGraph::new();
    let files = vec![
        file("a.py", "from b import helper"),
        file("b.py", "def helper(): pass"),
    ];
    graph.build_from_directory(ROOT, &files, StringMap::new());
    let affected = graph.get_affected_files(&at("b.py"));
    assert!(affected.contains(&at("a.py")));
    assert_eq!(sorted(affected.items()), vec![at("a.py"), at("b.py")]);
    assert_eq!(sorted(graph.get_affected_files(&at("a.py")).items()), vec![at("a.py")]);
}

#[test]
fn import_of_a_missing_file_gives_no_edge() {
    let mut graph = DependencyGraph::new();
    let files = vec![
        file("a.py", "from b import helper\nimport c.d\nimport os\n    import e\nfrom\nimport \n"),
        file("c/d.py", ""),
        file("e.py", ""),
        ScannedFile { path: at("z.py"), content: None },
    ];
    graph.build_from_directory(ROOT, &files, StringMap::new());
    assert_eq!(sorted(graph.get_affected_files(&at("b.py")).items()), vec![at("b.py")]);
    assert_eq!(sorted(graph.get_affected_files(&at("e.py")).items()), vec![at("e.py")]);
    assert_eq!(
        sorted(graph.get_affected_files(&at("c/d.py")).items()),
        vec![at("a.py"), at("c/d.py")]
    );
}

#[test]
fn target_is_found_under_the_path_of_the_listing() {
    let mut graph = DependencyGraph::new();
    let files = vec![
        file("a.py", "import pkg..mod\nfrom .b import x\nimport c."),
        file("pkg/mod.py", ""),
        file("b.py", ""),
        file("c/.py", ""),
    ];
    graph.build_from_directory("/tmp/project/", &files, StringMap::new());
    assert_eq!(
        sorted(graph.get_affected_files(&at("pkg/mod.py")).items()),
        vec![at("a.py"), at("pkg/mod.py")]
    );
    assert_eq!(sorted(graph.get_affected_files(&at("b.py")).items()), vec![at("b.py")]);
    assert_eq!(
        sorted(graph.get_affected_files(&at("pkg//mod.py")).items()),
        vec![at("pkg//mod.py")]
    );
    assert!(graph.get_affected_files(&at("c/.py")).contains(&at("a.py")));
}

#[test]
fn only_the_second_word_of_an_import_line_counts() {
    let mut graph = DependencyGraph::new();
    let files = vec![
        file("a.py", "import b, c\nfrom  pkg.mod   import  x\n"),
        file("b.py", ""),
        file("b,.py", ""),
        file("c.py", ""),
        file("pkg/mod.py", ""),
    ];
    graph.build_from_directory(ROOT, &files, StringMap::new());
    assert_eq!(sorted(graph.get_affected_files(&at("b.py")).items()), vec![at("b.py")]);
    assert_eq!(sorted(graph.get_affected_files(&at("c.py")).items()), vec![at("c.py")]);
    assert!(graph.get_affected_files(&at("b,.py")).contains(&at("a.py")));
    assert!(graph.get_affected_files(&at("pkg/mod.py")).contains(&at("a.py")));
}

#[test]
fn cycle_is_walked_once() {
    let mut graph = DependencyGraph::new();
    graph.add_dependency("a".to_string(), "b".to_string());
    graph.add_dependency("b".to_string(), "a".to_string());
    let from_a = graph.collect_affected_files("a");
    assert_eq!(from_a.len(), 2);
    assert_eq!(sorted(from_a.items()), vec!["a", "b"]);
    assert_eq!(sorted(graph.get_affected_files("b").items()), vec!["a", "b"]);
}

#[test]
fn self_loop_is_an_edge_like_any_other() {
    let mut graph = DependencyGraph::new();
    graph.add_dependency("a".to_string(), "a".to_string());
    assert_eq!(sorted(graph.get_affected_files("a").items()), vec!["a"]);
    graph.add_dependency("b".to_string(), "a".to_string());
    assert_eq!(sorted(graph.get_affected_files("a").items()), vec!["a", "b"]);
}

#[test]
fn added_edge_is_walked_backwards() {
    let mut graph = DependencyGraph::new();
    graph.add_dependency("a".to_string(), "b".to_string());
    assert!(graph.get_affected_files("b").contains("a"));
    assert!(!graph.get_affected_files("a").contains("b"));
    graph.add_dependency("a".to_string(), "b".to_string());
    assert_eq!(graph.get_affected_files("b").len(), 2);
}

#[test]
fn dependents_are_found_through_other_files() {
    let mut graph = DependencyGraph::new();
    for (from, to) in [("b", "a"), ("c", "b"), ("d", "c"), ("d", "a"), ("e", "x"), ("a", "y"), ("f", "d"), ("c", "f")] {
        graph.add_dependency(from.to_string(), to.to_string());
    }
    assert_eq!(
        sorted(graph.get_affected_files("a").items()),
        vec!["a", "b", "c", "d", "f"]
    );
    assert_eq!(sorted(graph.get_affected_files("x").items()), vec!["e", "x"]);
    assert_eq!(
        sorted(graph.get_affected_files("y").items()),
        vec!["a", "b", "c", "d", "f", "y"]
    );
    assert_eq!(sorted(graph.get_affected_files("e").items()), vec!["e"]);
}

#[test]
fn changed_file_is_always_affected() {
    let mut graph = DependencyGraph::new();
    assert_eq!(sorted(graph.get_affected_files("unknown.py").items()), vec!["unknown.py"]);
    graph.add_dependency("a".to_string(), "b".to_string());
    assert!(graph.get_affected_files("a").contains("a"));
    assert!(graph.get_affected_files("b").contains("b"));
    assert!(graph.get_affected_files("").contains(""));
}

#[test]
fn manifest_change_goes_one_step() {
    let mut graph = DependencyGraph::new();
    let files = vec![
        file("requirements.txt", "requests==2.26.0"),
        file("f.py", "import requests"),
        file("g.py", "import f\nimport json"),
        file("h.py", "import g"),
    ];
    graph.build_from_directory(ROOT, &files, StringMap::new());
    let affected = graph.get_affected_files(&at("requirements.txt"));
    assert!(affected.contains(&at("f.py")));
    assert!(!affected.contains(&at("g.py")));
    assert!(!affected.contains(&at("h.py")));
    assert_eq!(
        sorted(graph.get_affected_files(&at("f.py")).items()),
        vec![at("f.py"), at("g.py"), at("h.py")]
    );
}

#[test]
fn importer_that_is_walked_too_is_still_walked_through() {
    let mut graph = DependencyGraph::new();
    let files = vec![
        file("setup.py", "setup(install_requires=['requests>=2.0'])"),
        file("f.py", "import requests\nimport setup"),
        file("g.py", "import f"),
    ];
    graph.build_from_directory(ROOT, &files, StringMap::new());
    assert_eq!(
        sorted(graph.get_affected_files(&at("setup.py")).items()),
        vec![at("f.py"), at("g.py"), at("setup.py")]
    );
}

#[test]
fn first_service_in_the_registry_owns_a_file() {
    let mut services = StringMap::new();
    services.insert("outer".to_string(), service("outer", "apps"));
    services.insert("inner".to_string(), service("inner", "apps/inner"));
    services.insert("other".to_string(), service("other", "apps2"));
    let mut graph = DependencyGraph::new();
    graph.set_services(services);
    let affected = graph.get_affected_services(&at("apps/inner/main.py"));
    assert_eq!(affected, vec![("outer".to_string(), at("apps"))]);
    let affected = graph.get_affected_services(&at("apps2/main.py"));
    assert_eq!(affected, vec![("other".to_string(), at("apps2"))]);
    assert!(graph.get_affected_services(&at("apps20/main.py")).is_empty());
    assert!(graph.get_affected_services("elsewhere/main.py").is_empty());
}

#[test]
fn each_service_is_named_once() {
    let mut graph = setup_test_env();
    graph.add_dependency(at("service1/a.py"), at("service2/x.py"));
    graph.add_dependency(at("service1/b.py"), at("service2/x.py"));
    graph.add_dependency(at("lib/c.py"), at("service2/x.py"));
    graph.add_dependency(at("service2/y.py"), at("service1/a.py"));
    let mut affected = graph.get_affected_services(&at("service2/x.py"));
    affected.sort();
    assert_eq!(
        affected,
        vec![
            ("service1".to_string(), at("service1")),
            ("service2".to_string(), at("service2")),
        ]
    );
}

#[test]
fn rebuild_leaves_only_the_latest_scan() {
    let mut graph = DependencyGraph::new();
    let files = vec![
        file("requirements.txt", "requests==2.26.0"),
        file("a.py", "import b\nimport requests"),
        file("b.py", ""),
    ];
    graph.build_from_directory(ROOT, &files, test_services());
    graph.add_dependency(at("old.py"), at("b.py"));
    assert_eq!(
        sorted(graph.get_affected_files(&at("b.py")).items()),
        vec![at("a.py"), at("b.py"), at("old.py")]
    );
    assert!(graph.get_affected_files(&at("requirements.txt")).contains(&at("a.py")));

    let files = vec![
        file("requirements.txt", "requests==2.26.0"),
        file("a.py", "x = 1"),
        file("b.py", ""),
    ];
    graph.build_from_directory(ROOT, &files, StringMap::new());
    assert!(!graph.get_affected_files(&at("b.py")).contains(&at("a.py")));
    assert_eq!(sorted(graph.get_affected_files(&at("b.py")).items()), vec![at("b.py")]);
    assert_eq!(
        sorted(graph.get_affected_files(&at("requirements.txt")).items()),
        vec![at("requirements.txt")]
    );
    assert!(graph.get_affected_services(&at("service1/a.py")).is_empty());
}

#[test]
fn further_listing_keeps_what_was_there() {
    let mut graph = DependencyGraph::new();
    graph.add_dependency(at("old.py"), at("base.py"));
    graph.set_services(test_services());
    let files = vec![file("a.py", "import base"), file("base.py", "")];
    graph.scan_listing(ROOT, &files);
    assert_eq!(
        sorted(graph.get_affected_files(&at("base.py")).items()),
        vec![at("a.py"), at("base.py"), at("old.py")]
    );
    graph.scan_listing("/elsewhere", &vec![ScannedFile {
        path: "/elsewhere/m.py".to_string(),
        content: Some("import n".to_string()),
    }, ScannedFile {
        path: "/elsewhere/n.py".to_string(),
        content: Some(String::new()),
    }]);
    assert_eq!(
        sorted(graph.get_affected_files("/elsewhere/n.py").items()),
        vec!["/elsewhere/m.py", "/elsewhere/n.py"]
    );
    assert!(graph.get_affected_files(&at("base.py")).contains(&at("old.py")));
}

#[test]
fn default_graph_is_empty() {
    let graph = DependencyGraph::default();
    assert_eq!(graph.get_affected_files("a").len(), 1);
    assert!(graph.get_affected_services("a").is_empty());
}
