use file_watcher::collections::StringMap;
use file_watcher::dependency::DependencyGraph;
use file_watcher::package_deps::models::ScannedFile;
use file_watcher::service::detector::{
    extract_package_name_from_setup_py, find_package_root, DetectionError, ServiceDetector,
};
use file_watcher::service::models::{
    DetectedService, ServiceConfig, ServiceDetectionRules, ServiceDetectionType,
};

const ROOT: &str = "/tmp/project";

fn at(relative: &str) -> String {
    format!("{}/{}", ROOT, relative)
}

fn create_file(files: &mut Vec<ScannedFile>, path: &str, content: &str) {
    files.push(ScannedFile {
        path: at(path),
        content: Some(content.to_string()),
    });
}

fn config(name: &str) -> ServiceConfig {
    ServiceConfig {
        name: name.to_string(),
        path: at(name),
        include_paths: vec![],
        exclude_paths: vec![],
        detection: ServiceDetectionRules::default(),
    }
}

fn names(services: &StringMap<DetectedService>) -> Vec<String> {
    let mut v = Vec::new();
    let mut i = 0;
    while i < services.len() {
        v.push(services.key_at(i).clone());
        i += 1;
    }
    v
}

#[test]
fn test_detect_setup_py_service() {
    let mut files = Vec::new();
    create_file(
        &mut files,
        "service1/setup.py",
        r#"from setuptools import setup
        setup(
            name='test-service',
            version='0.1.0',
        )
        "#,
    );
    create_file(&mut files, "service1/src/__init__.py", "");

    let detector = ServiceDetector::new(vec![]);
    let services = detector.detect_services(&files).unwrap();

    assert_eq!(services.len(), 1);
    let service = services.get("test-service").unwrap();
    assert_eq!(service.detection_type, ServiceDetectionType::SetupPy);
    assert!(service.root_path.ends_with("service1"));
}

#[test]
fn test_detect_pyproject_toml_service() {
    let mut files = Vec::new();
    create_file(
        &mut files,
        "service2/pyproject.toml",
        r#"
        [project]
        name = "api-service"
        version = "0.1.0"
        "#,
    );

    let detector = ServiceDetector::new(vec![]);
    let services = detector.detect_services(&files).unwrap();

    assert_eq!(services.len(), 1);
    let service = services.get("api-service").unwrap();
    assert_eq!(service.detection_type, ServiceDetectionType::PyprojectToml);
}

#[test]
fn test_configured_service() {
    let mut files = Vec::new();
    create_file(&mut files, "custom-service/src/__init__.py", "");

    let config = ServiceConfig {
        name: "custom-service".to_string(),
        path: at("custom-service"),
        include_paths: vec![],
        exclude_paths: vec![],
        detection: ServiceDetectionRules::default(),
    };

    let detector = ServiceDetector::new(vec![config]);
    let services = detector.detect_services(&files).unwrap();

    assert_eq!(services.len(), 1);
    let service = services.get("custom-service").unwrap();
    assert_eq!(service.detection_type, ServiceDetectionType::ConfigurationDefined);
}

#[test]
fn detected_service_in_full() {
    let mut files = Vec::new();
    create_file(&mut files, "service1/setup.py", "setup(\n    name=\"svc\",\n)\n");
    create_file(&mut files, "service1/a/b/c/d/__init__.py", "");
    create_file(&mut files, "service10/pkg/__init__.py", "");
    create_file(&mut files, "service1/a/b/__init__.py", "");
    create_file(&mut files, "service1/a/__init__.py", "");
    let services = ServiceDetector::new(vec![]).detect_services(&files).unwrap();
    let service = services.get("svc").unwrap();
    assert_eq!(service.name, "svc");
    assert_eq!(service.root_path, at("service1"));
    assert_eq!(service.package_root, at("service1/a/b"));
    assert_eq!(service.detection_type, ServiceDetectionType::SetupPy);
}

#[test]
fn package_root_is_the_directory_of_the_first_marker() {
    let mut files = Vec::new();
    create_file(&mut files, "s/a/b/c/__init__.py", "");
    create_file(&mut files, "s/a/b/__init__.py", "");
    create_file(&mut files, "s/__init__.py", "");
    assert_eq!(find_package_root(&at("s"), &files), at("s/a/b"));
    assert_eq!(find_package_root(&at("s/a"), &files), at("s/a/b/c"));
    assert_eq!(find_package_root(&at("t"), &files), at("t"));
    assert_eq!(find_package_root(&at("s"), &vec![]), at("s"));
    assert_eq!(find_package_root(ROOT, &files), at("s"));
}

#[test]
fn name_from_setup_py() {
    let f = extract_package_name_from_setup_py;
    assert_eq!(f("setup(\n    name='test-service',\n)"), Some("test-service".to_string()));
    assert_eq!(f("setup(\n    name=\"svc\",\n)"), Some("svc".to_string()));
    assert_eq!(f("name = 'spaced'\n"), Some("spaced".to_string()));
    assert_eq!(f("name=plain"), Some("plain".to_string()));
    assert_eq!(f("setup(name='a', version='1')"), Some("a".to_string()));
    assert_eq!(f("  name=  ('x', ) "), Some("x".to_string()));
    assert_eq!(f("name=''\nname='second'"), Some("second".to_string()));
    assert_eq!(f("rename='x'"), Some("x".to_string()));
    assert_eq!(f("name ='x' name='y'"), Some("y".to_string()));
    assert_eq!(f("version='1'\n"), None);
    assert_eq!(f("name"), None);
    assert_eq!(f(""), None);
}

#[test]
fn name_before_a_closing_parenthesis_is_clean() {
    let f = extract_package_name_from_setup_py;
    assert_eq!(f("setup(name='service1')"), Some("service1".to_string()));
    assert_eq!(f("setup(name='parent-service')"), Some("parent-service".to_string()));
    assert_eq!(f("setup(name=\"x\")"), Some("x".to_string()));
    assert_eq!(f("setup(name=x)"), Some("x".to_string()));
    assert_eq!(f("setup(name=('x'))"), Some("x".to_string()));
    assert_eq!(f("setup(name='x'),"), Some("x".to_string()));
    assert_eq!(f("setup(name='x' )"), Some("x".to_string()));
    assert_eq!(f("setup(name=( \"x\" ))"), Some("x".to_string()));
    assert_eq!(f("setup(name='a b')"), Some("a b".to_string()));
    assert_eq!(f("setup(name=')')"), None);
}

#[test]
fn test_nested_services() {
    let mut files = Vec::new();
    create_file(
        &mut files,
        "parent/setup.py",
        r#"from setuptools import setup
        setup(name='parent-service')
        "#,
    );
    create_file(
        &mut files,
        "parent/child/setup.py",
        r#"from setuptools import setup
        setup(name='child-service')
        "#,
    );
    create_file(&mut files, "parent/src/__init__.py", "");
    create_file(&mut files, "parent/child/src/__init__.py", "");

    let detector = ServiceDetector::new(vec![]);
    let services = detector.detect_services(&files).unwrap();

    assert_eq!(services.len(), 2);
    assert!(services.contains_key("parent-service"));
    assert!(services.contains_key("child-service"));
}

#[test]
fn services_within_services_keep_their_own_roots() {
    let mut files = Vec::new();
    create_file(&mut files, "parent/setup.py", "setup(name='parent-service')\n");
    create_file(&mut files, "parent/child/setup.py", "setup(name='child-service')\n");
    create_file(&mut files, "parent/src/__init__.py", "");
    create_file(&mut files, "parent/child/src/__init__.py", "");
    let detector = ServiceDetector::new(vec![]);
    let services = detector.detect_services(&files).unwrap();
    assert_eq!(names(&services), vec!["parent-service", "child-service"]);
    assert_eq!(services.get("child-service").unwrap().root_path, at("parent/child"));
    assert_eq!(services.get("child-service").unwrap().package_root, at("parent/child/src"));
    assert_eq!(services.get("parent-service").unwrap().package_root, at("parent/src"));
    assert!(!detector.is_path_in_existing_service(&at("parent/child/setup.py"), &services));
}

#[test]
fn name_falls_back_to_the_directory() {
    let mut files = Vec::new();
    create_file(&mut files, "alpha/setup.py", "setup(version='1')");
    create_file(&mut files, "beta/pyproject.toml", "[project]\nversion = \"1\"\n");
    create_file(&mut files, "gamma/pyproject.toml", "[project]\nname = 7\n");
    let services = ServiceDetector::new(vec![]).detect_services(&files).unwrap();
    assert_eq!(names(&services), vec!["alpha", "beta", "gamma"]);
    assert_eq!(services.get("beta").unwrap().root_path, at("beta"));
    assert_eq!(services.get("beta").unwrap().package_root, at("beta"));
}

#[test]
fn configured_services_come_first_and_keep_their_names() {
    let mut files = Vec::new();
    create_file(&mut files, "one/setup.py", "name='one'\n");
    create_file(&mut files, "two/setup.py", "name='two'\n");
    create_file(&mut files, "other/setup.py", "name='two'\n");
    let mut renamed = config("one");
    renamed.path = at("configured");
    let services = ServiceDetector::new(vec![config("zero"), renamed, config("zero")])
        .detect_services(&files)
        .unwrap();
    assert_eq!(names(&services), vec!["zero", "one", "two"]);
    assert_eq!(
        services.get("one").unwrap().detection_type,
        ServiceDetectionType::ConfigurationDefined
    );
    assert_eq!(services.get("one").unwrap().root_path, at("configured"));
    assert_eq!(services.get("two").unwrap().root_path, at("two"));
}

#[test]
fn manifest_that_cannot_be_read_ends_the_detection() {
    let mut files = Vec::new();
    create_file(&mut files, "one/setup.py", "name='one'\n");
    files.push(ScannedFile { path: at("two/setup.py"), content: None });
    create_file(&mut files, "three/pyproject.toml", "not toml [");
    let r = ServiceDetector::new(vec![]).detect_services(&files);
    assert_eq!(r.unwrap_err(), DetectionError::Unreadable(at("two/setup.py")));
    files.remove(1);
    let r = ServiceDetector::new(vec![]).detect_services(&files);
    assert_eq!(r.unwrap_err(), DetectionError::InvalidManifest(at("three/pyproject.toml")));
    files[1] = ScannedFile { path: at("three/pyproject.toml"), content: None };
    let r = ServiceDetector::new(vec![]).detect_services(&files);
    assert_eq!(r.unwrap_err(), DetectionError::Unreadable(at("three/pyproject.toml")));
    files[1] = ScannedFile { path: at("three/notes.txt"), content: None };
    assert_eq!(ServiceDetector::new(vec![]).detect_services(&files).unwrap().len(), 1);
}

#[test]
fn manifest_without_any_name_ends_the_detection() {
    let files = vec![ScannedFile {
        path: "setup.py".to_string(),
        content: Some("setup()".to_string()),
    }];
    let r = ServiceDetector::new(vec![]).detect_services(&files);
    assert_eq!(r.unwrap_err(), DetectionError::Unnamed("setup.py".to_string()));
    let detector = ServiceDetector::new(vec![]);
    let named = detector
        .detect_service_at_path("setup.py", Some("name='x',"), &files)
        .unwrap()
        .unwrap();
    assert_eq!(named.name, "x");
    assert_eq!(named.root_path, "");
    assert!(detector.detect_service_at_path("a/main.py", None, &files).unwrap().is_none());
}

#[test]
fn test_full_service_detection_and_dependencies() {
    let mut files = Vec::new();
    // Create service1
    create_file(&mut files, "service1/setup.py", r#"setup(name='service1')"#);
    create_file(&mut files, "service1/src/__init__.py", "");
    create_file(&mut files, "service1/requirements.txt", "requests==2.26.0");
    // Create service2
    create_file(
        &mut files,
        "service2/pyproject.toml",
        r#"
        [project]
        name = "service2"
        dependencies = ["service1"]
        "#,
    );

    // Configure services
    let config = ServiceConfig {
        name: "service3".to_string(),
        path: at("service3"),
        include_paths: vec![],
        exclude_paths: vec![],
        detection: ServiceDetectionRules::default(),
    };

    // Detect services
    let detector = ServiceDetector::new(vec![config]);
    let services = detector.detect_services(&files).unwrap();

    // The configured service is the third
    assert_eq!(services.len(), 3);
    assert!(services.contains_key("service1"));
    assert!(services.contains_key("service2"));
    assert!(services.contains_key("service3"));
    assert_eq!(services.get("service3").unwrap().package_root, at("service3"));

    // Build dependency graph
    let mut graph = DependencyGraph::new();
    graph.build_from_directory(ROOT, &files, services);

    // Test dependencies
    let affected = graph.get_affected_services(&at("service1/requirements.txt"));

    assert_eq!(affected.len(), 1);
    assert_eq!(affected[0].0, "service1");
    assert_eq!(affected[0].1, at("service1"));
}
