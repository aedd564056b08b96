use file_watcher::package_deps::models::{DependencyFileKind, ScannedFile};
use file_watcher::package_deps::PackageDependencyManager;

fn file(path: &str, content: &str) -> ScannedFile {
    ScannedFile {
        path: path.to_string(),
        content: Some(content.to_string()),
    }
}

fn unread(path: &str) -> ScannedFile {
    ScannedFile {
        path: path.to_string(),
        content: None,
    }
}

fn sorted(items: &Vec<String>) -> Vec<String> {
    let mut v = items.clone();
    v.sort();
    v
}

#[test]
fn test_requirements_txt_parsing() {
    let mut manager = PackageDependencyManager::new();
    let files = vec![
        file(
            "/tmp/project/requirements.txt",
            "requests==2.26.0\nflask>=1.0.0\npytest\n",
        ),
        file(
            "/tmp/project/app.py",
            "import requests\nfrom flask import Flask\n",
        ),
    ];

    manager.scan_directory(&files);

    let affected = manager.get_affected_by_dependency_change("/tmp/project/requirements.txt");

    assert_eq!(affected.len(), 1);
    assert!(affected.contains("/tmp/project/app.py"));
}

#[test]
fn test_pyproject_toml_parsing() {
    let mut manager = PackageDependencyManager::new();
    let files = vec![
        file(
            "/tmp/project/pyproject.toml",
            r#"
        [project]
        dependencies = [
            "requests>=2.26.0",
            "flask>=1.0.0"
        ]
        "#,
        ),
        file(
            "/tmp/project/app.py",
            r#"
        import requests
        from flask import Flask
        "#,
        ),
    ];

    manager.scan_directory(&files);

    let affected = manager.get_affected_by_dependency_change("/tmp/project/pyproject.toml");

    assert_eq!(affected.len(), 1);
    assert!(affected.contains("/tmp/project/app.py"));
}

#[test]
fn test_import_parsing() {
    let mut manager = PackageDependencyManager::new();
    let files = vec![file(
        "/tmp/project/test.py",
        r#"
        import requests
        from flask import Flask
        from .utils import helper
        import os, sys
        from typing import List, Optional
        "#,
    )];

    manager.scan_directory(&files);

    let imports = manager.imports_of("/tmp/project/test.py").unwrap();

    assert_eq!(imports.len(), 6);
    assert!(imports.iter().any(|i| i.package_name == "requests"));
    assert!(imports.iter().any(|i| i.package_name == "flask"));
    assert!(imports.iter().any(|i| i.package_name == "os"));
    assert!(imports.iter().any(|i| i.package_name == "sys"));
    assert!(imports.iter().any(|i| i.package_name == "typing"));
}

#[test]
fn manifest_names() {
    let manager = PackageDependencyManager::new();
    for name in ["requirements.txt", "requirements.in", "setup.py", "pyproject.toml", "Pipfile"] {
        assert!(manager.is_dependency_file(name));
        assert!(manager.is_dependency_file(&format!("/a/b/{}", name)));
        assert!(!manager.is_dependency_file(&format!("/a/{}/other", name)));
        assert!(!manager.is_dependency_file(&format!("/a/x{}", name)));
    }
    assert!(!manager.is_dependency_file("Pipfile.lock"));
    assert!(!manager.is_dependency_file("poetry.lock"));
    assert!(!manager.is_dependency_file(""));
    assert!(manager.is_python_file("a/b.py"));
    assert!(!manager.is_python_file("a/b.txt"));
}

#[test]
fn unknown_manifest_affects_nothing() {
    let mut manager = PackageDependencyManager::new();
    manager.scan_directory(&vec![file("/p/app.py", "import requests\n")]);
    assert_eq!(manager.get_affected_by_dependency_change("/p/requirements.txt").len(), 0);
    assert_eq!(manager.get_affected_by_dependency_change("/p/app.py").len(), 0);
}

#[test]
fn usage_index_is_not_transitive() {
    let mut manager = PackageDependencyManager::new();
    manager.scan_directory(&vec![
        file("/p/requirements.txt", "requests==2.26.0\nnumpy>=1.0\n"),
        file("/p/a.py", "import requests\nimport requests.adapters\n"),
        file("/p/b.py", "from a import thing\n"),
        file("/p/c.py", "import numpy, requests\n"),
        file("/p/d.py", "import flask\n"),
    ]);
    let affected = manager.get_affected_by_dependency_change("/p/requirements.txt");
    assert_eq!(sorted(affected.items()), vec!["/p/a.py", "/p/c.py"]);
}

#[test]
fn files_without_text_are_passed_over() {
    let mut manager = PackageDependencyManager::new();
    manager.scan_directory(&vec![
        unread("/p/requirements.txt"),
        unread("/p/a.py"),
        file("/p/notes.txt", "import requests\n"),
        file("/p/b.py", "import requests\n"),
    ]);
    assert!(manager.dependency_file("/p/requirements.txt").is_none());
    assert!(manager.imports_of("/p/a.py").is_none());
    assert!(manager.imports_of("/p/notes.txt").is_none());
    assert_eq!(manager.imports_of("/p/b.py").unwrap().len(), 1);
}

#[test]
fn rescan_replaces_a_manifest() {
    let mut manager = PackageDependencyManager::new();
    manager.scan_directory(&vec![
        file("/p/requirements.txt", "requests==2.26.0\n"),
        file("/p/a.py", "import requests\n"),
        file("/p/b.py", "import flask\n"),
    ]);
    assert_eq!(
        sorted(manager.get_affected_by_dependency_change("/p/requirements.txt").items()),
        vec!["/p/a.py"]
    );
    manager.scan_dependency_file("/p/requirements.txt", "flask>=1.0\n");
    let file = manager.dependency_file("/p/requirements.txt").unwrap();
    assert_eq!(file.kind, DependencyFileKind::RequirementsTxt);
    assert_eq!(file.dependencies.len(), 1);
    assert_eq!(file.dependencies[0].name, "flask");
    assert_eq!(
        sorted(manager.get_affected_by_dependency_change("/p/requirements.txt").items()),
        vec!["/p/b.py"]
    );
}

#[test]
fn setup_py_is_read_as_a_manifest() {
    let mut manager = PackageDependencyManager::new();
    manager.scan_directory(&vec![
        file("/p/setup.py", "import setuptools\nsetup(install_requires=['requests>=2.0'])\n"),
        file("/p/a.py", "import requests\n"),
    ]);
    assert!(manager.imports_of("/p/setup.py").is_none());
    assert_eq!(manager.dependency_file("/p/setup.py").unwrap().kind, DependencyFileKind::SetupPy);
    assert_eq!(
        sorted(manager.get_affected_by_dependency_change("/p/setup.py").items()),
        vec!["/p/a.py"]
    );
}

#[test]
fn scan_python_file_enters_every_package() {
    let mut manager = PackageDependencyManager::new();
    manager.scan_python_file("/p/a.py", "import os, sys\nfrom flask import Flask\nimport os\n");
    manager.scan_dependency_file("/p/requirements.txt", "flask>=1.0\nos==1\n");
    manager.scan_dependency_file("/p/requirements.in", "sys<2\n");
    assert_eq!(manager.imports_of("/p/a.py").unwrap().len(), 4);
    assert_eq!(
        sorted(manager.get_affected_by_dependency_change("/p/requirements.txt").items()),
        vec!["/p/a.py"]
    );
    assert_eq!(
        sorted(manager.get_affected_by_dependency_change("/p/requirements.in").items()),
        vec!["/p/a.py"]
    );
}
