use file_watcher::package_deps::import_parser::ImportParser;
use file_watcher::package_deps::models::ImportInfo;

fn scan(content: &str) -> Vec<ImportInfo> {
    let mut parser = ImportParser::new(content.to_string());
    parser.parse_imports()
}

fn packages(imports: &Vec<ImportInfo>) -> Vec<String> {
    imports.iter().map(|i| i.package_name.clone()).collect()
}

#[test]
fn from_import_record() {
    let imports = scan("from flask.views import View, MethodView\n");
    assert_eq!(imports.len(), 1);
    assert_eq!(imports[0].package_name, "flask");
    assert_eq!(imports[0].dotted_path, vec!["flask", "views"]);
    assert!(imports[0].is_from_import);
    assert_eq!(imports[0].imported_names, vec!["View", "MethodView"]);
}

#[test]
fn direct_import_record() {
    let imports = scan("import os.path as osp\n");
    assert_eq!(imports.len(), 1);
    assert_eq!(imports[0].package_name, "os");
    assert_eq!(imports[0].dotted_path, vec!["os", "path"]);
    assert!(!imports[0].is_from_import);
    assert_eq!(imports[0].imported_names, vec!["os"]);
}

#[test]
fn direct_import_gives_one_record_for_each_entry() {
    let imports = scan("import os, sys as system, numpy.linalg\n");
    assert_eq!(packages(&imports), vec!["os", "sys", "numpy"]);
    assert_eq!(imports[2].dotted_path, vec!["numpy", "linalg"]);
    assert_eq!(imports[1].imported_names, vec!["sys"]);
}

#[test]
fn relative_import_drops_empty_segments() {
    let imports = scan("from .utils import helper\nfrom ..pkg.mod import x\n");
    assert_eq!(packages(&imports), vec!["utils", "pkg"]);
    assert_eq!(imports[1].dotted_path, vec!["pkg", "mod"]);
}

#[test]
fn statements_that_give_no_record() {
    assert!(scan("from . import x\n").is_empty());
    assert!(scan("from x\n").is_empty());
    assert!(scan("from a import b import c\n").is_empty());
    assert!(scan("import \n").is_empty());
    assert!(scan("import ,\n").is_empty());
    assert!(scan("importos\nfrommodule import x\n# import os\nx = 1\n").is_empty());
    assert!(scan("").is_empty());
}

#[test]
fn indented_statements_count() {
    let imports = scan("    import requests\n\tfrom flask import Flask\n");
    assert_eq!(packages(&imports), vec!["requests", "flask"]);
}

#[test]
fn empty_names_are_dropped() {
    let imports = scan("from a import b, , c,\n");
    assert_eq!(imports[0].imported_names, vec!["b", "c"]);
}

#[test]
fn statement_goes_on_after_a_backslash() {
    let imports = scan("from a import b, \\\n    c\nimport os\n");
    assert_eq!(packages(&imports), vec!["a", "os"]);
    assert_eq!(imports[0].imported_names, vec!["b", "\\c"]);
}

#[test]
fn statement_goes_on_until_the_parenthesis_closes() {
    let imports = scan("from a import (\n    b,\n    c,\n)\nimport os\n");
    assert_eq!(packages(&imports), vec!["a", "os"]);
    assert_eq!(imports[0].imported_names, vec!["(b", "c", ")"]);
}

#[test]
fn lines_taken_into_a_statement_are_not_scanned_again() {
    let imports = scan("from a import (\nimport os\n)\nimport sys\n");
    assert_eq!(packages(&imports), vec!["a", "sys"]);
    assert_eq!(imports[0].imported_names, vec!["(import os)"]);
}

#[test]
fn statement_that_never_closes_ends_with_the_text() {
    let imports = scan("import os\nfrom a import (b,\nc");
    assert_eq!(packages(&imports), vec!["os", "a"]);
    assert_eq!(imports[1].imported_names, vec!["(b", "c"]);
    let only = scan("from a import b \\");
    assert_eq!(packages(&only), vec!["a"]);
    assert_eq!(only[0].imported_names, vec!["b \\"]);
}

#[test]
fn single_statements() {
    let parser = ImportParser::new(String::new());
    assert_eq!(packages(&parser.parse_import_statement("from a.b import c")), vec!["a"]);
    assert_eq!(packages(&parser.parse_import_statement("import a, b")), vec!["a", "b"]);
    assert!(parser.parse_import_statement("x = 1").is_empty());
    assert_eq!(parser.parse_from_import("from a.b import c").unwrap().dotted_path, vec!["a", "b"]);
    assert!(parser.parse_from_import("import a").is_none());
    assert!(parser.parse_from_import("from").is_none());
    assert_eq!(packages(&parser.parse_direct_import("import a as b, c")), vec!["a", "c"]);
    assert!(parser.parse_direct_import("from a import b").is_empty());
    assert!(parser.parse_direct_import("imp").is_empty());
}

#[test]
fn parsing_twice_gives_the_same() {
    let mut parser = ImportParser::new("import os\nfrom a import b\n".to_string());
    let first = parser.parse_imports();
    let second = parser.parse_imports();
    assert_eq!(packages(&first), packages(&second));
    assert_eq!(packages(&first), vec!["os", "a"]);
}
