use depcheck::imports::parse_imports;
use depcheck::visitor::ImportVisitor;

fn sorted_names(v: Vec<Vec<u8>>) -> Vec<String> {
    let mut out: Vec<String> = v.into_iter().map(|b| String::from_utf8(b).unwrap()).collect();
    out.sort();
    out
}

fn sorted(mut v: Vec<&str>) -> Vec<String> {
    v.sort();
    v.into_iter().map(String::from).collect()
}

#[test]
fn parser_test_import() {
    let python = "import foo\nimport numpy as np\nimport torch\nimport os\n";
    let expected = sorted(vec!["foo", "numpy", "torch", "os"]);
    let result = parse_imports(python.as_bytes());
    assert_eq!(sorted_names(result), expected);
}

#[test]
fn test_from_import() {
    let python =
        "from pathlib import Path\nfrom flask import Flask\nfrom my_app import Cli\nfrom utils import greet as g\n";
    let expected = sorted(vec!["pathlib", "flask", "my_app", "utils"]);
    let result = parse_imports(python.as_bytes());
    assert_eq!(sorted_names(result), expected);
}

#[test]
fn test_no_import() {
    let python = "";
    let result = parse_imports(python.as_bytes());
    assert_eq!(sorted_names(result), Vec::<String>::new());
}

#[test]
fn test_invalid_syntax() {
    let python = "foo\n";
    let result = parse_imports(python.as_bytes());
    assert_eq!(sorted_names(result), Vec::<String>::new());
}

#[test]
fn test_extraction_idempotent() {
    let python = "import os\nfrom pathlib import Path\nx = 1\nimport os.path\n";
    let first = sorted_names(parse_imports(python.as_bytes()));
    let second = sorted_names(parse_imports(python.as_bytes()));
    assert_eq!(first, second);
}

#[test]
fn test_multiple_targets_root_segments() {
    let python = "import a, b.c, d.e.f\n";
    let expected = sorted(vec!["a", "b", "d"]);
    assert_eq!(sorted_names(parse_imports(python.as_bytes())), expected);
}

#[test]
fn test_alias_contributes_original_name() {
    let python = "import numpy as np\n";
    let result = sorted_names(parse_imports(python.as_bytes()));
    assert_eq!(result, vec!["numpy".to_string()]);
    assert!(!result.contains(&"np".to_string()));
}

#[test]
fn test_duplicates_merged() {
    let python = "import os\nimport os.path\nimport os\n";
    assert_eq!(sorted_names(parse_imports(python.as_bytes())), vec!["os".to_string()]);
}

#[test]
fn test_guarded_import_is_seen() {
    let python = "try:\n    import json\nexcept ImportError:\n    json = None\n";
    assert_eq!(sorted_names(parse_imports(python.as_bytes())), vec!["json".to_string()]);
}

#[test]
fn test_comments_and_semicolons() {
    let python = "import a; import b  # import c\n# import d\n";
    assert_eq!(sorted_names(parse_imports(python.as_bytes())), sorted(vec!["a", "b"]));
}

#[test]
fn test_relative_import_has_no_root() {
    let python = "from . import sibling\nfrom .module import thing\n";
    assert_eq!(sorted_names(parse_imports(python.as_bytes())), Vec::<String>::new());
}

#[test]
fn test_single_line_suites() {
    let python = "if True: import json\ntry: import httpx\nexcept ImportError: import requests\nfor x in y: import csv\n";
    let expected = sorted(vec!["json", "httpx", "requests", "csv"]);
    assert_eq!(sorted_names(parse_imports(python.as_bytes())), expected);
}

#[test]
fn test_nested_single_line_suite_with_semicolons() {
    let python = "def f():\n    if ok: import a; import b\n";
    assert_eq!(sorted_names(parse_imports(python.as_bytes())), sorted(vec!["a", "b"]));
}

#[test]
fn test_backslash_continuation_joined() {
    let python = "import \\\n    os\nfrom \\\n    pathlib import Path\n";
    assert_eq!(sorted_names(parse_imports(python.as_bytes())), sorted(vec!["os", "pathlib"]));
}

#[test]
fn test_backslash_in_comment_continues_nothing() {
    let python = "x = 1  # trailing \\\nimport os\n";
    assert_eq!(sorted_names(parse_imports(python.as_bytes())), vec!["os".to_string()]);
}

#[test]
fn test_colon_in_expression_adds_nothing() {
    let python = "d = {1: 2}\nx: int = 5\n";
    assert_eq!(sorted_names(parse_imports(python.as_bytes())), Vec::<String>::new());
}

#[test]
fn test_visitor_collects_distinct_roots() {
    let mut visitor = ImportVisitor::new();
    visitor.visit_stmt(b"import os");
    visitor.visit_stmt(b"import os");
    visitor.visit_stmt(b"from pathlib import Path");
    let result = sorted_names(visitor.into_imports());
    assert_eq!(result, sorted(vec!["os", "pathlib"]));
}
