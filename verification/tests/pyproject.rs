use depcheck::manifest::ManifestError;
use depcheck::manifest::SourceKind;
use depcheck::manifest::parse_pyproject;
use depcheck::manifest::parse_requirements;
use depcheck::manifest::requirements_from_list;
use depcheck::manifest::requirements_source_kind;
use depcheck::requirement::Origin;
use depcheck::requirement::SpecifierError;
use depcheck::requirement::VersionOp;
use depcheck::requirement::parse_requirement;

const MANIFEST: &str = r#"
[project]
name = "depcheck"
version = "1.2.3"
dependencies = [
  "requests[security,tests]==2.8.*,>=2.8.1 ; python_full_version < '2.7'",
  "numpy ( >=1.19 )",
  "awesome-project[dev]",
  "github-lib @ git+https://github.com/user/my-lib.git@v1.0.0",
  "whl-lib @ file:///${PROJECT_ROOT}/wheels/my_lib-0.2.1-py3-none-any.whl",
  "local-lib @ file:///path/to/local-lib",
]
"#;

fn utf8(b: &[u8]) -> String {
    String::from_utf8(b.to_vec()).unwrap()
}

#[test]
fn pyproject_test_import() {
    let result =
        parse_requirements("pyproject.toml".as_bytes(), Some(MANIFEST.as_bytes())).unwrap();
    let expected_names =
        vec!["requests", "numpy", "awesome-project", "github-lib", "whl-lib", "local-lib"];
    let names: Vec<String> = result.iter().map(|req| utf8(&req.name)).collect();
    assert_eq!(names, expected_names);
}

#[test]
fn test_full_specifier_fields() {
    let req =
        parse_requirement(b"requests[security,tests]==2.8.*,>=2.8.1 ; python_full_version < '2.7'")
            .unwrap();
    assert_eq!(utf8(&req.name), "requests");
    let extras: Vec<String> = req.extras.iter().map(|e| utf8(e)).collect();
    assert_eq!(extras, vec!["security", "tests"]);
    assert_eq!(req.version_clauses.len(), 2);
    assert_eq!(req.version_clauses[0].op, VersionOp::Eq);
    assert_eq!(utf8(&req.version_clauses[0].version), "2.8.*");
    assert_eq!(req.version_clauses[1].op, VersionOp::Ge);
    assert_eq!(utf8(&req.version_clauses[1].version), "2.8.1");
    assert_eq!(utf8(req.marker.as_ref().unwrap()), "python_full_version < '2.7'");
    assert_eq!(req.origin, Origin::Registry);
}

#[test]
fn test_embedded_whitespace_parses_identically() {
    let lenient = parse_requirement(b"numpy ( >=1.19 )").unwrap();
    let plain = parse_requirement(b"numpy>=1.19").unwrap();
    assert_eq!(lenient, plain);
    assert_eq!(lenient.version_clauses.len(), 1);
    assert_eq!(lenient.version_clauses[0].op, VersionOp::Ge);
    assert_eq!(utf8(&lenient.version_clauses[0].version), "1.19");
}

#[test]
fn test_vcs_url_not_truncated_at_embedded_at() {
    let req = parse_requirement(b"github-lib @ git+https://github.com/user/my-lib.git@v1.0.0")
        .unwrap();
    assert_eq!(utf8(&req.name), "github-lib");
    match &req.origin {
        Origin::VcsUrl(url) => {
            assert_eq!(utf8(url), "git+https://github.com/user/my-lib.git@v1.0.0");
        }
        other => panic!("expected a version-control origin, got {:?}", other),
    }
    assert!(req.version_clauses.is_empty());
}

#[test]
fn test_file_scheme_urls_classified_consistently() {
    let a = parse_requirement(b"local-lib @ file:///path/to/local-lib").unwrap();
    let b =
        parse_requirement(b"whl-lib @ file:///${PROJECT_ROOT}/wheels/my_lib-0.2.1-py3-none-any.whl")
            .unwrap();
    assert!(matches!(a.origin, Origin::LocalPath(_)));
    assert!(matches!(b.origin, Origin::LocalPath(_)));
}

#[test]
fn test_direct_url_origin() {
    let req = parse_requirement(b"pkg @ https://example.com/pkg-1.0.tar.gz").unwrap();
    match &req.origin {
        Origin::DirectUrl(url) => assert_eq!(utf8(url), "https://example.com/pkg-1.0.tar.gz"),
        other => panic!("expected a direct-URL origin, got {:?}", other),
    }
}

#[test]
fn test_bare_path_origin() {
    let req = parse_requirement(b"local @ ../sibling/project").unwrap();
    assert!(matches!(req.origin, Origin::LocalPath(_)));
}

#[test]
fn test_specifier_error_variants() {
    assert_eq!(parse_requirement(b"").unwrap_err(), SpecifierError::EmptyName);
    assert_eq!(parse_requirement(b"   ").unwrap_err(), SpecifierError::EmptyName);
    assert_eq!(parse_requirement(b"foo[dev").unwrap_err(), SpecifierError::UnclosedExtras);
    assert_eq!(parse_requirement(b"foo $$1").unwrap_err(), SpecifierError::UnknownOperator);
    assert_eq!(parse_requirement(b"foo ==").unwrap_err(), SpecifierError::EmptyVersion);
    assert_eq!(parse_requirement(b"foo @ ").unwrap_err(), SpecifierError::BadUrl);
}

#[test]
fn test_extras_trimmed_and_merged() {
    let req = parse_requirement(b"pkg[ a , b , a ]>=1").unwrap();
    let extras: Vec<String> = req.extras.iter().map(|e| utf8(e)).collect();
    assert_eq!(extras, vec!["a", "b"]);
}

#[test]
fn test_absent_dependency_list_is_empty_not_error() {
    let manifest = "[project]\nname = \"tool\"\nversion = \"0.1.0\"\n";
    let result = parse_requirements("pyproject.toml".as_bytes(), Some(manifest.as_bytes()));
    assert_eq!(result.unwrap().len(), 0);
}

#[test]
fn test_missing_file_distinct_from_malformed() {
    let missing = parse_requirements("pyproject.toml".as_bytes(), None).unwrap_err();
    let malformed =
        parse_requirements("pyproject.toml".as_bytes(), Some(b"= not toml =")).unwrap_err();
    match &missing {
        ManifestError::NotFound(path) => assert_eq!(utf8(path), "pyproject.toml"),
        other => panic!("expected a not-found error, got {:?}", other),
    }
    assert_eq!(malformed, ManifestError::MalformedDocument);
    assert_ne!(missing, malformed);
}

#[test]
fn test_unsupported_format() {
    let result = parse_requirements("requirements.txt".as_bytes(), Some(b"requests\n"));
    assert_eq!(result.unwrap_err(), ManifestError::UnsupportedFormat);
}

#[test]
fn test_source_kind_uses_file_name() {
    assert_eq!(
        requirements_source_kind(b"some/dir/pyproject.toml"),
        SourceKind::PyprojectToml
    );
    assert_eq!(requirements_source_kind(b"pyproject.toml"), SourceKind::PyprojectToml);
    assert_eq!(requirements_source_kind(b"dir/requirements.txt"), SourceKind::Unsupported);
    assert_eq!(requirements_source_kind(b"dir/apyproject.toml"), SourceKind::Unsupported);
}

#[test]
fn test_bad_requirement_reports_position() {
    let manifest = "[project]\ndependencies = [\"good>=1\", \"bad ==\"]\n";
    let err = parse_requirements("pyproject.toml".as_bytes(), Some(manifest.as_bytes()))
        .unwrap_err();
    assert_eq!(err, ManifestError::BadRequirement(1, SpecifierError::EmptyVersion));
}

#[test]
fn test_requirements_from_list_keeps_order() {
    let deps: Vec<Vec<u8>> = vec![b"b>=2".to_vec(), b"a<=1".to_vec()];
    let reqs = requirements_from_list(&deps).unwrap();
    assert_eq!(utf8(&reqs[0].name), "b");
    assert_eq!(utf8(&reqs[1].name), "a");
    assert_eq!(reqs[0].version_clauses[0].op, VersionOp::Ge);
    assert_eq!(reqs[1].version_clauses[0].op, VersionOp::Le);
}

#[test]
fn test_project_metadata_read() {
    let manifest = parse_pyproject(MANIFEST.as_bytes()).unwrap();
    assert_eq!(manifest.name, Some(b"depcheck".to_vec()));
    assert_eq!(manifest.version, Some(b"1.2.3".to_vec()));
    assert_eq!(manifest.dependencies.as_ref().unwrap().len(), 6);
}

#[test]
fn test_non_string_dependency_is_malformed() {
    let manifest = "[project]\ndependencies = [1, 2]\n";
    let err = parse_requirements("pyproject.toml".as_bytes(), Some(manifest.as_bytes()))
        .unwrap_err();
    assert_eq!(err, ManifestError::MalformedDocument);
}
