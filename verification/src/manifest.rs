//! The manifest loader: a `pyproject.toml` document in, the ordered
//! sequence of its declared dependency specifiers out, each parsed by the
//! requirement parser, failing fast on the first malformed entry.
//!
//! Only the `pyproject.toml` project-metadata form is a supported
//! requirements source; any other path is an explicit unsupported-format
//! error, never a parsing attempt. The TOML document is read by the
//! `toml` crate behind trusted wrappers whose contracts pin what they
//! yield to the document bytes (`toml_accepts`, `pyproject_deps`);
//! everything decided on what comes back - which error, which
//! requirement, in which order - is verified.

use vstd::prelude::*;

use crate::requirement::byte_views;
use crate::requirement::parse_requirement;
use crate::requirement::parse_requirement_spec;
use crate::requirement::RequirementSpecifier;
use crate::requirement::SpecRequirement;
use crate::requirement::SpecifierError;

verus! {

/// Windows path separator; `B_SLASH` in `scan` covers the POSIX one.
pub const B_BACKSLASH: u8 = 92;

/// What kind of requirements source a path names.
#[derive(Clone, Copy, Debug, PartialEq, Eq, Structural)]
pub enum SourceKind {
    /// A `pyproject.toml` project-metadata file.
    PyprojectToml,
    /// Any other requirements-file format: declared unsupported.
    Unsupported,
}

/// Why a manifest could not be loaded.
#[derive(Clone, Debug, PartialEq, Eq)]
pub enum ManifestError {
    /// The path names no existing file; carries that path.
    NotFound(Vec<u8>),
    /// The file is no well-formed TOML document, or its dependency list
    /// holds something besides strings.
    MalformedDocument,
    /// The path names a requirements-source kind this loader does not
    /// support.
    UnsupportedFormat,
    /// The dependency entry at this position was rejected, and why.
    BadRequirement(usize, SpecifierError),
}

/// The slice of a `pyproject.toml` document this loader reads: optional
/// project name and version (informational), and the declared dependency
/// strings in order - `None` when the document declares no dependency
/// list at all.
#[derive(Clone, Debug, PartialEq, Eq)]
pub struct PyProjectToml {
    pub name: Option<Vec<u8>>,
    pub version: Option<Vec<u8>>,
    pub dependencies: Option<Vec<Vec<u8>>>,
}

/// Start of the file-name component of `path`: the position after its
/// last path separator, `cur` being the best candidate so far.
pub open spec fn file_name_start(path: Seq<u8>, i: int, cur: int) -> int
    decreases path.len() - i,
{
    if !(0 <= i < path.len()) {
        cur
    } else if path[i] == crate::scan::B_SLASH || path[i] == B_BACKSLASH {
        file_name_start(path, i + 1, i + 1)
    } else {
        file_name_start(path, i + 1, cur)
    }
}

pub proof fn lemma_file_name_start(path: Seq<u8>, i: int, cur: int)
    requires
        0 <= cur <= i <= path.len(),
    ensures
        cur <= file_name_start(path, i, cur) <= path.len(),
    decreases path.len() - i,
{
    if i < path.len() {
        if path[i] == crate::scan::B_SLASH || path[i] == B_BACKSLASH {
            lemma_file_name_start(path, i + 1, i + 1);
        } else {
            lemma_file_name_start(path, i + 1, cur);
        }
    }
}

/// The bytes of the file name `pyproject.toml`.
pub open spec fn pyproject_file_name() -> Seq<u8> {
    seq![112u8, 121u8, 112u8, 114u8, 111u8, 106u8, 101u8, 99u8, 116u8, 46u8, 116u8, 111u8, 109u8, 108u8]
}

/// Whether the file-name component of `path` is `pyproject.toml`.
pub open spec fn is_pyproject_path(path: Seq<u8>) -> bool {
    path.subrange(file_name_start(path, 0, 0), path.len() as int) == pyproject_file_name()
}

fn file_name_start_exec(path: &[u8]) -> (r: usize)
    ensures
        r as int == file_name_start(path@, 0, 0),
        r <= path@.len(),
{
    proof {
        lemma_file_name_start(path@, 0, 0);
    }
    let mut i: usize = 0;
    let mut cur: usize = 0;
    while i < path.len()
        invariant
            cur <= i <= path@.len(),
            file_name_start(path@, 0, 0) == file_name_start(path@, i as int, cur as int),
        decreases path@.len() - i,
    {
        if path[i] == crate::scan::B_SLASH || path[i] == B_BACKSLASH {
            cur = i + 1;
        }
        i = i + 1;
    }
    cur
}

/// Whether the suffix of `s` from `start` on is exactly `pyproject.toml`.
fn suffix_is_pyproject(s: &[u8], start: usize) -> (r: bool)
    requires
        start <= s@.len(),
    ensures
        r == (s@.subrange(start as int, s@.len() as int) == pyproject_file_name()),
{
    let ghost suffix = s@.subrange(start as int, s@.len() as int);
    if s.len() - start != 14 {
        proof {
            assert(pyproject_file_name().len() == 14);
        }
        return false;
    }
    let same = s[start] == 112 && s[start + 1] == 121 && s[start + 2] == 112 && s[start + 3] == 114
        && s[start + 4] == 111 && s[start + 5] == 106 && s[start + 6] == 101 && s[start + 7] == 99
        && s[start + 8] == 116 && s[start + 9] == 46 && s[start + 10] == 116 && s[start + 11]
        == 111 && s[start + 12] == 109 && s[start + 13] == 108;
    proof {
        if same {
            assert(suffix =~= pyproject_file_name());
        } else {
            if suffix == pyproject_file_name() {
                assert(forall|j: int|
                    0 <= j < 14 ==> s@[start + j] == #[trigger] pyproject_file_name()[j]) by {
                    assert(forall|j: int|
                        0 <= j < 14 ==> #[trigger] pyproject_file_name()[j] == suffix[j]);
                }
                assert(false);
            }
        }
    }
    same
}

/// Classifies the path of a requirements source: only a file named
/// `pyproject.toml` is a supported kind.
pub fn requirements_source_kind(path: &[u8]) -> (r: SourceKind)
    ensures
        (r == SourceKind::PyprojectToml) == is_pyproject_path(path@),
{
    let start = file_name_start_exec(path);
    if suffix_is_pyproject(path, start) {
        SourceKind::PyprojectToml
    } else {
        SourceKind::Unsupported
    }
}

/// Whether a TOML document is well formed: what `toml::from_slice` would
/// accept, a function of the bytes alone.
pub uninterp spec fn toml_accepts(s: Seq<u8>) -> bool;

/// What the `[project]` table's `dependencies` entry of an accepted TOML
/// document holds, a function of the bytes alone: `None` when the
/// document declares no such list, `Some(Err(..))` when the entry is
/// present but not an array of strings, `Some(Ok(ds))` the declared
/// strings in order. Says nothing of bytes the TOML grammar rejects.
pub uninterp spec fn pyproject_deps(s: Seq<u8>) -> Option<Result<Seq<Seq<u8>>, ()>>;

/// What locating the dependency list in a document yields.
#[derive(Debug, PartialEq, Eq)]
pub enum DepsLookup {
    /// The bytes are no accepted TOML document.
    NoDocument,
    /// An accepted document with no `[project]` `dependencies` entry.
    NoList,
    /// The entry is present but not an array of strings.
    NotStrings,
    /// The declared dependency strings, in order.
    List(Vec<Vec<u8>>),
}

/// Relies on toml::from_slice: whether a byte string is accepted as a
/// TOML document depends on its bytes alone; the parsed value is returned
/// for the navigation wrappers below to read.
#[verifier::external_body]
fn toml_parse(contents: &[u8]) -> (r: Option<toml::Value>)
    ensures
        r is Some <==> toml_accepts(contents@),
{
    toml::from_slice::<toml::Value>(contents).ok()
}

#[verifier::external_type_specification]
#[verifier::external_body]
pub struct ExTomlValue(toml::Value);

/// Relies on toml::Value::get: looks a key up when the value is a table,
/// and yields nothing otherwise.
#[verifier::external_body]
fn toml_get<'a>(v: &'a toml::Value, key: &str) -> (r: Option<&'a toml::Value>) {
    v.get(key)
}

/// Relies on toml::Value::as_str: the bytes of a string value, and
/// nothing for any other value.
#[verifier::external_body]
fn toml_str_bytes(v: &toml::Value) -> (r: Option<Vec<u8>>) {
    v.as_str().map(|s| s.as_bytes().to_vec())
}

/// Relies on toml::from_slice and toml::Value::{get, as_array, as_str}:
/// whether the bytes are accepted, and which strings their `[project]`
/// `dependencies` entry holds, are each a function of the bytes alone,
/// named `toml_accepts` and `pyproject_deps`.
#[verifier::external_body]
fn toml_project_dependencies(contents: &[u8]) -> (r: DepsLookup)
    ensures
        (r is NoDocument) == !toml_accepts(contents@),
        toml_accepts(contents@) ==> ({
            match pyproject_deps(contents@) {
                Option::None => r is NoList,
                Option::Some(Result::Err(_)) => r is NotStrings,
                Option::Some(Result::Ok(ds)) => r matches DepsLookup::List(dv) && byte_views(dv@)
                    == ds,
            }
        }),
{
    let v: toml::Value = match toml::from_slice(contents) {
        Ok(v) => v,
        Err(_) => return DepsLookup::NoDocument,
    };
    match v.get("project").and_then(|p| p.get("dependencies")).map(|d| d.as_array()) {
        None => DepsLookup::NoList,
        Some(None) => DepsLookup::NotStrings,
        Some(Some(a)) => match a.iter().map(|d| d.as_str().map(|s| s.as_bytes().to_vec())).collect() {
            None => DepsLookup::NotStrings,
            Some(list) => DepsLookup::List(list),
        },
    }
}

/// Reads the `[project]` section of a `pyproject.toml` document: its
/// name, version and dependency list, the latter `None` when absent. A
/// document the TOML grammar rejects, and a `dependencies` entry that is
/// not an array of strings, are malformed; a missing `[project]` section
/// or a missing list is not. Which dependency strings come back is
/// pinned to the document bytes through `pyproject_deps`.
pub fn parse_pyproject(contents: &[u8]) -> (r: Result<PyProjectToml, ManifestError>)
    ensures
        !toml_accepts(contents@) ==> r == Result::Err::<PyProjectToml, ManifestError>(
            ManifestError::MalformedDocument,
        ),
        r is Ok ==> toml_accepts(contents@),
        r is Err ==> r == Result::Err::<PyProjectToml, ManifestError>(
            ManifestError::MalformedDocument,
        ),
        toml_accepts(contents@) ==> ({
            match pyproject_deps(contents@) {
                Option::None => r matches Result::Ok(m) && m.dependencies is None,
                Option::Some(Result::Err(_)) => r is Err,
                Option::Some(Result::Ok(ds)) => r matches Result::Ok(m) && (m.dependencies
                    matches Some(dv) && byte_views(dv@) == ds),
            }
        }),
{
    let lookup = toml_project_dependencies(contents);
    if let DepsLookup::NoDocument = lookup {
        return Result::Err(ManifestError::MalformedDocument);
    }
    let (name, version) = match toml_parse(contents) {
        None => (None, None),
        Some(doc) => {
            match toml_get(&doc, "project") {
                None => (None, None),
                Some(project) => {
                    let name = match toml_get(project, "name") {
                        None => None,
                        Some(v) => toml_str_bytes(v),
                    };
                    let version = match toml_get(project, "version") {
                        None => None,
                        Some(v) => toml_str_bytes(v),
                    };
                    (name, version)
                },
            }
        },
    };
    match lookup {
        DepsLookup::NoDocument => Result::Err(ManifestError::MalformedDocument),
        DepsLookup::NoList => Result::Ok(PyProjectToml { name, version, dependencies: None }),
        DepsLookup::NotStrings => Result::Err(ManifestError::MalformedDocument),
        DepsLookup::List(ds) => Result::Ok(
            PyProjectToml { name, version, dependencies: Some(ds) },
        ),
    }
}

/// The views of a sequence of parsed requirements.
pub open spec fn req_views(v: Seq<RequirementSpecifier>) -> Seq<SpecRequirement> {
    v.map_values(|r: RequirementSpecifier| r@)
}

/// Every string of `deps` parses, and `reqs` holds the results in order.
pub open spec fn parses_to(deps: Seq<Seq<u8>>, reqs: Seq<SpecRequirement>) -> bool {
    &&& reqs.len() == deps.len()
    &&& forall|i: int|
        0 <= i < deps.len() ==> parse_requirement_spec(#[trigger] deps[i]) == Result::Ok::<
            SpecRequirement,
            SpecifierError,
        >(reqs[i])
}

/// `e` names the first string of `deps` that does not parse, by position,
/// with the specifier error it was rejected with.
pub open spec fn fails_at(deps: Seq<Seq<u8>>, e: ManifestError) -> bool {
    match e {
        ManifestError::BadRequirement(idx, se) => {
            &&& idx < deps.len()
            &&& parse_requirement_spec(deps[idx as int]) == Result::Err::<
                SpecRequirement,
                SpecifierError,
            >(se)
            &&& forall|i: int|
                0 <= i < idx ==> parse_requirement_spec(#[trigger] deps[i]) is Ok
        },
        _ => false,
    }
}

/// Parses each raw dependency string in declaration order, returning the
/// ordered results, or the position and error of the first malformed
/// entry; no partial list is ever returned.
pub fn requirements_from_list(deps: &Vec<Vec<u8>>) -> (r: Result<
    Vec<RequirementSpecifier>,
    ManifestError,
>)
    ensures
        match r {
            Result::Ok(reqs) => parses_to(byte_views(deps@), req_views(reqs@)),
            Result::Err(e) => fails_at(byte_views(deps@), e),
        },
{
    let mut out: Vec<RequirementSpecifier> = Vec::new();
    let mut idx: usize = 0;
    while idx < deps.len()
        invariant
            idx <= deps@.len(),
            out@.len() == idx,
            forall|i: int|
                0 <= i < idx ==> parse_requirement_spec(#[trigger] byte_views(deps@)[i])
                    == Result::Ok::<SpecRequirement, SpecifierError>(req_views(out@)[i]),
        decreases deps@.len() - idx,
    {
        match parse_requirement(deps[idx].as_slice()) {
            Result::Ok(req) => {
                let ghost pre = out@;
                out.push(req);
                proof {
                    assert(req_views(out@) =~= req_views(pre).push(req@));
                }
            },
            Result::Err(e) => {
                return Result::Err(ManifestError::BadRequirement(idx, e));
            },
        }
        idx = idx + 1;
    }
    Result::Ok(out)
}

/// The requirements a parsed manifest declares: none at all when the
/// dependency list is absent - that is no error - else each string
/// parsed in order, failing fast on the first malformed one.
pub fn manifest_requirements(manifest: &PyProjectToml) -> (r: Result<
    Vec<RequirementSpecifier>,
    ManifestError,
>)
    ensures
        manifest.dependencies is None ==> (r matches Result::Ok(reqs) && reqs@.len() == 0),
        manifest.dependencies matches Some(deps) ==> match r {
            Result::Ok(reqs) => parses_to(byte_views(deps@), req_views(reqs@)),
            Result::Err(e) => fails_at(byte_views(deps@), e),
        },
{
    match &manifest.dependencies {
        None => Result::Ok(Vec::new()),
        Some(deps) => requirements_from_list(deps),
    }
}

/// Loads the requirements a manifest file declares, from the path it was
/// named by and the outcome of reading it (`None` when the file does not
/// exist). The path decides the source kind first; a missing file is
/// `NotFound`, distinct from `MalformedDocument`, which only a present
/// but unreadable document yields.
pub fn parse_requirements(path: &[u8], contents: Option<&[u8]>) -> (r: Result<
    Vec<RequirementSpecifier>,
    ManifestError,
>)
    ensures
        !is_pyproject_path(path@) ==> r == Result::Err::<Vec<RequirementSpecifier>, ManifestError>(
            ManifestError::UnsupportedFormat,
        ),
        is_pyproject_path(path@) && contents is None ==> ({
            &&& r matches Result::Err(e)
            &&& e matches ManifestError::NotFound(p)
            &&& p@ == path@
        }),
        (contents matches Some(c) && is_pyproject_path(path@) && !toml_accepts(c@)) ==> r
            == Result::Err::<Vec<RequirementSpecifier>, ManifestError>(
            ManifestError::MalformedDocument,
        ),
        contents matches Some(c) ==> ((is_pyproject_path(path@) && toml_accepts(c@)) ==> ({
            match pyproject_deps(c@) {
                Option::None => r matches Result::Ok(reqs) && reqs@.len() == 0,
                Option::Some(Result::Err(_)) => r == Result::Err::<
                    Vec<RequirementSpecifier>,
                    ManifestError,
                >(ManifestError::MalformedDocument),
                Option::Some(Result::Ok(ds)) => match r {
                    Result::Ok(reqs) => parses_to(ds, req_views(reqs@)),
                    Result::Err(e) => fails_at(ds, e),
                },
            }
        })),
        is_pyproject_path(path@) && contents is Some ==> match r {
            Result::Err(e) => !(e is NotFound) && !(e is UnsupportedFormat),
            Result::Ok(_) => true,
        },
{
    match requirements_source_kind(path) {
        SourceKind::Unsupported => Result::Err(ManifestError::UnsupportedFormat),
        SourceKind::PyprojectToml => {
            match contents {
                None => {
                    let p = crate::scan::slice_to_vec_exec(path, 0, path.len());
                    proof {
                        assert(p@ =~= path@);
                    }
                    Result::Err(ManifestError::NotFound(p))
                },
                Some(c) => {
                    match parse_pyproject(c) {
                        Result::Err(e) => Result::Err(e),
                        Result::Ok(manifest) => manifest_requirements(&manifest),
                    }
                },
            }
        },
    }
}

} // verus!
