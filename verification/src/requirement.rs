//! The dependency-specifier parser: one raw requirement string in, one
//! structured requirement out, or a structured error naming the malformed
//! clause.
//!
//! The grammar is the PEP 508 family with two lenient extensions: extra
//! whitespace (and parentheses) inside the version-constraint section is
//! ignored, and extras may stand in any order. A direct `@` reference
//! always wins over a version constraint: the two are never combined. A
//! `file://` URL is classified as a local path, as every file-scheme URL
//! is, so that file-scheme origins are classified consistently.

use vstd::prelude::*;

use crate::scan::find_before;
use crate::scan::find_before_exec;
use crate::scan::is_space;
use crate::scan::lemma_find_before;
use crate::scan::lemma_run_end;
use crate::scan::rtrim_end;
use crate::scan::rtrim_end_exec;
use crate::scan::run_end;
use crate::scan::run_end_exec;
use crate::scan::slice_to_vec_exec;
use crate::scan::ByteClass;
use crate::scan::B_AT;
use crate::scan::B_BANG;
use crate::scan::B_COMMA;
use crate::scan::B_EQ;
use crate::scan::B_GT;
use crate::scan::B_LBRACKET;
use crate::scan::B_LPAREN;
use crate::scan::B_LT;
use crate::scan::B_RBRACKET;
use crate::scan::B_RPAREN;
use crate::scan::B_SEMI;
use crate::scan::B_TILDE;

verus! {

/// A version-comparison operator of a constraint clause.
#[derive(Clone, Copy, Debug, PartialEq, Eq, Structural)]
pub enum VersionOp {
    /// `==`
    Eq,
    /// `!=`
    Ne,
    /// `<=`
    Le,
    /// `>=`
    Ge,
    /// `<`
    Lt,
    /// `>`
    Gt,
    /// `~=`
    Compatible,
    /// `===`
    Arbitrary,
}

/// One `<operator><version>` term of a version constraint.
#[derive(Clone, Debug, PartialEq, Eq)]
pub struct VersionClause {
    pub op: VersionOp,
    pub version: Vec<u8>,
}

/// The mathematical value of a version clause.
pub struct SpecVersionClause {
    pub op: VersionOp,
    pub version: Seq<u8>,
}

impl View for VersionClause {
    type V = SpecVersionClause;

    open spec fn view(&self) -> SpecVersionClause {
        SpecVersionClause { op: self.op, version: self.version@ }
    }
}

/// Where a requirement is resolved from.
#[derive(Clone, Debug, PartialEq, Eq)]
pub enum Origin {
    /// A plain name with an optional version constraint, resolved from a
    /// package registry.
    Registry,
    /// A version-control URL (`git+...`, `hg+...`, `svn+...`, `bzr+...`).
    VcsUrl(Vec<u8>),
    /// Any other direct `scheme://...` URL.
    DirectUrl(Vec<u8>),
    /// A `file://` URL or a bare filesystem path.
    LocalPath(Vec<u8>),
}

/// The mathematical value of an origin.
pub enum SpecOrigin {
    Registry,
    VcsUrl(Seq<u8>),
    DirectUrl(Seq<u8>),
    LocalPath(Seq<u8>),
}

impl View for Origin {
    type V = SpecOrigin;

    open spec fn view(&self) -> SpecOrigin {
        match self {
            Origin::Registry => SpecOrigin::Registry,
            Origin::VcsUrl(u) => SpecOrigin::VcsUrl(u@),
            Origin::DirectUrl(u) => SpecOrigin::DirectUrl(u@),
            Origin::LocalPath(u) => SpecOrigin::LocalPath(u@),
        }
    }
}

/// Why a requirement string was rejected.
#[derive(Clone, Copy, Debug, PartialEq, Eq, Structural)]
pub enum SpecifierError {
    /// No package name at the start of the string.
    EmptyName,
    /// A `[` extras bracket with no closing `]`.
    UnclosedExtras,
    /// A version clause that begins with no known operator.
    UnknownOperator,
    /// A version clause whose operator is followed by no version.
    EmptyVersion,
    /// A direct `@` reference with nothing after it.
    BadUrl,
}

/// One parsed dependency specifier.
#[derive(Clone, Debug, PartialEq, Eq)]
pub struct RequirementSpecifier {
    /// The package name, case and format preserved from the source.
    pub name: Vec<u8>,
    /// The extras requested in brackets, first occurrence order, no
    /// duplicate.
    pub extras: Vec<Vec<u8>>,
    /// The version constraint: clauses combined with implicit `and`;
    /// empty when absent.
    pub version_clauses: Vec<VersionClause>,
    /// The environment marker after `;`, verbatim but for surrounding
    /// whitespace, not evaluated.
    pub marker: Option<Vec<u8>>,
    /// Exactly one origin form.
    pub origin: Origin,
}

/// The mathematical value of a parsed requirement.
pub struct SpecRequirement {
    pub name: Seq<u8>,
    pub extras: Seq<Seq<u8>>,
    pub version_clauses: Seq<SpecVersionClause>,
    pub marker: Option<Seq<u8>>,
    pub origin: SpecOrigin,
}

/// The views of a sequence of byte vectors.
pub open spec fn byte_views(v: Seq<Vec<u8>>) -> Seq<Seq<u8>> {
    v.map_values(|x: Vec<u8>| x@)
}

/// The views of a sequence of version clauses.
pub open spec fn clause_views(v: Seq<VersionClause>) -> Seq<SpecVersionClause> {
    v.map_values(|c: VersionClause| c@)
}

impl View for RequirementSpecifier {
    type V = SpecRequirement;

    open spec fn view(&self) -> SpecRequirement {
        SpecRequirement {
            name: self.name@,
            extras: byte_views(self.extras@),
            version_clauses: clause_views(self.version_clauses@),
            marker: match self.marker {
                Option::None => Option::<Seq<u8>>::None,
                Option::Some(m) => Option::Some(m@),
            },
            origin: self.origin@,
        }
    }
}

/// The extras named between the brackets, comma-separated, trimmed,
/// empty entries dropped and duplicates merged, accumulated onto `acc`.
pub open spec fn extras_list(s: Seq<u8>, i: int, close: int, acc: Seq<Seq<u8>>) -> Seq<Seq<u8>>
    decreases close - i,
    via extras_list_dec
{
    if !(0 <= i <= close <= s.len()) {
        acc
    } else {
        let k = run_end(s, i, ByteClass::Space);
        let x = s.subrange(k, run_end(s, k, ByteClass::Name));
        let j = find_before(s, i, close, B_COMMA);
        let acc2 = if x.len() > 0 && !acc.contains(x) {
            acc.push(x)
        } else {
            acc
        };
        if j == close {
            acc2
        } else {
            extras_list(s, j + 1, close, acc2)
        }
    }
}

#[via_fn]
proof fn extras_list_dec(s: Seq<u8>, i: int, close: int, acc: Seq<Seq<u8>>) {
    if 0 <= i <= close <= s.len() {
        lemma_find_before(s, i, close, B_COMMA);
    }
}

/// First position at or after `i` of a `;` that follows whitespace (the
/// only way a marker may follow a direct URL), or the length of `s`.
pub open spec fn marker_split(s: Seq<u8>, i: int) -> int
    decreases s.len() - i,
{
    if !(0 <= i < s.len()) {
        s.len() as int
    } else if s[i] == B_SEMI && 0 < i && is_space(s[i - 1]) {
        i
    } else {
        marker_split(s, i + 1)
    }
}

pub proof fn lemma_marker_split(s: Seq<u8>, i: int)
    requires
        0 <= i <= s.len(),
    ensures
        i <= marker_split(s, i) <= s.len(),
        marker_split(s, i) < s.len() ==> s[marker_split(s, i)] == B_SEMI,
    decreases s.len() - i,
{
    if i < s.len() && !(s[i] == B_SEMI && 0 < i && is_space(s[i - 1])) {
        lemma_marker_split(s, i + 1);
    }
}

/// The bytes of `[i, end)` with leading and trailing whitespace dropped.
pub open spec fn trim_range(s: Seq<u8>, i: int, end: int) -> Seq<u8> {
    let k = run_end(s, i, ByteClass::Space);
    s.subrange(k, rtrim_end(s, k, end))
}

/// Whether the URL names a version-control transport: a `git+`, `hg+`,
/// `svn+` or `bzr+` prefix.
pub open spec fn is_vcs_url(u: Seq<u8>) -> bool {
    ||| (u.len() >= 4 && u[0] == 103 && u[1] == 105 && u[2] == 116 && u[3] == 43)  // git+
    ||| (u.len() >= 3 && u[0] == 104 && u[1] == 103 && u[2] == 43)  // hg+
    ||| (u.len() >= 4 && u[0] == 115 && u[1] == 118 && u[2] == 110 && u[3] == 43)  // svn+
    ||| (u.len() >= 4 && u[0] == 98 && u[1] == 122 && u[2] == 114 && u[3] == 43)  // bzr+
}

/// Whether the URL carries the `file://` scheme.
pub open spec fn is_file_url(u: Seq<u8>) -> bool {
    u.len() >= 7 && u[0] == 102 && u[1] == 105 && u[2] == 108 && u[3] == 101 && u[4] == 58 && u[5]
        == 47 && u[6] == 47  // file://
}

/// Whether `://` occurs anywhere at or after `i`: the mark of an explicit
/// URL scheme.
pub open spec fn has_scheme_sep(u: Seq<u8>, i: int) -> bool
    decreases u.len() - i,
{
    if i < 0 || i + 3 > u.len() {
        false
    } else {
        (u[i] == 58 && u[i + 1] == 47 && u[i + 2] == 47) || has_scheme_sep(u, i + 1)
    }
}

/// The origin class of a non-empty direct-reference target.
pub open spec fn classify_url(u: Seq<u8>) -> SpecOrigin {
    if is_vcs_url(u) {
        SpecOrigin::VcsUrl(u)
    } else if is_file_url(u) {
        SpecOrigin::LocalPath(u)
    } else if has_scheme_sep(u, 0) {
        SpecOrigin::DirectUrl(u)
    } else {
        SpecOrigin::LocalPath(u)
    }
}

/// Every file-scheme URL is classified as a local path: file-scheme
/// origins never fall between two variants, whatever the rest of the URL
/// holds.
pub proof fn lemma_file_scheme_is_local_path(u: Seq<u8>)
    requires
        is_file_url(u),
    ensures
        classify_url(u) == SpecOrigin::LocalPath(u),
{
}

/// The operator at the head of the clause `[i, j)` of `t`, with the
/// position just after it; longest operator first, so `===` is never read
/// as `==`.
pub open spec fn clause_op_end(t: Seq<u8>, i: int, j: int) -> Option<(VersionOp, int)> {
    if !(0 <= i <= j <= t.len()) {
        Option::None
    } else if i + 3 <= j && t[i] == B_EQ && t[i + 1] == B_EQ && t[i + 2] == B_EQ {
        Option::Some((VersionOp::Arbitrary, i + 3))
    } else if i + 2 <= j && t[i] == B_EQ && t[i + 1] == B_EQ {
        Option::Some((VersionOp::Eq, i + 2))
    } else if i + 2 <= j && t[i] == B_BANG && t[i + 1] == B_EQ {
        Option::Some((VersionOp::Ne, i + 2))
    } else if i + 2 <= j && t[i] == B_LT && t[i + 1] == B_EQ {
        Option::Some((VersionOp::Le, i + 2))
    } else if i + 2 <= j && t[i] == B_GT && t[i + 1] == B_EQ {
        Option::Some((VersionOp::Ge, i + 2))
    } else if i + 2 <= j && t[i] == B_TILDE && t[i + 1] == B_EQ {
        Option::Some((VersionOp::Compatible, i + 2))
    } else if i + 1 <= j && t[i] == B_LT {
        Option::Some((VersionOp::Lt, i + 1))
    } else if i + 1 <= j && t[i] == B_GT {
        Option::Some((VersionOp::Gt, i + 1))
    } else {
        Option::None
    }
}

/// The clause standing at `[i, j)` of the whitespace-stripped constraint
/// text: a known operator then a non-empty version.
pub open spec fn clause_at(t: Seq<u8>, i: int, j: int) -> Result<SpecVersionClause, SpecifierError> {
    match clause_op_end(t, i, j) {
        Option::None => Result::Err(SpecifierError::UnknownOperator),
        Option::Some((op, p)) => if p == j {
            Result::Err(SpecifierError::EmptyVersion)
        } else {
            Result::Ok(SpecVersionClause { op, version: t.subrange(p, j) })
        },
    }
}

/// The comma-separated clauses of the stripped constraint text from `i`
/// on; the first malformed clause aborts the parse.
pub open spec fn clauses_from(t: Seq<u8>, i: int) -> Result<
    Seq<SpecVersionClause>,
    SpecifierError,
>
    decreases t.len() - i,
    via clauses_from_dec
{
    if !(0 <= i <= t.len()) {
        Result::Ok(Seq::empty())
    } else {
        let j = find_before(t, i, t.len() as int, B_COMMA);
        match clause_at(t, i, j) {
            Result::Err(e) => Result::Err(e),
            Result::Ok(c) => if j == t.len() {
                Result::Ok(seq![c])
            } else {
                match clauses_from(t, j + 1) {
                    Result::Err(e) => Result::Err(e),
                    Result::Ok(rest) => Result::Ok(seq![c] + rest),
                }
            },
        }
    }
}

#[via_fn]
proof fn clauses_from_dec(t: Seq<u8>, i: int) {
    if 0 <= i <= t.len() {
        lemma_find_before(t, i, t.len() as int, B_COMMA);
    }
}

/// A clause sequence prefixed onto the outcome of parsing the remaining
/// clauses.
pub open spec fn prepend_clauses(
    pre: Seq<SpecVersionClause>,
    r: Result<Seq<SpecVersionClause>, SpecifierError>,
) -> Result<Seq<SpecVersionClause>, SpecifierError> {
    match r {
        Result::Ok(rest) => Result::Ok(pre + rest),
        Result::Err(e) => Result::Err(e),
    }
}

/// Whether a byte of the version-constraint section survives lenient
/// stripping: whitespace and parentheses are dropped before clauses are
/// read.
pub open spec fn keeps_version_byte(b: u8) -> bool {
    !is_space(b) && b != B_LPAREN && b != B_RPAREN
}

/// The bytes of `[i, end)` that survive lenient stripping, in order.
pub open spec fn strip_range(s: Seq<u8>, i: int, end: int) -> Seq<u8>
    decreases end - i,
{
    if !(0 <= i < end && end <= s.len()) {
        Seq::empty()
    } else {
        let rest = strip_range(s, i + 1, end);
        if keeps_version_byte(s[i]) {
            seq![s[i]] + rest
        } else {
            rest
        }
    }
}

/// The direct-reference form after the `@` at `pos`: a URL or path up to
/// a whitespace-preceded `;`, then an optional marker.
pub open spec fn parse_direct_origin(
    s: Seq<u8>,
    name: Seq<u8>,
    extras: Seq<Seq<u8>>,
    pos: int,
) -> Result<SpecRequirement, SpecifierError> {
    let m = marker_split(s, pos);
    let url = trim_range(s, pos, m);
    let marker = if m == s.len() {
        Option::<Seq<u8>>::None
    } else {
        Option::Some(trim_range(s, m + 1, s.len() as int))
    };
    if url.len() == 0 {
        Result::Err(SpecifierError::BadUrl)
    } else {
        Result::Ok(
            SpecRequirement {
                name,
                extras,
                version_clauses: Seq::empty(),
                marker,
                origin: classify_url(url),
            },
        )
    }
}

/// The registry form from `pos` on: an optional version constraint up to
/// `;`, then an optional marker.
pub open spec fn parse_version_marker(
    s: Seq<u8>,
    name: Seq<u8>,
    extras: Seq<Seq<u8>>,
    pos: int,
) -> Result<SpecRequirement, SpecifierError> {
    let m = find_before(s, pos, s.len() as int, B_SEMI);
    let marker = if m == s.len() {
        Option::<Seq<u8>>::None
    } else {
        Option::Some(trim_range(s, m + 1, s.len() as int))
    };
    let vt = strip_range(s, pos, m);
    if vt.len() == 0 {
        Result::Ok(
            SpecRequirement {
                name,
                extras,
                version_clauses: Seq::empty(),
                marker,
                origin: SpecOrigin::Registry,
            },
        )
    } else {
        match clauses_from(vt, 0) {
            Result::Err(e) => Result::Err(e),
            Result::Ok(cs) => Result::Ok(
                SpecRequirement {
                    name,
                    extras,
                    version_clauses: cs,
                    marker,
                    origin: SpecOrigin::Registry,
                },
            ),
        }
    }
}

/// What follows the name and extras: a direct `@` reference when one
/// stands next - it always wins over a version constraint - else the
/// registry form.
pub open spec fn parse_after_extras(
    s: Seq<u8>,
    name: Seq<u8>,
    extras: Seq<Seq<u8>>,
    pos: int,
) -> Result<SpecRequirement, SpecifierError> {
    let j = run_end(s, pos, ByteClass::Space);
    if j < s.len() && s[j] == B_AT {
        parse_direct_origin(s, name, extras, j + 1)
    } else {
        parse_version_marker(s, name, extras, j)
    }
}

/// One raw dependency-specifier string, parsed: the name, then optional
/// extras, then either a direct reference or a version constraint, then
/// an optional marker.
pub open spec fn parse_requirement_spec(s: Seq<u8>) -> Result<SpecRequirement, SpecifierError> {
    let i = run_end(s, 0, ByteClass::Space);
    let e = run_end(s, i, ByteClass::Name);
    if e == i {
        Result::Err(SpecifierError::EmptyName)
    } else {
        let name = s.subrange(i, e);
        let j = run_end(s, e, ByteClass::Space);
        if j < s.len() && s[j] == B_LBRACKET {
            let close = find_before(s, j + 1, s.len() as int, B_RBRACKET);
            if close == s.len() {
                Result::Err(SpecifierError::UnclosedExtras)
            } else {
                parse_after_extras(s, name, extras_list(s, j + 1, close, Seq::empty()), close + 1)
            }
        } else {
            parse_after_extras(s, name, Seq::empty(), e)
        }
    }
}

fn marker_split_exec(s: &[u8], i: usize) -> (r: usize)
    requires
        i <= s@.len(),
    ensures
        r as int == marker_split(s@, i as int),
        i <= r <= s@.len(),
{
    proof {
        lemma_marker_split(s@, i as int);
    }
    let mut k = i;
    while k < s.len()
        invariant
            i <= k <= s@.len(),
            marker_split(s@, i as int) == marker_split(s@, k as int),
        decreases s@.len() - k,
    {
        if s[k] == B_SEMI && k > 0 && crate::scan::in_class_exec(s[k - 1], ByteClass::Space) {
            return k;
        }
        k = k + 1;
    }
    k
}

fn has_scheme_sep_exec(u: &[u8]) -> (r: bool)
    ensures
        r == has_scheme_sep(u@, 0),
{
    if u.len() < 3 {
        return false;
    }
    let mut k: usize = 0;
    while k <= u.len() - 3
        invariant
            3 <= u@.len(),
            k <= u@.len(),
            has_scheme_sep(u@, 0) == has_scheme_sep(u@, k as int),
        decreases u@.len() - k,
    {
        if u[k] == 58 && u[k + 1] == 47 && u[k + 2] == 47 {
            return true;
        }
        k = k + 1;
    }
    false
}

fn classify_url_exec(u: Vec<u8>) -> (r: Origin)
    ensures
        r@ == classify_url(u@),
{
    let vcs = (u.len() >= 4 && u[0] == 103 && u[1] == 105 && u[2] == 116 && u[3] == 43) || (u.len()
        >= 3 && u[0] == 104 && u[1] == 103 && u[2] == 43) || (u.len() >= 4 && u[0] == 115 && u[1]
        == 118 && u[2] == 110 && u[3] == 43) || (u.len() >= 4 && u[0] == 98 && u[1] == 122 && u[2]
        == 114 && u[3] == 43);
    if vcs {
        Origin::VcsUrl(u)
    } else if u.len() >= 7 && u[0] == 102 && u[1] == 105 && u[2] == 108 && u[3] == 101 && u[4]
        == 58 && u[5] == 47 && u[6] == 47 {
        Origin::LocalPath(u)
    } else if has_scheme_sep_exec(u.as_slice()) {
        Origin::DirectUrl(u)
    } else {
        Origin::LocalPath(u)
    }
}

/// The bytes of `[i, end)` of `s`, both ends trimmed of whitespace.
fn trim_exec(s: &[u8], i: usize, end: usize) -> (r: Vec<u8>)
    requires
        i <= s@.len(),
        end <= s@.len(),
        run_end(s@, i as int, ByteClass::Space) <= end as int,
    ensures
        r@ == trim_range(s@, i as int, end as int),
{
    let k = run_end_exec(s, i, ByteClass::Space);
    let e = rtrim_end_exec(s, k, end);
    slice_to_vec_exec(s, k, e)
}

fn strip_exec(s: &[u8], i: usize, end: usize) -> (r: Vec<u8>)
    requires
        i <= end <= s@.len(),
    ensures
        r@ == strip_range(s@, i as int, end as int),
{
    let mut out: Vec<u8> = Vec::new();
    proof {
        assert(out@ + strip_range(s@, i as int, end as int) =~= strip_range(
            s@,
            i as int,
            end as int,
        ));
    }
    let mut k = i;
    while k < end
        invariant
            i <= k <= end <= s@.len(),
            out@ + strip_range(s@, k as int, end as int) == strip_range(s@, i as int, end as int),
        decreases end - k,
    {
        let ghost pre = out@;
        let b = s[k];
        if !crate::scan::in_class_exec(b, ByteClass::Space) && b != B_LPAREN && b != B_RPAREN {
            out.push(b);
        }
        proof {
            if keeps_version_byte(b) {
                assert(out@ + strip_range(s@, k + 1, end as int) =~= pre + (seq![b] + strip_range(
                    s@,
                    k + 1,
                    end as int,
                )));
            }
        }
        k = k + 1;
    }
    proof {
        assert(out@ + strip_range(s@, end as int, end as int) =~= out@);
    }
    out
}

fn clause_op_exec(t: &[u8], i: usize, j: usize) -> (r: Option<(VersionOp, usize)>)
    requires
        i <= j <= t@.len(),
    ensures
        (r is None) == (clause_op_end(t@, i as int, j as int) is None),
        r matches Some(p) ==> clause_op_end(t@, i as int, j as int) == Option::Some(
            (p.0, p.1 as int),
        ),
{
    if j - i >= 3 && t[i] == B_EQ && t[i + 1] == B_EQ && t[i + 2] == B_EQ {
        Some((VersionOp::Arbitrary, i + 3))
    } else if j - i >= 2 && t[i] == B_EQ && t[i + 1] == B_EQ {
        Some((VersionOp::Eq, i + 2))
    } else if j - i >= 2 && t[i] == B_BANG && t[i + 1] == B_EQ {
        Some((VersionOp::Ne, i + 2))
    } else if j - i >= 2 && t[i] == B_LT && t[i + 1] == B_EQ {
        Some((VersionOp::Le, i + 2))
    } else if j - i >= 2 && t[i] == B_GT && t[i + 1] == B_EQ {
        Some((VersionOp::Ge, i + 2))
    } else if j - i >= 2 && t[i] == B_TILDE && t[i + 1] == B_EQ {
        Some((VersionOp::Compatible, i + 2))
    } else if j - i >= 1 && t[i] == B_LT {
        Some((VersionOp::Lt, i + 1))
    } else if j - i >= 1 && t[i] == B_GT {
        Some((VersionOp::Gt, i + 1))
    } else {
        None
    }
}

fn clauses_exec(t: &[u8]) -> (r: Result<Vec<VersionClause>, SpecifierError>)
    ensures
        ({
            let m = clauses_from(t@, 0);
            match r {
                Result::Ok(cs) => m == Result::Ok::<Seq<SpecVersionClause>, SpecifierError>(
                    clause_views(cs@),
                ),
                Result::Err(e) => m == Result::Err::<Seq<SpecVersionClause>, SpecifierError>(e),
            }
        }),
{
    let mut out: Vec<VersionClause> = Vec::new();
    proof {
        if let Result::Ok(rest) = clauses_from(t@, 0) {
            assert(clause_views(out@) + rest =~= rest);
        }
    }
    let mut pos: usize = 0;
    let mut done = false;
    while !done
        invariant
            pos <= t@.len(),
            !done ==> clauses_from(t@, 0) == prepend_clauses(
                clause_views(out@),
                clauses_from(t@, pos as int),
            ),
            done ==> clauses_from(t@, 0) == Result::Ok::<Seq<SpecVersionClause>, SpecifierError>(
                clause_views(out@),
            ),
        decreases t@.len() - pos + (if done {
            0int
        } else {
            1int
        }),
    {
        let ghost pre = clause_views(out@);
        let ghost pos0 = pos as int;
        let j = find_before_exec(t, pos, t.len(), B_COMMA);
        match clause_op_exec(t, pos, j) {
            None => {
                assert(clauses_from(t@, pos0) == Result::Err::<Seq<SpecVersionClause>, _>(
                    SpecifierError::UnknownOperator,
                ));
                return Result::Err(SpecifierError::UnknownOperator);
            },
            Some((op, p)) => {
                if p == j {
                    assert(clauses_from(t@, pos0) == Result::Err::<Seq<SpecVersionClause>, _>(
                        SpecifierError::EmptyVersion,
                    ));
                    return Result::Err(SpecifierError::EmptyVersion);
                }
                let version = slice_to_vec_exec(t, p, j);
                let clause = VersionClause { op, version };
                let ghost c = clause@;
                out.push(clause);
                proof {
                    assert(clause_at(t@, pos0, j as int) == Result::Ok::<SpecVersionClause, SpecifierError>(c));
                    assert(clause_views(out@) =~= pre + seq![c]);
                }
                if j == t.len() {
                    done = true;
                    proof {
                        assert(clauses_from(t@, pos0) == Result::Ok::<
                            Seq<SpecVersionClause>,
                            SpecifierError,
                        >(seq![c]));
                    }
                } else {
                    proof {
                        assert(clauses_from(t@, pos0) == prepend_clauses(
                            seq![c],
                            clauses_from(t@, j + 1),
                        ));
                        if let Result::Ok(rest) = clauses_from(t@, j + 1) {
                            assert(pre + (seq![c] + rest) =~= (pre + seq![c]) + rest);
                        }
                    }
                    pos = j + 1;
                }
            },
        }
    }
    Result::Ok(out)
}

fn extras_exec(s: &[u8], i: usize, close: usize) -> (r: Vec<Vec<u8>>)
    requires
        i <= close <= s@.len(),
    ensures
        byte_views(r@) == extras_list(s@, i as int, close as int, Seq::empty()),
{
    let mut out: Vec<Vec<u8>> = Vec::new();
    proof {
        assert(byte_views(out@) =~= Seq::<Seq<u8>>::empty());
    }
    let mut pos = i;
    let mut done = false;
    while !done
        invariant
            i <= pos <= close <= s@.len(),
            !done ==> extras_list(s@, pos as int, close as int, byte_views(out@)) == extras_list(
                s@,
                i as int,
                close as int,
                Seq::empty(),
            ),
            done ==> byte_views(out@) == extras_list(s@, i as int, close as int, Seq::empty()),
        decreases close - pos + (if done {
            0int
        } else {
            1int
        }),
    {
        let ghost pre = byte_views(out@);
        let ghost pos0 = pos as int;
        let k = run_end_exec(s, pos, ByteClass::Space);
        let e = run_end_exec(s, k, ByteClass::Name);
        let x = slice_to_vec_exec(s, k, e);
        let mut seen = false;
        let mut q: usize = 0;
        while q < out.len()
            invariant
                q <= out@.len(),
                seen <==> exists|w: int| 0 <= w < q && out@[w]@ == x@,
                x@ == s@.subrange(
                    run_end(s@, pos0, ByteClass::Space),
                    run_end(s@, run_end(s@, pos0, ByteClass::Space), ByteClass::Name),
                ),
            decreases out@.len() - q,
        {
            if crate::scan::bytes_eq(out[q].as_slice(), x.as_slice()) {
                seen = true;
            }
            q = q + 1;
        }
        proof {
            if seen {
                let w = choose|w: int| 0 <= w < out@.len() && out@[w]@ == x@;
                assert(byte_views(out@)[w] == x@);
                assert(byte_views(out@).contains(x@));
            }
            if byte_views(out@).contains(x@) {
                let w = choose|w: int|
                    0 <= w < byte_views(out@).len() && byte_views(out@)[w] == x@;
                assert(out@[w]@ == x@);
            }
            assert(seen <==> pre.contains(x@));
        }
        if x.len() > 0 && !seen {
            out.push(x);
            proof {
                assert(byte_views(out@) =~= pre.push(s@.subrange(
                    run_end(s@, pos0, ByteClass::Space),
                    run_end(s@, run_end(s@, pos0, ByteClass::Space), ByteClass::Name),
                )));
            }
        }
        let j = find_before_exec(s, pos, close, B_COMMA);
        if j == close {
            done = true;
        } else {
            pos = j + 1;
        }
    }
    out
}

fn parse_direct_origin_exec(s: &[u8], name: Vec<u8>, extras: Vec<Vec<u8>>, pos: usize) -> (r:
    Result<RequirementSpecifier, SpecifierError>)
    requires
        pos <= s@.len(),
    ensures
        ({
            let m = parse_direct_origin(s@, name@, byte_views(extras@), pos as int);
            match r {
                Result::Ok(req) => m matches Result::Ok(v) && req@ == v,
                Result::Err(e) => m == Result::Err::<SpecRequirement, SpecifierError>(e),
            }
        }),
{
    let m = marker_split_exec(s, pos);
    proof {
        lemma_run_end(s@, pos as int, ByteClass::Space);
        lemma_marker_split(s@, pos as int);
        assert(!is_space(B_SEMI));
        if run_end(s@, pos as int, ByteClass::Space) > m as int {
            assert(crate::scan::in_class(s@[m as int], ByteClass::Space));
        }
    }
    let url = trim_exec(s, pos, m);
    if url.len() == 0 {
        return Result::Err(SpecifierError::BadUrl);
    }
    let marker = if m == s.len() {
        None
    } else {
        proof {
            lemma_run_end(s@, m + 1, ByteClass::Space);
        }
        Some(trim_exec(s, m + 1, s.len()))
    };
    let origin = classify_url_exec(url);
    let result = RequirementSpecifier { name, extras, version_clauses: Vec::new(), marker, origin };
    proof {
        assert(clause_views(result.version_clauses@) =~= Seq::<SpecVersionClause>::empty());
    }
    Result::Ok(result)
}

fn parse_version_marker_exec(s: &[u8], name: Vec<u8>, extras: Vec<Vec<u8>>, pos: usize) -> (r:
    Result<RequirementSpecifier, SpecifierError>)
    requires
        pos <= s@.len(),
    ensures
        ({
            let m = parse_version_marker(s@, name@, byte_views(extras@), pos as int);
            match r {
                Result::Ok(req) => m matches Result::Ok(v) && req@ == v,
                Result::Err(e) => m == Result::Err::<SpecRequirement, SpecifierError>(e),
            }
        }),
{
    let m = find_before_exec(s, pos, s.len(), B_SEMI);
    let marker = if m == s.len() {
        None
    } else {
        proof {
            lemma_run_end(s@, m + 1, ByteClass::Space);
        }
        Some(trim_exec(s, m + 1, s.len()))
    };
    let vt = strip_exec(s, pos, m);
    if vt.len() == 0 {
        let result = RequirementSpecifier {
            name,
            extras,
            version_clauses: Vec::new(),
            marker,
            origin: Origin::Registry,
        };
        proof {
            assert(clause_views(result.version_clauses@) =~= Seq::<SpecVersionClause>::empty());
        }
        return Result::Ok(result);
    }
    match clauses_exec(vt.as_slice()) {
        Result::Err(e) => Result::Err(e),
        Result::Ok(cs) => {
            let result = RequirementSpecifier {
                name,
                extras,
                version_clauses: cs,
                marker,
                origin: Origin::Registry,
            };
            Result::Ok(result)
        },
    }
}

fn parse_after_extras_exec(s: &[u8], name: Vec<u8>, extras: Vec<Vec<u8>>, pos: usize) -> (r: Result<
    RequirementSpecifier,
    SpecifierError,
>)
    requires
        pos <= s@.len(),
    ensures
        ({
            let m = parse_after_extras(s@, name@, byte_views(extras@), pos as int);
            match r {
                Result::Ok(req) => m matches Result::Ok(v) && req@ == v,
                Result::Err(e) => m == Result::Err::<SpecRequirement, SpecifierError>(e),
            }
        }),
{
    let j = run_end_exec(s, pos, ByteClass::Space);
    if j < s.len() && s[j] == B_AT {
        parse_direct_origin_exec(s, name, extras, j + 1)
    } else {
        parse_version_marker_exec(s, name, extras, j)
    }
}

/// Parses one raw dependency-specifier string into a structured
/// requirement, or rejects it with the error naming its first malformed
/// clause; the outcome is exactly `parse_requirement_spec` on the bytes.
pub fn parse_requirement(s: &[u8]) -> (r: Result<RequirementSpecifier, SpecifierError>)
    ensures
        ({
            let m = parse_requirement_spec(s@);
            match r {
                Result::Ok(req) => m matches Result::Ok(v) && req@ == v,
                Result::Err(e) => m == Result::Err::<SpecRequirement, SpecifierError>(e),
            }
        }),
{
    let i = run_end_exec(s, 0, ByteClass::Space);
    let e = run_end_exec(s, i, ByteClass::Name);
    if e == i {
        return Result::Err(SpecifierError::EmptyName);
    }
    let name = slice_to_vec_exec(s, i, e);
    let j = run_end_exec(s, e, ByteClass::Space);
    if j < s.len() && s[j] == B_LBRACKET {
        let close = find_before_exec(s, j + 1, s.len(), B_RBRACKET);
        if close == s.len() {
            return Result::Err(SpecifierError::UnclosedExtras);
        }
        let extras = extras_exec(s, j + 1, close);
        parse_after_extras_exec(s, name, extras, close + 1)
    } else {
        let extras: Vec<Vec<u8>> = Vec::new();
        proof {
            assert(byte_views(extras@) =~= Seq::<Seq<u8>>::empty());
        }
        parse_after_extras_exec(s, name, extras, e)
    }
}

} // verus!
