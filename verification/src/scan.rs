//! Byte-level scanning primitives shared by the import extractor and the
//! requirement parser: character classes, runs, bounded searches, and
//! slice comparison, each tied to a recursive specification.

use vstd::prelude::*;

verus! {

/// ASCII bytes named for readability: `verus!` does not take byte literals.
pub const B_SPACE: u8 = 32;

pub const B_TAB: u8 = 9;

pub const B_CR: u8 = 13;

pub const B_NL: u8 = 10;

pub const B_LOWER_A: u8 = 97;

pub const B_LOWER_Z: u8 = 122;

pub const B_UPPER_A: u8 = 65;

pub const B_UPPER_Z: u8 = 90;

pub const B_DIGIT_0: u8 = 48;

pub const B_DIGIT_9: u8 = 57;

pub const B_UNDERSCORE: u8 = 95;

pub const B_HYPHEN: u8 = 45;

pub const B_DOT: u8 = 46;

pub const B_COMMA: u8 = 44;

pub const B_HASH: u8 = 35;

pub const B_SEMI: u8 = 59;

pub const B_LBRACKET: u8 = 91;

pub const B_RBRACKET: u8 = 93;

pub const B_AT: u8 = 64;

pub const B_LPAREN: u8 = 40;

pub const B_RPAREN: u8 = 41;

pub const B_SLASH: u8 = 47;

pub const B_EQ: u8 = 61;

pub const B_BANG: u8 = 33;

pub const B_LT: u8 = 60;

pub const B_GT: u8 = 62;

pub const B_TILDE: u8 = 126;

pub const B_COLON: u8 = 58;

pub const B_BACKSLASH: u8 = 92;

/// Horizontal whitespace inside a statement or a requirement string.
pub open spec fn is_space(b: u8) -> bool {
    b == B_SPACE || b == B_TAB || b == B_CR
}

/// A byte of a Python identifier.
pub open spec fn is_ident_byte(b: u8) -> bool {
    (B_LOWER_A <= b && b <= B_LOWER_Z) || (B_UPPER_A <= b && b <= B_UPPER_Z) || (B_DIGIT_0 <= b
        && b <= B_DIGIT_9) || b == B_UNDERSCORE
}

/// A byte of a distribution or extra name: identifier bytes plus `-` and `.`.
pub open spec fn is_name_byte(b: u8) -> bool {
    is_ident_byte(b) || b == B_HYPHEN || b == B_DOT
}

/// The byte classes over which maximal runs are scanned.
#[derive(Clone, Copy, PartialEq, Eq, Structural)]
pub enum ByteClass {
    /// Horizontal whitespace.
    Space,
    /// Python identifier bytes.
    Ident,
    /// Identifier bytes or `.` (a dotted module path).
    Dotted,
    /// Distribution-name bytes (identifier bytes, `-`, `.`).
    Name,
}

pub open spec fn in_class(b: u8, c: ByteClass) -> bool {
    match c {
        ByteClass::Space => is_space(b),
        ByteClass::Ident => is_ident_byte(b),
        ByteClass::Dotted => is_ident_byte(b) || b == B_DOT,
        ByteClass::Name => is_name_byte(b),
    }
}

/// End of the maximal run of bytes of class `c` starting at `i`.
pub open spec fn run_end(s: Seq<u8>, i: int, c: ByteClass) -> int
    decreases s.len() - i,
{
    if 0 <= i < s.len() && in_class(s[i], c) {
        run_end(s, i + 1, c)
    } else {
        i
    }
}

pub proof fn lemma_run_end(s: Seq<u8>, i: int, c: ByteClass)
    requires
        0 <= i <= s.len(),
    ensures
        i <= run_end(s, i, c) <= s.len(),
        forall|k: int| i <= k < run_end(s, i, c) ==> in_class(#[trigger] s[k], c),
        run_end(s, i, c) < s.len() ==> !in_class(s[run_end(s, i, c)], c),
    decreases s.len() - i,
{
    if i < s.len() && in_class(s[i], c) {
        lemma_run_end(s, i + 1, c);
    }
}

/// First index in `[i, end)` holding byte `b`, or `end` if there is none.
pub open spec fn find_before(s: Seq<u8>, i: int, end: int, b: u8) -> int
    decreases end - i,
{
    if 0 <= i < end && end <= s.len() {
        if s[i] == b {
            i
        } else {
            find_before(s, i + 1, end, b)
        }
    } else {
        end
    }
}

pub proof fn lemma_find_before(s: Seq<u8>, i: int, end: int, b: u8)
    requires
        0 <= i <= end <= s.len(),
    ensures
        i <= find_before(s, i, end, b) <= end,
        forall|k: int| i <= k < find_before(s, i, end, b) ==> #[trigger] s[k] != b,
        find_before(s, i, end, b) < end ==> s[find_before(s, i, end, b)] == b,
    decreases end - i,
{
    if i < end && s[i] != b {
        lemma_find_before(s, i + 1, end, b);
    }
}

/// End position of `[i, end)` once trailing whitespace is dropped.
pub open spec fn rtrim_end(s: Seq<u8>, i: int, end: int) -> int
    decreases end,
{
    if 0 <= i < end && end <= s.len() && is_space(s[end - 1]) {
        rtrim_end(s, i, end - 1)
    } else {
        end
    }
}

pub proof fn lemma_rtrim_end(s: Seq<u8>, i: int, end: int)
    requires
        0 <= i <= end <= s.len(),
    ensures
        i <= rtrim_end(s, i, end) <= end,
    decreases end,
{
    if i < end && is_space(s[end - 1]) {
        lemma_rtrim_end(s, i, end - 1);
    }
}

pub fn in_class_exec(b: u8, c: ByteClass) -> (r: bool)
    ensures
        r == in_class(b, c),
{
    match c {
        ByteClass::Space => b == B_SPACE || b == B_TAB || b == B_CR,
        ByteClass::Ident => (B_LOWER_A <= b && b <= B_LOWER_Z) || (B_UPPER_A <= b && b <= B_UPPER_Z)
            || (B_DIGIT_0 <= b && b <= B_DIGIT_9) || b == B_UNDERSCORE,
        ByteClass::Dotted => (B_LOWER_A <= b && b <= B_LOWER_Z) || (B_UPPER_A <= b
            && b <= B_UPPER_Z) || (B_DIGIT_0 <= b && b <= B_DIGIT_9) || b == B_UNDERSCORE
            || b == B_DOT,
        ByteClass::Name => (B_LOWER_A <= b && b <= B_LOWER_Z) || (B_UPPER_A <= b && b <= B_UPPER_Z)
            || (B_DIGIT_0 <= b && b <= B_DIGIT_9) || b == B_UNDERSCORE || b == B_HYPHEN
            || b == B_DOT,
    }
}

pub fn run_end_exec(s: &[u8], i: usize, c: ByteClass) -> (r: usize)
    requires
        i <= s@.len(),
    ensures
        r as int == run_end(s@, i as int, c),
        i <= r <= s@.len(),
{
    proof {
        lemma_run_end(s@, i as int, c);
    }
    let mut k = i;
    while k < s.len() && in_class_exec(s[k], c)
        invariant
            i <= k <= s@.len(),
            run_end(s@, i as int, c) == run_end(s@, k as int, c),
        decreases s@.len() - k,
    {
        k = k + 1;
    }
    k
}

pub fn find_before_exec(s: &[u8], i: usize, end: usize, b: u8) -> (r: usize)
    requires
        i <= end <= s@.len(),
    ensures
        r as int == find_before(s@, i as int, end as int, b),
        i <= r <= end,
{
    proof {
        lemma_find_before(s@, i as int, end as int, b);
    }
    let mut k = i;
    while k < end && s[k] != b
        invariant
            i <= k <= end <= s@.len(),
            find_before(s@, i as int, end as int, b) == find_before(s@, k as int, end as int, b),
        decreases end - k,
    {
        k = k + 1;
    }
    k
}

pub fn rtrim_end_exec(s: &[u8], i: usize, end: usize) -> (r: usize)
    requires
        i <= end <= s@.len(),
    ensures
        r as int == rtrim_end(s@, i as int, end as int),
        i <= r <= end,
{
    proof {
        lemma_rtrim_end(s@, i as int, end as int);
    }
    let mut k = end;
    while k > i && in_class_exec(s[k - 1], ByteClass::Space)
        invariant
            i <= k <= end <= s@.len(),
            rtrim_end(s@, i as int, end as int) == rtrim_end(s@, i as int, k as int),
        decreases k,
    {
        k = k - 1;
    }
    k
}

/// An owned copy of the bytes of `s` in `[i, j)`.
pub fn slice_to_vec_exec(s: &[u8], i: usize, j: usize) -> (r: Vec<u8>)
    requires
        i <= j <= s@.len(),
    ensures
        r@ == s@.subrange(i as int, j as int),
{
    vstd::slice::slice_to_vec(vstd::slice::slice_subrange(s, i, j))
}

/// Equality of two byte slices, stated over their views.
pub fn bytes_eq(a: &[u8], b: &[u8]) -> (r: bool)
    ensures
        r <==> a@ == b@,
{
    if a.len() != b.len() {
        assert(a@.len() != b@.len());
        return false;
    }
    let mut k: usize = 0;
    while k < a.len()
        invariant
            k <= a@.len(),
            a@.len() == b@.len(),
            forall|j: int| 0 <= j < k ==> a@[j] == b@[j],
        decreases a@.len() - k,
    {
        if a[k] != b[k] {
            return false;
        }
        k = k + 1;
    }
    proof {
        assert(a@ =~= b@);
    }
    true
}

} // verus!
