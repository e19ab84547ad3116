//! The import extractor: given the full text of a Python source file, the
//! set of distinct root module names its `import` and `from ... import`
//! statements reference.
//!
//! Backslash-continued lines are joined first (a backslash inside a
//! comment continues nothing). The text is then read as logical lines;
//! each line is truncated at its first `#` and split on `;` into
//! statements, and a compound-statement header carries its same-line
//! suite after the `:`, so imports guarded anywhere in the file - inside
//! conditionals, loops, `try` blocks or function bodies, indented or on
//! the header's own line - are still seen, while comments contribute
//! nothing. Text that is not an import statement, malformed or not,
//! degrades to an empty contribution rather than to an error.
//!
//! A statement is recognized by its leading keyword alone; multi-line
//! string literals are not tracked, so an import-shaped line inside one
//! is still counted.

use vstd::prelude::*;

use crate::scan::find_before;
use crate::scan::find_before_exec;
use crate::scan::lemma_find_before;
use crate::scan::B_BACKSLASH;
use crate::scan::B_CR;
use crate::scan::B_HASH;
use crate::scan::B_NL;
use crate::scan::B_SEMI;
use crate::visitor::stmt_roots;
use crate::visitor::views_of;
use crate::visitor::ImportVisitor;

verus! {

/// Root module names of the statements of one comment-stripped line, split
/// on `;`, read from position `i`.
pub open spec fn pieces_roots(s: Seq<u8>, i: int) -> Set<Seq<u8>>
    decreases s.len() - i,
    via pieces_roots_dec
{
    if !(0 <= i <= s.len()) {
        Set::empty()
    } else {
        let j = find_before(s, i, s.len() as int, B_SEMI);
        let roots = stmt_roots(s.subrange(i, j));
        if j == s.len() {
            roots
        } else {
            roots + pieces_roots(s, j + 1)
        }
    }
}

#[via_fn]
proof fn pieces_roots_dec(s: Seq<u8>, i: int) {
    if 0 <= i <= s.len() {
        lemma_find_before(s, i, s.len() as int, B_SEMI);
    }
}

/// Root module names of one physical line: everything from its first `#`
/// on is comment and dropped, the rest is split on `;`.
pub open spec fn line_roots(line: Seq<u8>) -> Set<Seq<u8>> {
    pieces_roots(line.subrange(0, find_before(line, 0, line.len() as int, B_HASH)), 0)
}

/// Root module names of the text from position `i` on, one physical line
/// at a time.
pub open spec fn text_imports(text: Seq<u8>, i: int) -> Set<Seq<u8>>
    decreases text.len() - i,
    via text_imports_dec
{
    if !(0 <= i <= text.len()) {
        Set::empty()
    } else {
        let j = find_before(text, i, text.len() as int, B_NL);
        let roots = line_roots(text.subrange(i, j));
        if j == text.len() {
            roots
        } else {
            roots + text_imports(text, j + 1)
        }
    }
}

#[via_fn]
proof fn text_imports_dec(text: Seq<u8>, i: int) {
    if 0 <= i <= text.len() {
        lemma_find_before(text, i, text.len() as int, B_NL);
    }
}

/// The text from position `i` on with backslash-newline continuations
/// removed, so that a statement split over continued lines reads as one
/// logical line. A backslash inside a comment (`in_comment` tracks the
/// region from a `#` to its newline) continues nothing and is kept.
pub open spec fn join_lines(s: Seq<u8>, i: int, in_comment: bool) -> Seq<u8>
    decreases s.len() - i,
{
    if !(0 <= i < s.len()) {
        Seq::empty()
    } else if !in_comment && s[i] == B_BACKSLASH && i + 1 < s.len() && s[i + 1] == B_NL {
        join_lines(s, i + 2, false)
    } else if !in_comment && s[i] == B_BACKSLASH && i + 2 < s.len() && s[i + 1] == B_CR && s[i + 2]
        == B_NL {
        join_lines(s, i + 3, false)
    } else {
        seq![s[i]] + join_lines(
            s,
            i + 1,
            if s[i] == B_NL {
                false
            } else if s[i] == B_HASH {
                true
            } else {
                in_comment
            },
        )
    }
}

fn join_exec(s: &[u8]) -> (r: Vec<u8>)
    ensures
        r@ == join_lines(s@, 0, false),
{
    let mut out: Vec<u8> = Vec::new();
    proof {
        assert(out@ + join_lines(s@, 0, false) =~= join_lines(s@, 0, false));
    }
    let mut k: usize = 0;
    let mut in_comment = false;
    while k < s.len()
        invariant
            k <= s@.len(),
            out@ + join_lines(s@, k as int, in_comment) == join_lines(s@, 0, false),
        decreases s@.len() - k,
    {
        let ghost pre = out@;
        let b = s[k];
        if !in_comment && b == B_BACKSLASH && s.len() - k > 1 && s[k + 1] == B_NL {
            k = k + 2;
        } else if !in_comment && b == B_BACKSLASH && s.len() - k > 2 && s[k + 1] == B_CR && s[k + 2]
            == B_NL {
            k = k + 3;
        } else {
            out.push(b);
            let next_comment = if b == B_NL {
                false
            } else if b == B_HASH {
                true
            } else {
                in_comment
            };
            proof {
                assert(out@ + join_lines(s@, k + 1, next_comment) =~= pre + (seq![b] + join_lines(
                    s@,
                    k + 1,
                    next_comment,
                )));
            }
            in_comment = next_comment;
            k = k + 1;
        }
    }
    proof {
        assert(out@ + join_lines(s@, k as int, in_comment) =~= out@);
    }
    out
}

/// The set of distinct root module names the Python text imports, read
/// over its logical lines.
pub open spec fn imports_of(text: Seq<u8>) -> Set<Seq<u8>> {
    text_imports(join_lines(text, 0, false), 0)
}

/// Extraction is a function of the text alone: any two results of it on
/// the same text are one set, so running the extractor twice - or many
/// times - yields the same set every time.
pub proof fn lemma_extraction_idempotent(text: Seq<u8>, r1: Set<Seq<u8>>, r2: Set<Seq<u8>>)
    requires
        r1 == imports_of(text),
        r2 == imports_of(text),
    ensures
        r1 == r2,
{
}

/// Collects the roots of every statement of one comment-stripped line.
fn visit_pieces(v: &mut ImportVisitor, s: &[u8])
    requires
        old(v).wf(),
    ensures
        final(v).wf(),
        final(v).imports_set() == old(v).imports_set() + pieces_roots(s@, 0),
{
    let ghost target = old(v).imports_set() + pieces_roots(s@, 0);
    let mut pos: usize = 0;
    let mut done = false;
    while !done
        invariant
            v.wf(),
            pos <= s@.len(),
            !done ==> v.imports_set() + pieces_roots(s@, pos as int) == target,
            done ==> v.imports_set() == target,
        decreases s@.len() - pos + (if done {
            0int
        } else {
            1int
        }),
    {
        let ghost pre = v.imports_set();
        let ghost pos0 = pos as int;
        let j = find_before_exec(s, pos, s.len(), B_SEMI);
        let piece = vstd::slice::slice_subrange(s, pos, j);
        v.visit_stmt(piece);
        proof {
            let roots = stmt_roots(s@.subrange(pos0, j as int));
            if j == s@.len() {
                assert(pieces_roots(s@, pos0) == roots);
                assert(v.imports_set() =~= pre + pieces_roots(s@, pos0));
            } else {
                assert(pieces_roots(s@, pos0) == roots + pieces_roots(s@, j + 1));
                assert(v.imports_set() + pieces_roots(s@, j + 1) =~= pre + pieces_roots(
                    s@,
                    pos0,
                ));
            }
        }
        if j == s.len() {
            done = true;
        } else {
            pos = j + 1;
        }
    }
}

/// Extracts the set of distinct root module names imported anywhere in the
/// Python source text: no duplicates, in order of first occurrence.
pub fn parse_imports(source: &[u8]) -> (imports: Vec<Vec<u8>>)
    ensures
        views_of(imports@) == imports_of(source@),
        forall|i: int, j: int| 0 <= i < j < imports@.len() ==> imports@[i]@ != imports@[j]@,
{
    let joined = join_exec(source);
    let text = joined.as_slice();
    let mut visitor = ImportVisitor::new();
    let ghost target = imports_of(source@);
    proof {
        assert(visitor.imports_set() + text_imports(text@, 0) =~= target);
    }
    let mut pos: usize = 0;
    let mut done = false;
    while !done
        invariant
            visitor.wf(),
            pos <= text@.len(),
            text@ == join_lines(source@, 0, false),
            target == imports_of(source@),
            !done ==> visitor.imports_set() + text_imports(text@, pos as int) == target,
            done ==> visitor.imports_set() == target,
        decreases text@.len() - pos + (if done {
            0int
        } else {
            1int
        }),
    {
        let ghost pre = visitor.imports_set();
        let ghost pos0 = pos as int;
        let j = find_before_exec(text, pos, text.len(), B_NL);
        let line = vstd::slice::slice_subrange(text, pos, j);
        let c = find_before_exec(line, 0, line.len(), B_HASH);
        let code = vstd::slice::slice_subrange(line, 0, c);
        visit_pieces(&mut visitor, code);
        proof {
            assert(code@ == line@.subrange(
                0,
                find_before(line@, 0, line@.len() as int, B_HASH),
            ));
            let roots = line_roots(text@.subrange(pos0, j as int));
            assert(roots == pieces_roots(code@, 0));
            if j == text@.len() {
                assert(text_imports(text@, pos0) == roots);
                assert(visitor.imports_set() =~= pre + text_imports(text@, pos0));
            } else {
                assert(text_imports(text@, pos0) == roots + text_imports(text@, j + 1));
                assert(visitor.imports_set() + text_imports(text@, j + 1) =~= pre + text_imports(
                    text@,
                    pos0,
                ));
            }
        }
        if j == text.len() {
            done = true;
        } else {
            pos = j + 1;
        }
    }
    visitor.into_imports()
}

} // verus!
