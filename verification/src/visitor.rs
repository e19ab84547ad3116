//! Statement-level import harvesting: a visitor that classifies one Python
//! statement at a time and accumulates the distinct root module names it
//! introduces.
//!
//! Both plain `import` targets and the module of a `from ... import ...`
//! statement contribute their leading dotted segment; aliases introduced by
//! `as` never do, and relative imports (`from . import x`) have no root and
//! contribute nothing.

use vstd::prelude::*;

use crate::scan::find_before;
use crate::scan::find_before_exec;
use crate::scan::is_ident_byte;
use crate::scan::lemma_find_before;
use crate::scan::lemma_run_end;
use crate::scan::run_end;
use crate::scan::run_end_exec;
use crate::scan::ByteClass;
use crate::scan::B_COMMA;

verus! {

/// The bytes of the keyword `import`.
pub open spec fn kw_import() -> Seq<u8> {
    seq![105u8, 109u8, 112u8, 111u8, 114u8, 116u8]
}

/// The bytes of the keyword `from`.
pub open spec fn kw_from() -> Seq<u8> {
    seq![102u8, 114u8, 111u8, 109u8]
}

/// The keyword `kw` occurs at `i` in `s` and ends at a word boundary.
pub open spec fn has_kw_at(s: Seq<u8>, i: int, kw: Seq<u8>) -> bool {
    &&& 0 <= i
    &&& i + kw.len() <= s.len()
    &&& s.subrange(i, i + kw.len()) == kw
    &&& (i + kw.len() == s.len() || !is_ident_byte(s[i + kw.len()]))
}

/// Root module names of the comma-separated target list of a plain `import`
/// statement, read from position `i`: for each target, the maximal
/// identifier run after leading whitespace (the part before the first `.`,
/// whitespace, or `as`), when it is non-empty.
pub open spec fn import_list_roots(s: Seq<u8>, i: int) -> Set<Seq<u8>>
    decreases s.len() - i,
    via import_list_roots_dec
{
    if !(0 <= i <= s.len()) {
        Set::empty()
    } else {
        let k = run_end(s, i, ByteClass::Space);
        let e = run_end(s, k, ByteClass::Ident);
        let root = s.subrange(k, e);
        let j = find_before(s, i, s.len() as int, B_COMMA);
        let rest = if j == s.len() {
            Set::<Seq<u8>>::empty()
        } else {
            import_list_roots(s, j + 1)
        };
        if root.len() > 0 {
            rest.insert(root)
        } else {
            rest
        }
    }
}

#[via_fn]
proof fn import_list_roots_dec(s: Seq<u8>, i: int) {
    if 0 <= i <= s.len() {
        lemma_find_before(s, i, s.len() as int, B_COMMA);
        lemma_run_end(s, i, ByteClass::Space);
    }
}

/// Root of the module of a `from <module> import ...` statement, read from
/// position `i` (just after the `from` keyword): the leading identifier run
/// of the dotted module path, provided the `import` keyword follows the
/// path. A relative module path (leading `.`) has an empty root and yields
/// nothing.
pub open spec fn from_import_roots(s: Seq<u8>, i: int) -> Set<Seq<u8>> {
    if !(0 <= i <= s.len()) {
        Set::empty()
    } else {
        let k = run_end(s, i, ByteClass::Space);
        let m = run_end(s, k, ByteClass::Dotted);
        let n = run_end(s, m, ByteClass::Space);
        let root = s.subrange(k, run_end(s, k, ByteClass::Ident));
        if has_kw_at(s, n, kw_import()) && root.len() > 0 {
            Set::<Seq<u8>>::empty().insert(root)
        } else {
            Set::empty()
        }
    }
}

/// The set of root module names one statement contributes. A statement
/// that is no import form may still be a compound-statement header with
/// its suite on the same line (`if True: import json`): after the first
/// `:` the rest is read as a statement of its own, so guarded imports in
/// single-line suites are collected like any other.
pub open spec fn stmt_roots(stmt: Seq<u8>) -> Set<Seq<u8>>
    decreases stmt.len(),
    via stmt_roots_dec
{
    let i = run_end(stmt, 0, ByteClass::Space);
    if has_kw_at(stmt, i, kw_import()) {
        import_list_roots(stmt, i + kw_import().len())
    } else if has_kw_at(stmt, i, kw_from()) {
        from_import_roots(stmt, i + kw_from().len())
    } else {
        let c = find_before(stmt, 0, stmt.len() as int, crate::scan::B_COLON);
        if c < stmt.len() {
            stmt_roots(stmt.subrange(c + 1, stmt.len() as int))
        } else {
            Set::empty()
        }
    }
}

#[via_fn]
proof fn stmt_roots_dec(stmt: Seq<u8>) {
    lemma_find_before(stmt, 0, stmt.len() as int, crate::scan::B_COLON);
}

/// A statement whose first word is neither `import` nor `from`, and which
/// introduces no suite (no `:`), contributes no root module name,
/// whatever else it holds; in particular a bare expression or any
/// malformed text degrades to nothing rather than to an error.
pub proof fn lemma_other_stmt_contributes_nothing(stmt: Seq<u8>)
    requires
        !has_kw_at(stmt, run_end(stmt, 0, ByteClass::Space), kw_import()),
        !has_kw_at(stmt, run_end(stmt, 0, ByteClass::Space), kw_from()),
        find_before(stmt, 0, stmt.len() as int, crate::scan::B_COLON) == stmt.len(),
    ensures
        stmt_roots(stmt) == Set::<Seq<u8>>::empty(),
{
}

/// The views of the byte vectors of `v`, as a set.
pub open spec fn views_of(v: Seq<Vec<u8>>) -> Set<Seq<u8>>
    decreases v.len(),
{
    if v.len() == 0 {
        Set::empty()
    } else {
        views_of(v.drop_last()).insert(v.last()@)
    }
}

pub proof fn lemma_views_of_push(v: Seq<Vec<u8>>, x: Vec<u8>)
    ensures
        views_of(v.push(x)) == views_of(v).insert(x@),
{
    assert(v.push(x).drop_last() =~= v);
    assert(v.push(x).last() == x);
}

pub proof fn lemma_views_of_contains(v: Seq<Vec<u8>>, x: Seq<u8>)
    ensures
        views_of(v).contains(x) <==> exists|i: int| 0 <= i < v.len() && v[i]@ == x,
    decreases v.len(),
{
    if v.len() > 0 {
        lemma_views_of_contains(v.drop_last(), x);
        if v.last()@ == x {
            assert(v[v.len() - 1]@ == x);
        }
        if views_of(v.drop_last()).contains(x) {
            let i = choose|i: int| 0 <= i < v.drop_last().len() && v.drop_last()[i]@ == x;
            assert(v[i]@ == x);
        }
        if exists|i: int| 0 <= i < v.len() && v[i]@ == x {
            let i = choose|i: int| 0 <= i < v.len() && v[i]@ == x;
            if i < v.len() - 1 {
                assert(v.drop_last()[i]@ == x);
            }
        }
    }
}

/// Walks Python statements one at a time and collects the distinct root
/// module names they import.
pub struct ImportVisitor {
    imports: Vec<Vec<u8>>,
}

impl ImportVisitor {
    /// The collected names hold no duplicate.
    pub closed spec fn wf(self) -> bool {
        forall|i: int, j: int|
            0 <= i < j < self.imports@.len() ==> self.imports@[i]@ != self.imports@[j]@
    }

    /// The set of root module names collected so far.
    pub closed spec fn imports_set(self) -> Set<Seq<u8>> {
        views_of(self.imports@)
    }

    pub fn new() -> (v: ImportVisitor)
        ensures
            v.wf(),
            v.imports_set() == Set::<Seq<u8>>::empty(),
    {
        ImportVisitor { imports: Vec::new() }
    }

    /// Hands out the collected set: distinct names, in first-occurrence
    /// order.
    pub fn into_imports(self) -> (r: Vec<Vec<u8>>)
        requires
            self.wf(),
        ensures
            views_of(r@) == self.imports_set(),
            forall|i: int, j: int| 0 <= i < j < r@.len() ==> r@[i]@ != r@[j]@,
    {
        self.imports
    }

    /// Inserts `root` unless an equal name was already collected.
    fn record(&mut self, root: Vec<u8>)
        requires
            old(self).wf(),
        ensures
            final(self).wf(),
            final(self).imports_set() == old(self).imports_set().insert(root@),
    {
        let mut k: usize = 0;
        while k < self.imports.len()
            invariant
                self == old(self),
                self.wf(),
                k <= self.imports@.len(),
                forall|j: int| 0 <= j < k ==> self.imports@[j]@ != root@,
            decreases self.imports@.len() - k,
        {
            if crate::scan::bytes_eq(self.imports[k].as_slice(), root.as_slice()) {
                proof {
                    lemma_views_of_contains(self.imports@, root@);
                    assert(self.imports_set().contains(root@));
                    assert(self.imports_set().insert(root@) =~= self.imports_set());
                }
                return ;
            }
            k = k + 1;
        }
        proof {
            lemma_views_of_contains(self.imports@, root@);
            lemma_views_of_push(self.imports@, root);
        }
        self.imports.push(root);
    }

    /// Classifies one statement and inserts every root module name it
    /// contributes.
    pub fn visit_stmt(&mut self, stmt: &[u8])
        requires
            old(self).wf(),
        ensures
            final(self).wf(),
            final(self).imports_set() == old(self).imports_set() + stmt_roots(stmt@),
        decreases stmt@.len(),
    {
        let n = stmt.len();
        let i = run_end_exec(stmt, 0, ByteClass::Space);
        if kw_at_exec(stmt, i, true) {
            assert(i + 6 <= n) by {
                assert(kw_import().len() == 6);
            }
            self.visit_import_list(stmt, i + 6);
        } else if kw_at_exec(stmt, i, false) {
            assert(i + 4 <= n) by {
                assert(kw_from().len() == 4);
            }
            self.visit_from_import(stmt, i + 4);
        } else {
            let c = find_before_exec(stmt, 0, n, crate::scan::B_COLON);
            if c < n {
                let suite = vstd::slice::slice_subrange(stmt, c + 1, n);
                self.visit_stmt(suite);
            } else {
                proof {
                    assert(self.imports_set() + stmt_roots(stmt@) =~= self.imports_set());
                }
            }
        }
    }

    /// Collects the roots of a plain `import` target list starting at `i`.
    fn visit_import_list(&mut self, s: &[u8], i: usize)
        requires
            old(self).wf(),
            i <= s@.len(),
        ensures
            final(self).wf(),
            final(self).imports_set() == old(self).imports_set() + import_list_roots(s@, i as int),
    {
        let ghost target = old(self).imports_set() + import_list_roots(s@, i as int);
        let mut pos = i;
        let mut done = false;
        while !done
            invariant
                self.wf(),
                i <= pos <= s@.len(),
                !done ==> self.imports_set() + import_list_roots(s@, pos as int) == target,
                done ==> self.imports_set() == target,
            decreases s@.len() - pos + (if done {
                0int
            } else {
                1int
            }),
        {
            let ghost pre = self.imports_set();
            let ghost pos0 = pos as int;
            let k = run_end_exec(s, pos, ByteClass::Space);
            let e = run_end_exec(s, k, ByteClass::Ident);
            if e > k {
                let root = crate::scan::slice_to_vec_exec(s, k, e);
                self.record(root);
            }
            let j = find_before_exec(s, pos, s.len(), B_COMMA);
            proof {
                let root_spec = s@.subrange(k as int, e as int);
                let rest = if j == s@.len() {
                    Set::<Seq<u8>>::empty()
                } else {
                    import_list_roots(s@, j + 1)
                };
                assert(import_list_roots(s@, pos0) == if root_spec.len() > 0 {
                    rest.insert(root_spec)
                } else {
                    rest
                });
                if root_spec.len() > 0 {
                    assert(self.imports_set() == pre.insert(root_spec));
                    assert(self.imports_set() + rest =~= pre + import_list_roots(s@, pos0));
                } else {
                    assert(self.imports_set() + rest =~= pre + import_list_roots(s@, pos0));
                }
            }
            if j == s.len() {
                done = true;
                proof {
                    assert(self.imports_set() + Set::<Seq<u8>>::empty() =~= self.imports_set());
                }
            } else {
                pos = j + 1;
            }
        }
    }

    /// Collects the root of a `from <module> import ...` statement, the
    /// module path starting at `i`.
    fn visit_from_import(&mut self, s: &[u8], i: usize)
        requires
            old(self).wf(),
            i <= s@.len(),
        ensures
            final(self).wf(),
            final(self).imports_set() == old(self).imports_set() + from_import_roots(s@, i as int),
    {
        let k = run_end_exec(s, i, ByteClass::Space);
        let m = run_end_exec(s, k, ByteClass::Dotted);
        let n = run_end_exec(s, m, ByteClass::Space);
        let e = run_end_exec(s, k, ByteClass::Ident);
        if kw_at_exec(s, n, true) && e > k {
            let root = crate::scan::slice_to_vec_exec(s, k, e);
            self.record(root);
            proof {
                assert(self.imports_set() =~= old(self).imports_set() + from_import_roots(
                    s@,
                    i as int,
                ));
            }
        } else {
            proof {
                assert(self.imports_set() + from_import_roots(s@, i as int) =~= self.imports_set());
            }
        }
    }
}

/// Whether the keyword `import` (with `want_import`) or `from` (without)
/// stands at `i` in `s`, ending at a word boundary.
fn kw_at_exec(s: &[u8], i: usize, want_import: bool) -> (r: bool)
    requires
        i <= s@.len(),
    ensures
        want_import ==> r == has_kw_at(s@, i as int, kw_import()),
        !want_import ==> r == has_kw_at(s@, i as int, kw_from()),
{
    let ghost kw = if want_import {
        kw_import()
    } else {
        kw_from()
    };
    let n: usize = if want_import {
        6
    } else {
        4
    };
    assert(kw.len() == n);
    if s.len() - i < n {
        assert(i + kw.len() > s@.len());
        return false;
    }
    let same = if want_import {
        s[i] == 105 && s[i + 1] == 109 && s[i + 2] == 112 && s[i + 3] == 111 && s[i + 4] == 114
            && s[i + 5] == 116
    } else {
        s[i] == 102 && s[i + 1] == 114 && s[i + 2] == 111 && s[i + 3] == 109
    };
    if !same {
        proof {
            if s@.subrange(i as int, i + kw.len()) == kw {
                assert(forall|j: int|
                    0 <= j < kw.len() ==> s@[i + j] == #[trigger] kw[j]) by {
                    assert(forall|j: int|
                        0 <= j < kw.len() ==> #[trigger] kw[j] == s@.subrange(
                            i as int,
                            i + kw.len(),
                        )[j]);
                }
                assert(false);
            }
        }
        return false;
    }
    let boundary = i + n == s.len() || !crate::scan::in_class_exec(s[i + n], ByteClass::Ident);
    proof {
        if same {
            assert(s@.subrange(i as int, i + kw.len()) =~= kw);
        }
    }
    boundary
}

} // verus!
