//! Resources declared inside the body: `static mut` items at the top of the
//! handler's body.

use vstd::prelude::*;
use crate::diagnostic::{
    failure, first_failure, lemma_first_failure_found, Diagnostic, DiagnosticView, Site, Violation,
};
use vstd::hash_set::StringHashSet;
use crate::syntax::Attribute;

verus! {

/// A `static` item.
pub struct ItemStatic {
    pub attrs: Vec<Attribute>,
    pub mutable: bool,
    pub ident: String,
    /// The type, as written.
    pub ty: String,
    /// The initial value, as written.
    pub expr: String,
}

/// A statement of a function body, as far as it is read.
pub enum Stmt {
    /// A `static` item.
    Static(ItemStatic),
    /// An `unsafe` block that stands as an expression, with or without a
    /// semicolon.
    Unsafe { text: String },
    /// Any other statement, as written.
    Other { text: String },
}

/// Whether `stmt` is a `static mut` item.
pub open spec fn is_static_mut(stmt: Stmt) -> bool {
    stmt matches Stmt::Static(item) && item.mutable
}

/// How many of the first `n` statements are `static` items that stand
/// before every other statement.
pub open spec fn leading_upto(stmts: Seq<Stmt>, n: nat) -> nat
    decreases n,
{
    if n == 0 {
        0
    } else {
        let before = leading_upto(stmts, (n - 1) as nat);
        if before == n - 1 && stmts[n - 1] is Static {
            n
        } else {
            before
        }
    }
}

/// How many `static` items stand at the top of `stmts`.
pub open spec fn leading(stmts: Seq<Stmt>) -> nat {
    leading_upto(stmts, stmts.len())
}

/// The `static mut` items among `stmts`, in order.
pub open spec fn static_muts(stmts: Seq<Stmt>) -> Seq<ItemStatic> {
    stmts.filter_map(
        |stmt: Stmt|
            match stmt {
                Stmt::Static(item) => if item.mutable {
                    Some(item)
                } else {
                    None
                },
                _ => None,
            },
    )
}

/// The statements among `stmts` that are no `static mut` items, in order.
pub open spec fn kept(stmts: Seq<Stmt>) -> Seq<Stmt> {
    stmts.filter(|stmt: Stmt| !is_static_mut(stmt))
}

/// Whether one of the first `n` statements is a `static mut` named `name`.
pub open spec fn defined_before(stmts: Seq<Stmt>, n: int, name: Seq<char>) -> bool {
    exists|i: int|
        0 <= i < n && is_static_mut(#[trigger] stmts[i]) && stmts[i]->Static_0.ident@ == name
}

/// The objection to statement number `j`: a `static mut` whose name an
/// earlier one has. It points at the name.
pub open spec fn redefinition_check(stmts: Seq<Stmt>) -> spec_fn(int) -> Option<DiagnosticView> {
    |j: int|
        if is_static_mut(stmts[j]) && defined_before(stmts, j, stmts[j]->Static_0.ident@) {
            Some(
                DiagnosticView {
                    violation: Violation::DuplicateStatic,
                    site: Site::StaticName(j as usize),
                    subject: stmts[j]->Static_0.ident@,
                },
            )
        } else {
            None
        }
}

/// After the first statement that is no `static` item the count stands.
pub proof fn lemma_leading_ends(stmts: Seq<Stmt>, k: nat, n: nat)
    requires
        k < n <= stmts.len(),
        leading_upto(stmts, k) == k,
        !(stmts[k as int] is Static),
    ensures
        leading_upto(stmts, n) == k,
    decreases n,
{
    if n > k + 1 {
        lemma_leading_ends(stmts, k, (n - 1) as nat);
    }
}

/// The items of `items` from last to first.
fn reversed<T>(items: Vec<T>) -> (back: Vec<T>)
    ensures
        back@.len() == items@.len(),
        forall|i: int| 0 <= i < items@.len() ==> back@[i] == items@[items@.len() - 1 - i],
{
    let mut items = items;
    let ghost all = items@;
    let mut back: Vec<T> = Vec::new();
    while items.len() > 0
        invariant
            items@.len() + back@.len() == all.len(),
            items@ == all.take(items@.len() as int),
            forall|i: int| 0 <= i < back@.len() ==> back@[i] == all[all.len() - 1 - i],
        decreases items@.len(),
    {
        let item = items.pop().unwrap();
        back.push(item);
    }
    back
}

/// Takes the `static mut` items out of the `static` items that stand at
/// the top of `stmts`: they are returned first, then the statements that
/// are left, all in their order. Two `static mut` items of one name are
/// rejected at the second.
pub fn extract_static_muts(stmts: Vec<Stmt>) -> (result: Result<
    (Vec<ItemStatic>, Vec<Stmt>),
    Diagnostic,
>)
    ensures
        failure(result) == first_failure(redefinition_check(stmts@), leading(stmts@)),
        result matches Ok((statics, rest)) ==> statics@ == static_muts(
            stmts@.take(leading(stmts@) as int),
        ) && rest@ == kept(stmts@.take(leading(stmts@) as int)) + stmts@.skip(
            leading(stmts@) as int,
        ),
{
    let ghost all = stmts@;
    let ghost check = redefinition_check(all);
    let total = stmts.len();
    let mut pending = reversed(stmts);
    let mut seen = StringHashSet::new();
    let mut statics: Vec<ItemStatic> = Vec::new();
    let mut rest: Vec<Stmt> = Vec::new();
    let mut i: usize = 0;
    let mut ended = false;
    assert(statics@ =~= static_muts(all.take(0)));
    assert(rest@ =~= kept(all.take(0)));
    while i < total && !ended
        invariant
            all == stmts@,
            total == all.len(),
            i <= total,
            check == redefinition_check(all),
            pending@.len() == total - i,
            forall|j: int| 0 <= j < pending@.len() ==> pending@[j] == all[total - 1 - j],
            !ended ==> leading_upto(all, i as nat) == i,
            ended ==> i > 0 && leading_upto(all, (i - 1) as nat) == i - 1 && !(all[i - 1]
                is Static),
            first_failure(check, (if ended { i - 1 } else { i as int }) as nat) is None,
            !ended ==> statics@ == static_muts(all.take(i as int)),
            !ended ==> rest@ == kept(all.take(i as int)),
            ended ==> statics@ == static_muts(all.take(i - 1)),
            ended ==> rest@ == kept(all.take(i - 1)).push(all[i - 1]),
            !ended ==> forall|name: Seq<char>| #[trigger]
                defined_before(all, i as int, name) <==> seen@.contains(name),
        decreases total - i,
    {
        let stmt = pending.pop().unwrap();
        assert(stmt == all[i as int]);
        proof {
            assert(all.take(i + 1).drop_last() =~= all.take(i as int));
            reveal(Seq::filter);
        }
        match stmt {
            Stmt::Static(var) => {
                if var.mutable {
                    if seen.contains(var.ident.as_str()) {
                        proof {
                            assert(defined_before(all, i as int, var.ident@));
                            assert(leading_upto(all, (i + 1) as nat) == i + 1);
                            lemma_leading_at_least(all, (i + 1) as nat, all.len());
                            lemma_first_failure_found(check, i as nat, leading(all));
                        }
                        return Err(
                            Diagnostic::naming(
                                Violation::DuplicateStatic,
                                Site::StaticName(i),
                                var.ident.as_str(),
                            ),
                        );
                    }
                    proof {
                        assert(static_muts(all.take(i + 1)) =~= static_muts(
                            all.take(i as int),
                        ).push(var));
                        assert forall|name: Seq<char>| #[trigger]
                            defined_before(all, i + 1, name) <==> seen@.insert(
                                var.ident@,
                            ).contains(name) by {
                            if defined_before(all, i + 1, name) {
                                let b = choose|b: int|
                                    0 <= b < i + 1 && is_static_mut(#[trigger] all[b])
                                        && all[b]->Static_0.ident@ == name;
                                if b < i {
                                    assert(defined_before(all, i as int, name));
                                }
                            }
                            if seen@.contains(name) {
                                assert(defined_before(all, i as int, name));
                                let b = choose|b: int|
                                    0 <= b < i && is_static_mut(#[trigger] all[b])
                                        && all[b]->Static_0.ident@ == name;
                                assert(is_static_mut(all[b]));
                            }
                            if name == var.ident@ {
                                assert(is_static_mut(all[i as int]));
                            }
                        }
                    }
                    seen.insert(var.ident.clone());
                    statics.push(var);
                } else {
                    proof {
                        assert forall|name: Seq<char>| #[trigger]
                            defined_before(all, i + 1, name) <==> defined_before(
                                all,
                                i as int,
                                name,
                            ) by {
                            if defined_before(all, i + 1, name) {
                                let b = choose|b: int|
                                    0 <= b < i + 1 && is_static_mut(#[trigger] all[b])
                                        && all[b]->Static_0.ident@ == name;
                                assert(b < i);
                            }
                            if defined_before(all, i as int, name) {
                                let b = choose|b: int|
                                    0 <= b < i && is_static_mut(#[trigger] all[b])
                                        && all[b]->Static_0.ident@ == name;
                                assert(is_static_mut(all[b]));
                            }
                        }
                    }
                    rest.push(Stmt::Static(var));
                }
            },
            other => {
                rest.push(other);
                ended = true;
            },
        }
        i = i + 1;
    }
    let ghost top = if ended {
        (i - 1) as nat
    } else {
        i as nat
    };
    proof {
        if ended {
            lemma_leading_ends(all, top, all.len());
            assert(kept(all.take(top as int)).push(all[top as int]) + all.skip(i as int) =~= kept(
                all.take(top as int),
            ) + all.skip(top as int));
        } else {
            assert(all.skip(i as int) =~= Seq::<Stmt>::empty());
        }
        assert(leading(all) == top);
    }
    while i < total
        invariant
            total == all.len(),
            i <= total,
            pending@.len() == total - i,
            forall|j: int| 0 <= j < pending@.len() ==> pending@[j] == all[total - 1 - j],
            top <= i,
            rest@ + all.skip(i as int) == kept(all.take(top as int)) + all.skip(top as int),
        decreases total - i,
    {
        let ghost before = rest@;
        let stmt = pending.pop().unwrap();
        rest.push(stmt);
        assert(before.push(all[i as int]) + all.skip(i + 1) =~= before + all.skip(i as int));
        i = i + 1;
    }
    assert(rest@ + all.skip(total as int) =~= rest@);
    Ok((statics, rest))
}

/// The count of leading items is no less than any run of `static` items
/// from the top.
pub proof fn lemma_leading_at_least(stmts: Seq<Stmt>, k: nat, n: nat)
    requires
        k <= n <= stmts.len(),
        leading_upto(stmts, k) == k,
    ensures
        leading_upto(stmts, n) >= k,
    decreases n,
{
    if n > k {
        lemma_leading_at_least(stmts, k, (n - 1) as nat);
    }
}

/// Whether the body is nothing but one `unsafe` block.
pub fn is_unsafe_impl(stmts: &Vec<Stmt>) -> (only: bool)
    ensures
        only == (stmts@.len() == 1 && stmts@[0] is Unsafe),
{
    if stmts.len() != 1 {
        return false;
    }
    match &stmts[0] {
        Stmt::Unsafe { .. } => true,
        _ => false,
    }
}

} // verus!
