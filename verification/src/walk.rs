//! Walks over expressions and statements that collect the identifiers they
//! read, the names they assign, and the log files they write.
use vstd::prelude::*;
use crate::ast::{
    Expr, ExprKind, ExprMatchArm, ForRange, MatchArm, ModuleBodyItem, Stmt,
};
use crate::names::{NameSet, lemma_union_seq_all, lemma_union_seq_take, union_seq};
use crate::text::push_str;

verus! {

/// Identifiers an expression reads. A field access `b.f` on an identifier
/// also yields the flattened bus name `b_f`.
pub open spec fn expr_idents(e: Expr) -> Set<Seq<char>>
    decreases e,
{
    match e.kind {
        ExprKind::Ident(n) => set![n@],
        ExprKind::Binary(_, l, r) => expr_idents(*l).union(expr_idents(*r)),
        ExprKind::Unary(_, a) => expr_idents(*a),
        ExprKind::Index(b, i) => expr_idents(*b).union(expr_idents(*i)),
        ExprKind::BitSlice(b, h, l) => expr_idents(*b).union(expr_idents(*h)).union(
            expr_idents(*l),
        ),
        ExprKind::PartSelect(b, s, w, _) => expr_idents(*b).union(expr_idents(*s)).union(
            expr_idents(*w),
        ),
        ExprKind::FieldAccess(b, f) => expr_idents(*b).union(
            match b.kind {
                ExprKind::Ident(bn) => set![bn@ + "_"@ + f.name@],
                _ => Set::empty(),
            },
        ),
        ExprKind::MethodCall(b, _, args) => expr_idents(*b).union(exprs_idents(args@)),
        ExprKind::FunctionCall(_, args) => exprs_idents(args@),
        ExprKind::Ternary(c, t, f) => expr_idents(*c).union(expr_idents(*t)).union(
            expr_idents(*f),
        ),
        ExprKind::ExprMatch(s, arms) => expr_idents(*s).union(arms_idents(arms@)),
        _ => Set::empty(),
    }
}

pub open spec fn exprs_idents(es: Seq<Expr>) -> Set<Seq<char>>
    decreases es,
{
    if es.len() == 0 {
        Set::empty()
    } else {
        exprs_idents(es.drop_last()).union(expr_idents(es.last()))
    }
}

pub open spec fn arms_idents(arms: Seq<ExprMatchArm>) -> Set<Seq<char>>
    decreases arms,
{
    if arms.len() == 0 {
        Set::empty()
    } else {
        arms_idents(arms.drop_last()).union(expr_idents(arms.last().value))
    }
}

/// `<base>_<field>`.
fn flat_name(base: &str, field: &str) -> (r: String)
    ensures
        r@ == base@ + "_"@ + field@,
{
    let mut s = String::from_str(base);
    push_str(&mut s, "_");
    push_str(&mut s, field);
    s
}

/// Add the identifiers `expr` reads to `out`.
pub fn collect_expr_idents(expr: &Expr, out: &mut NameSet)
    ensures
        final(out)@ == old(out)@.union(expr_idents(*expr)),
    decreases expr, 1int,
{
    let ghost o = out@;
    match &expr.kind {
        ExprKind::Ident(name) => {
            out.insert(name.clone());
        },
        ExprKind::Binary(_, lhs, rhs) => {
            collect_expr_idents(lhs, out);
            collect_expr_idents(rhs, out);
        },
        ExprKind::Unary(_, e) => collect_expr_idents(e, out),
        ExprKind::Index(base, idx) => {
            collect_expr_idents(base, out);
            collect_expr_idents(idx, out);
        },
        ExprKind::BitSlice(base, hi, lo) => {
            collect_expr_idents(base, out);
            collect_expr_idents(hi, out);
            collect_expr_idents(lo, out);
        },
        ExprKind::PartSelect(base, start, width, _) => {
            collect_expr_idents(base, out);
            collect_expr_idents(start, out);
            collect_expr_idents(width, out);
        },
        ExprKind::FieldAccess(base, field) => {
            collect_expr_idents(base, out);
            if let ExprKind::Ident(b) = &base.kind {
                out.insert(flat_name(b.as_str(), field.name.as_str()));
            }
        },
        ExprKind::MethodCall(base, _, args) => {
            collect_expr_idents(base, out);
            collect_exprs_idents(args, out);
        },
        ExprKind::FunctionCall(_, args) => {
            collect_exprs_idents(args, out);
        },
        ExprKind::Ternary(cond, then_e, else_e) => {
            collect_expr_idents(cond, out);
            collect_expr_idents(then_e, out);
            collect_expr_idents(else_e, out);
        },
        ExprKind::ExprMatch(scrut, arms) => {
            collect_expr_idents(scrut, out);
            collect_arms_idents(arms, out);
        },
        _ => {},
    }
    assert(out@ =~= o.union(expr_idents(*expr)));
}

fn collect_exprs_idents(es: &Vec<Expr>, out: &mut NameSet)
    ensures
        final(out)@ == old(out)@.union(exprs_idents(es@)),
    decreases es, 0int,
{
    let ghost o = out@;
    let mut i: usize = 0;
    assert(es@.take(0) =~= Seq::<Expr>::empty());
    assert(out@ =~= o.union(exprs_idents(es@.take(0))));
    while i < es.len()
        invariant
            i <= es@.len(),
            out@ == o.union(exprs_idents(es@.take(i as int))),
        decreases es@.len() - i,
    {
        proof {
            assert(decreases_to!(es => es@[i as int]));
        }
        collect_expr_idents(&es[i], out);
        assert(es@.take(i as int + 1).drop_last() =~= es@.take(i as int));
        assert(out@ =~= o.union(exprs_idents(es@.take(i as int + 1))));
        i = i + 1;
    }
    assert(es@.take(i as int) =~= es@);
}

fn collect_arms_idents(arms: &Vec<ExprMatchArm>, out: &mut NameSet)
    ensures
        final(out)@ == old(out)@.union(arms_idents(arms@)),
    decreases arms, 0int,
{
    let ghost o = out@;
    let mut i: usize = 0;
    assert(arms@.take(0) =~= Seq::<ExprMatchArm>::empty());
    assert(out@ =~= o.union(arms_idents(arms@.take(0))));
    while i < arms.len()
        invariant
            i <= arms@.len(),
            out@ == o.union(arms_idents(arms@.take(i as int))),
        decreases arms@.len() - i,
    {
        proof {
            assert(decreases_to!(arms => arms@[i as int].value));
        }
        collect_expr_idents(&arms[i].value, out);
        assert(arms@.take(i as int + 1).drop_last() =~= arms@.take(i as int));
        assert(out@ =~= o.union(arms_idents(arms@.take(i as int + 1))));
        i = i + 1;
    }
    assert(arms@.take(i as int) =~= arms@);
}

/// Whether a statement, through its nested bodies, holds only statement
/// kinds that may appear in combinational context (no `init`, `wait
/// until` or `do .. until`).
pub open spec fn comb_stmt(s: Stmt) -> bool
    decreases s,
{
    match s {
        Stmt::Assign(_) => true,
        Stmt::Log(_) => true,
        Stmt::IfElse(ie) => comb_stmts(ie.then_stmts@) && comb_stmts(ie.else_stmts@),
        Stmt::Match(m) => comb_arms(m.arms@),
        Stmt::For(f) => comb_stmts(f.body@),
        _ => false,
    }
}

pub open spec fn comb_stmts(ss: Seq<Stmt>) -> bool
    decreases ss,
{
    if ss.len() == 0 { true } else { comb_stmts(ss.drop_last()) && comb_stmt(ss.last()) }
}

pub open spec fn comb_arms(arms: Seq<MatchArm>) -> bool
    decreases arms,
{
    if arms.len() == 0 {
        true
    } else {
        comb_arms(arms.drop_last()) && comb_stmts(arms.last().body@)
    }
}

/// Every statement of a comb list is combinational.
pub proof fn lemma_comb_stmts_elem(ss: Seq<Stmt>, i: int)
    requires
        comb_stmts(ss),
        0 <= i < ss.len(),
    ensures
        comb_stmt(ss[i]),
    decreases ss.len(),
{
    if i < ss.len() - 1 {
        lemma_comb_stmts_elem(ss.drop_last(), i);
    }
}

/// Every arm body of a comb arm list is combinational.
pub proof fn lemma_comb_arms_elem(arms: Seq<MatchArm>, i: int)
    requires
        comb_arms(arms),
        0 <= i < arms.len(),
    ensures
        comb_stmts(arms[i].body@),
    decreases arms.len(),
{
    if i < arms.len() - 1 {
        lemma_comb_arms_elem(arms.drop_last(), i);
    }
}

/// Identifiers a combinational statement reads (right-hand sides, branch
/// conditions, match scrutinees).
pub open spec fn comb_reads(s: Stmt) -> Set<Seq<char>>
    decreases s,
{
    match s {
        Stmt::Assign(a) => expr_idents(a.value),
        Stmt::IfElse(ie) => expr_idents(ie.cond).union(comb_reads_seq(ie.then_stmts@)).union(
            comb_reads_seq(ie.else_stmts@),
        ),
        Stmt::Match(m) => expr_idents(m.scrutinee).union(comb_reads_arms(m.arms@)),
        Stmt::For(f) => comb_reads_seq(f.body@),
        _ => Set::empty(),
    }
}

pub open spec fn comb_reads_seq(ss: Seq<Stmt>) -> Set<Seq<char>>
    decreases ss,
{
    if ss.len() == 0 {
        Set::empty()
    } else {
        comb_reads_seq(ss.drop_last()).union(comb_reads(ss.last()))
    }
}

pub open spec fn comb_reads_arms(arms: Seq<MatchArm>) -> Set<Seq<char>>
    decreases arms,
{
    if arms.len() == 0 {
        Set::empty()
    } else {
        comb_reads_arms(arms.drop_last()).union(comb_reads_seq(arms.last().body@))
    }
}

/// Add the identifiers a combinational statement reads to `out`.
#[verifier::loop_isolation(false)]
pub fn collect_comb_reads(stmt: &Stmt, out: &mut NameSet)
    requires
        comb_stmt(*stmt),
    ensures
        final(out)@ == old(out)@.union(comb_reads(*stmt)),
    decreases stmt, 1int,
{
    let ghost o = out@;
    match stmt {
        Stmt::Assign(a) => collect_expr_idents(&a.value, out),
        Stmt::IfElse(ie) => {
            collect_expr_idents(&ie.cond, out);
            collect_comb_reads_seq(&ie.then_stmts, out);
            collect_comb_reads_seq(&ie.else_stmts, out);
        },
        Stmt::Log(_) => {},
        Stmt::Match(m) => {
            collect_expr_idents(&m.scrutinee, out);
            let mut i: usize = 0;
            let ghost o2 = out@;
            assert(m.arms@.take(0) =~= Seq::<MatchArm>::empty());
            assert(out@ =~= o2.union(comb_reads_arms(m.arms@.take(0))));
            while i < m.arms.len()
                invariant
                    i <= m.arms@.len(),
                    comb_arms(m.arms@),
                    out@ == o2.union(comb_reads_arms(m.arms@.take(i as int))),
                decreases m.arms@.len() - i,
            {
                proof {
                    assert(decreases_to!(stmt => m.arms@[i as int].body));
                    lemma_comb_arms_elem(m.arms@, i as int);
                }
                collect_comb_reads_seq(&m.arms[i].body, out);
                assert(m.arms@.take(i as int + 1).drop_last() =~= m.arms@.take(i as int));
                assert(out@ =~= o2.union(comb_reads_arms(m.arms@.take(i as int + 1))));
                i = i + 1;
            }
            assert(m.arms@.take(i as int) =~= m.arms@);
        },
        Stmt::For(f) => collect_comb_reads_seq(&f.body, out),
        _ => {},
    }
    assert(out@ =~= o.union(comb_reads(*stmt)));
}

fn collect_comb_reads_seq(ss: &Vec<Stmt>, out: &mut NameSet)
    requires
        comb_stmts(ss@),
    ensures
        final(out)@ == old(out)@.union(comb_reads_seq(ss@)),
    decreases ss, 0int,
{
    let ghost o = out@;
    let mut i: usize = 0;
    assert(ss@.take(0) =~= Seq::<Stmt>::empty());
    assert(out@ =~= o.union(comb_reads_seq(ss@.take(0))));
    while i < ss.len()
        invariant
            i <= ss@.len(),
            comb_stmts(ss@),
            out@ == o.union(comb_reads_seq(ss@.take(i as int))),
        decreases ss@.len() - i,
    {
        proof {
            assert(decreases_to!(ss => ss@[i as int]));
            lemma_comb_stmts_elem(ss@, i as int);
        }
        collect_comb_reads(&ss[i], out);
        assert(ss@.take(i as int + 1).drop_last() =~= ss@.take(i as int));
        assert(out@ =~= o.union(comb_reads_seq(ss@.take(i as int + 1))));
        i = i + 1;
    }
    assert(ss@.take(i as int) =~= ss@);
}

/// Identifiers a sequential (or init) statement reads: right-hand sides,
/// branch conditions, loop bounds and value lists, wait predicates.
pub open spec fn stmt_idents(s: Stmt) -> Set<Seq<char>>
    decreases s,
{
    match s {
        Stmt::Assign(a) => expr_idents(a.value),
        Stmt::IfElse(ie) => expr_idents(ie.cond).union(stmts_idents(ie.then_stmts@)).union(
            stmts_idents(ie.else_stmts@),
        ),
        Stmt::Match(m) => expr_idents(m.scrutinee).union(stmt_arms_idents(m.arms@)),
        Stmt::For(f) => match f.range {
            ForRange::Range(lo, hi) => expr_idents(lo).union(expr_idents(hi)),
            ForRange::ValueList(vs) => exprs_idents(vs@),
        }.union(stmts_idents(f.body@)),
        Stmt::Init(ib) => stmts_idents(ib.body@),
        Stmt::WaitUntil(e, _) => expr_idents(e),
        Stmt::DoUntil { body, cond } => stmts_idents(body@).union(expr_idents(cond)),
        Stmt::Log(_) => Set::empty(),
    }
}

pub open spec fn stmts_idents(ss: Seq<Stmt>) -> Set<Seq<char>>
    decreases ss,
{
    if ss.len() == 0 {
        Set::empty()
    } else {
        stmts_idents(ss.drop_last()).union(stmt_idents(ss.last()))
    }
}

pub open spec fn stmt_arms_idents(arms: Seq<MatchArm>) -> Set<Seq<char>>
    decreases arms,
{
    if arms.len() == 0 {
        Set::empty()
    } else {
        stmt_arms_idents(arms.drop_last()).union(stmts_idents(arms.last().body@))
    }
}

/// Add the identifiers a sequential statement reads to `out`.
#[verifier::loop_isolation(false)]
pub fn collect_stmt_idents(stmt: &Stmt, out: &mut NameSet)
    ensures
        final(out)@ == old(out)@.union(stmt_idents(*stmt)),
    decreases stmt, 1int,
{
    let ghost o = out@;
    match stmt {
        Stmt::Assign(a) => collect_expr_idents(&a.value, out),
        Stmt::IfElse(ie) => {
            collect_expr_idents(&ie.cond, out);
            collect_stmts_idents(&ie.then_stmts, out);
            collect_stmts_idents(&ie.else_stmts, out);
        },
        Stmt::Match(m) => {
            collect_expr_idents(&m.scrutinee, out);
            let mut i: usize = 0;
            let ghost o2 = out@;
            assert(m.arms@.take(0) =~= Seq::<MatchArm>::empty());
            assert(out@ =~= o2.union(stmt_arms_idents(m.arms@.take(0))));
            while i < m.arms.len()
                invariant
                    i <= m.arms@.len(),
                    out@ == o2.union(stmt_arms_idents(m.arms@.take(i as int))),
                decreases m.arms@.len() - i,
            {
                proof {
                    assert(decreases_to!(stmt => m.arms@[i as int].body));
                }
                collect_stmts_idents(&m.arms[i].body, out);
                assert(m.arms@.take(i as int + 1).drop_last() =~= m.arms@.take(i as int));
                assert(out@ =~= o2.union(stmt_arms_idents(m.arms@.take(i as int + 1))));
                i = i + 1;
            }
            assert(m.arms@.take(i as int) =~= m.arms@);
        },
        Stmt::For(f) => {
            match &f.range {
                ForRange::Range(lo, hi) => {
                    collect_expr_idents(lo, out);
                    collect_expr_idents(hi, out);
                },
                ForRange::ValueList(vs) => {
                    collect_exprs_idents(vs, out);
                },
            }
            collect_stmts_idents(&f.body, out);
        },
        Stmt::Init(ib) => collect_stmts_idents(&ib.body, out),
        Stmt::WaitUntil(e, _) => collect_expr_idents(e, out),
        Stmt::DoUntil { body, cond } => {
            collect_stmts_idents(body, out);
            collect_expr_idents(cond, out);
        },
        Stmt::Log(_) => {},
    }
    assert(out@ =~= o.union(stmt_idents(*stmt)));
}

fn collect_stmts_idents(ss: &Vec<Stmt>, out: &mut NameSet)
    ensures
        final(out)@ == old(out)@.union(stmts_idents(ss@)),
    decreases ss, 0int,
{
    let ghost o = out@;
    let mut i: usize = 0;
    assert(ss@.take(0) =~= Seq::<Stmt>::empty());
    assert(out@ =~= o.union(stmts_idents(ss@.take(0))));
    while i < ss.len()
        invariant
            i <= ss@.len(),
            out@ == o.union(stmts_idents(ss@.take(i as int))),
        decreases ss@.len() - i,
    {
        proof {
            assert(decreases_to!(ss => ss@[i as int]));
        }
        collect_stmt_idents(&ss[i], out);
        assert(ss@.take(i as int + 1).drop_last() =~= ss@.take(i as int));
        assert(out@ =~= o.union(stmts_idents(ss@.take(i as int + 1))));
        i = i + 1;
    }
    assert(ss@.take(i as int) =~= ss@);
}

/// The identifier at the root of an assignment target, unwrapping index,
/// bit-slice, part-select and field-access layers.
pub open spec fn target_base(e: Expr) -> Option<Seq<char>>
    decreases e,
{
    match e.kind {
        ExprKind::Ident(n) => Some(n@),
        ExprKind::Index(b, _) => target_base(*b),
        ExprKind::BitSlice(b, _, _) => target_base(*b),
        ExprKind::PartSelect(b, _, _, _) => target_base(*b),
        ExprKind::FieldAccess(b, _) => target_base(*b),
        _ => None,
    }
}

fn target_base_exec(e: &Expr) -> (r: Option<&String>)
    ensures
        match r {
            Some(s) => target_base(*e) == Some(s@),
            None => target_base(*e) is None,
        },
    decreases e,
{
    match &e.kind {
        ExprKind::Ident(n) => Some(n),
        ExprKind::Index(b, _) => target_base_exec(b),
        ExprKind::BitSlice(b, _, _) => target_base_exec(b),
        ExprKind::PartSelect(b, _, _, _) => target_base_exec(b),
        ExprKind::FieldAccess(b, _) => target_base_exec(b),
        _ => None,
    }
}

pub open spec fn opt_set(o: Option<Seq<char>>) -> Set<Seq<char>> {
    match o {
        Some(n) => set![n],
        None => Set::empty(),
    }
}

/// Registers a statement assigns (by root identifier of each target).
pub open spec fn stmt_assigns(s: Stmt) -> Set<Seq<char>>
    decreases s,
{
    match s {
        Stmt::Assign(a) => opt_set(target_base(a.target)),
        Stmt::IfElse(ie) => stmts_assigns(ie.then_stmts@).union(stmts_assigns(ie.else_stmts@)),
        Stmt::Match(m) => arms_assigns(m.arms@),
        Stmt::For(f) => stmts_assigns(f.body@),
        Stmt::Init(ib) => stmts_assigns(ib.body@),
        Stmt::DoUntil { body, cond: _ } => stmts_assigns(body@),
        _ => Set::empty(),
    }
}

pub open spec fn stmts_assigns(ss: Seq<Stmt>) -> Set<Seq<char>>
    decreases ss,
{
    if ss.len() == 0 {
        Set::empty()
    } else {
        stmts_assigns(ss.drop_last()).union(stmt_assigns(ss.last()))
    }
}

pub open spec fn arms_assigns(arms: Seq<MatchArm>) -> Set<Seq<char>>
    decreases arms,
{
    if arms.len() == 0 {
        Set::empty()
    } else {
        arms_assigns(arms.drop_last()).union(stmts_assigns(arms.last().body@))
    }
}

/// Add the root identifier of every assignment target in `stmts` to `out`
/// (a partially written register is still subject to its reset).
pub fn collect_stmt_assigns(stmts: &Vec<Stmt>, out: &mut NameSet)
    ensures
        final(out)@ == old(out)@.union(stmts_assigns(stmts@)),
    decreases stmts, 0int,
{
    let ghost o = out@;
    let mut i: usize = 0;
    assert(stmts@.take(0) =~= Seq::<Stmt>::empty());
    assert(out@ =~= o.union(stmts_assigns(stmts@.take(0))));
    while i < stmts.len()
        invariant
            i <= stmts@.len(),
            out@ == o.union(stmts_assigns(stmts@.take(i as int))),
        decreases stmts@.len() - i,
    {
        proof {
            assert(decreases_to!(stmts => stmts@[i as int]));
        }
        collect_stmt_assigns_one(&stmts[i], out);
        assert(stmts@.take(i as int + 1).drop_last() =~= stmts@.take(i as int));
        assert(out@ =~= o.union(stmts_assigns(stmts@.take(i as int + 1))));
        i = i + 1;
    }
    assert(stmts@.take(i as int) =~= stmts@);
}

#[verifier::loop_isolation(false)]
fn collect_stmt_assigns_one(stmt: &Stmt, out: &mut NameSet)
    ensures
        final(out)@ == old(out)@.union(stmt_assigns(*stmt)),
    decreases stmt, 1int,
{
    let ghost o = out@;
    match stmt {
        Stmt::Assign(a) => {
            if let Some(n) = target_base_exec(&a.target) {
                out.insert(n.clone());
            }
        },
        Stmt::IfElse(ie) => {
            collect_stmt_assigns(&ie.then_stmts, out);
            collect_stmt_assigns(&ie.else_stmts, out);
        },
        Stmt::Match(m) => {
            let mut i: usize = 0;
            assert(m.arms@.take(0) =~= Seq::<MatchArm>::empty());
            assert(out@ =~= o.union(arms_assigns(m.arms@.take(0))));
            while i < m.arms.len()
                invariant
                    i <= m.arms@.len(),
                    out@ == o.union(arms_assigns(m.arms@.take(i as int))),
                decreases m.arms@.len() - i,
            {
                proof {
                    assert(decreases_to!(stmt => m.arms@[i as int].body));
                }
                collect_stmt_assigns(&m.arms[i].body, out);
                assert(m.arms@.take(i as int + 1).drop_last() =~= m.arms@.take(i as int));
                assert(out@ =~= o.union(arms_assigns(m.arms@.take(i as int + 1))));
                i = i + 1;
            }
            assert(m.arms@.take(i as int) =~= m.arms@);
        },
        Stmt::For(f) => collect_stmt_assigns(&f.body, out),
        Stmt::Init(ib) => collect_stmt_assigns(&ib.body, out),
        Stmt::DoUntil { body, cond: _ } => collect_stmt_assigns(body, out),
        _ => {},
    }
    assert(out@ =~= o.union(stmt_assigns(*stmt)));
}

/// Names a combinational statement assigns as a bare identifier target.
pub open spec fn comb_targets(s: Stmt) -> Set<Seq<char>>
    decreases s,
{
    match s {
        Stmt::Assign(a) => match a.target.kind {
            ExprKind::Ident(n) => set![n@],
            _ => Set::empty(),
        },
        Stmt::IfElse(ie) => comb_targets_seq(ie.then_stmts@).union(comb_targets_seq(ie.else_stmts@)),
        Stmt::Match(m) => comb_targets_arms(m.arms@),
        Stmt::For(f) => comb_targets_seq(f.body@),
        _ => Set::empty(),
    }
}

pub open spec fn comb_targets_seq(ss: Seq<Stmt>) -> Set<Seq<char>>
    decreases ss,
{
    if ss.len() == 0 {
        Set::empty()
    } else {
        comb_targets_seq(ss.drop_last()).union(comb_targets(ss.last()))
    }
}

pub open spec fn comb_targets_arms(arms: Seq<MatchArm>) -> Set<Seq<char>>
    decreases arms,
{
    if arms.len() == 0 {
        Set::empty()
    } else {
        comb_targets_arms(arms.drop_last()).union(comb_targets_seq(arms.last().body@))
    }
}

fn comb_targets_into(ss: &Vec<Stmt>, out: &mut NameSet)
    requires
        comb_stmts(ss@),
    ensures
        final(out)@ == old(out)@.union(comb_targets_seq(ss@)),
    decreases ss, 0int,
{
    let ghost o = out@;
    let mut i: usize = 0;
    assert(ss@.take(0) =~= Seq::<Stmt>::empty());
    assert(out@ =~= o.union(comb_targets_seq(ss@.take(0))));
    while i < ss.len()
        invariant
            i <= ss@.len(),
            comb_stmts(ss@),
            out@ == o.union(comb_targets_seq(ss@.take(i as int))),
        decreases ss@.len() - i,
    {
        proof {
            assert(decreases_to!(ss => ss@[i as int]));
            lemma_comb_stmts_elem(ss@, i as int);
        }
        comb_target_into(&ss[i], out);
        assert(ss@.take(i as int + 1).drop_last() =~= ss@.take(i as int));
        assert(out@ =~= o.union(comb_targets_seq(ss@.take(i as int + 1))));
        i = i + 1;
    }
    assert(ss@.take(i as int) =~= ss@);
}

#[verifier::loop_isolation(false)]
fn comb_target_into(stmt: &Stmt, out: &mut NameSet)
    requires
        comb_stmt(*stmt),
    ensures
        final(out)@ == old(out)@.union(comb_targets(*stmt)),
    decreases stmt, 1int,
{
    let ghost o = out@;
    match stmt {
        Stmt::Assign(a) => {
            if let ExprKind::Ident(n) = &a.target.kind {
                out.insert(n.clone());
            }
        },
        Stmt::IfElse(ie) => {
            comb_targets_into(&ie.then_stmts, out);
            comb_targets_into(&ie.else_stmts, out);
        },
        Stmt::Match(m) => {
            let mut i: usize = 0;
            assert(m.arms@.take(0) =~= Seq::<MatchArm>::empty());
            assert(out@ =~= o.union(comb_targets_arms(m.arms@.take(0))));
            while i < m.arms.len()
                invariant
                    i <= m.arms@.len(),
                    out@ == o.union(comb_targets_arms(m.arms@.take(i as int))),
                decreases m.arms@.len() - i,
            {
                proof {
                    assert(decreases_to!(stmt => m.arms@[i as int].body));
                    lemma_comb_arms_elem(m.arms@, i as int);
                }
                comb_targets_into(&m.arms[i].body, out);
                assert(m.arms@.take(i as int + 1).drop_last() =~= m.arms@.take(i as int));
                assert(out@ =~= o.union(comb_targets_arms(m.arms@.take(i as int + 1))));
                i = i + 1;
            }
            assert(m.arms@.take(i as int) =~= m.arms@);
        },
        Stmt::For(f) => comb_targets_into(&f.body, out),
        _ => {},
    }
    assert(out@ =~= o.union(comb_targets(*stmt)));
}

/// Bare-identifier targets assigned by a comb block item.
pub open spec fn item_comb_targets(it: ModuleBodyItem) -> Set<Seq<char>> {
    match it {
        ModuleBodyItem::CombBlock(cb) => comb_targets_seq(cb.stmts@),
        _ => Set::empty(),
    }
}

/// Whether every comb block of the body holds only combinational
/// statements.
pub open spec fn comb_blocks_wf(body: Seq<ModuleBodyItem>) -> bool {
    forall|i: int|
        0 <= i < body.len() ==> (#[trigger] body[i] matches ModuleBodyItem::CombBlock(cb)
            ==> comb_stmts(cb.stmts@))
}

pub open spec fn body_comb_targets(body: Seq<ModuleBodyItem>) -> Set<Seq<char>> {
    union_seq(body.map_values(|it: ModuleBodyItem| item_comb_targets(it)))
}

/// Every name that a comb block assigns as a bare identifier, through
/// if/else, match arms and loops.
pub fn collect_comb_targets(body: &[ModuleBodyItem]) -> (r: NameSet)
    requires
        comb_blocks_wf(body@),
    ensures
        r@ == body_comb_targets(body@),
{
    let mut out = NameSet::new();
    let ghost xs = body@.map_values(|it: ModuleBodyItem| item_comb_targets(it));
    let mut i: usize = 0;
    assert(union_seq(xs.take(0)) =~= Set::<Seq<char>>::empty());
    while i < body.len()
        invariant
            i <= body@.len(),
            comb_blocks_wf(body@),
            xs == body@.map_values(|it: ModuleBodyItem| item_comb_targets(it)),
            out@ == union_seq(xs.take(i as int)),
        decreases body@.len() - i,
    {
        proof {
            lemma_union_seq_take(xs, i as int);
        }
        if let ModuleBodyItem::CombBlock(cb) = &body[i] {
            comb_targets_into(&cb.stmts, &mut out);
        }
        assert(out@ =~= union_seq(xs.take(i as int + 1)));
        i = i + 1;
    }
    proof {
        lemma_union_seq_all(xs);
    }
    out
}

/// `acc` extended, in order, by each element of `xs` not yet present.
pub open spec fn add_unique(acc: Seq<Seq<char>>, xs: Seq<Seq<char>>) -> Seq<Seq<char>>
    decreases xs.len(),
{
    if xs.len() == 0 {
        acc
    } else {
        let a = add_unique(acc, xs.drop_last());
        if a.contains(xs.last()) { a } else { a.push(xs.last()) }
    }
}

/// Adding `xs + ys` adds `xs`, then `ys`.
pub proof fn lemma_add_unique_concat(acc: Seq<Seq<char>>, xs: Seq<Seq<char>>, ys: Seq<Seq<char>>)
    ensures
        add_unique(acc, xs + ys) == add_unique(add_unique(acc, xs), ys),
    decreases ys.len(),
{
    if ys.len() == 0 {
        assert(xs + ys =~= xs);
    } else {
        assert((xs + ys).drop_last() =~= xs + ys.drop_last());
        assert((xs + ys).last() == ys.last());
        lemma_add_unique_concat(acc, xs, ys.drop_last());
    }
}

/// Text views of a list of strings.
pub open spec fn views(v: Seq<String>) -> Seq<Seq<char>> {
    v.map_values(|s: String| s@)
}

/// Log files written by a statement of a comb or seq block, in order of
/// appearance, inside branches, match arms and loops.
pub open spec fn stmt_logs(s: Stmt) -> Seq<Seq<char>>
    decreases s,
{
    match s {
        Stmt::Log(l) => match l.file {
            Some(p) => seq![p@],
            None => seq![],
        },
        Stmt::IfElse(ie) => stmt_logs_seq(ie.then_stmts@) + stmt_logs_seq(ie.else_stmts@),
        Stmt::Match(m) => stmt_logs_arms(m.arms@),
        Stmt::For(f) => stmt_logs_seq(f.body@),
        _ => seq![],
    }
}

pub open spec fn stmt_logs_seq(ss: Seq<Stmt>) -> Seq<Seq<char>>
    decreases ss,
{
    if ss.len() == 0 { seq![] } else { stmt_logs_seq(ss.drop_last()) + stmt_logs(ss.last()) }
}

pub open spec fn stmt_logs_arms(arms: Seq<MatchArm>) -> Seq<Seq<char>>
    decreases arms,
{
    if arms.len() == 0 {
        seq![]
    } else {
        stmt_logs_arms(arms.drop_last()) + stmt_logs_seq(arms.last().body@)
    }
}

/// Log files of the comb and seq blocks of a body, in order of appearance.
pub open spec fn body_logs(body: Seq<ModuleBodyItem>) -> Seq<Seq<char>>
    decreases body.len(),
{
    if body.len() == 0 {
        seq![]
    } else {
        body_logs(body.drop_last()) + match body.last() {
            ModuleBodyItem::CombBlock(cb) => stmt_logs_seq(cb.stmts@),
            ModuleBodyItem::RegBlock(rb) => stmt_logs_seq(rb.stmts@),
            _ => seq![],
        }
    }
}

/// Record a log file path the first time it is seen.
fn add_log(p: &String, files: &mut Vec<String>, seen: &mut NameSet)
    requires
        old(seen)@ == views(old(files)@).to_set(),
    ensures
        final(seen)@ == views(final(files)@).to_set(),
        views(final(files)@) == add_unique(views(old(files)@), seq![p@]),
{
    let ghost f0 = views(files@);
    assert(seq![p@].drop_last() =~= Seq::<Seq<char>>::empty());
    assert(add_unique(f0, Seq::<Seq<char>>::empty()) == f0);
    assert(f0.to_set().contains(p@) == f0.contains(p@));
    if seen.insert(p.clone()) {
        files.push(p.clone());
        assert(views(files@) =~= f0.push(p@));
        proof { f0.lemma_push_to_set_commute(p@); }
    }
}

fn logs_from_stmts(stmts: &Vec<Stmt>, files: &mut Vec<String>, seen: &mut NameSet)
    requires
        old(seen)@ == views(old(files)@).to_set(),
    ensures
        final(seen)@ == views(final(files)@).to_set(),
        views(final(files)@) == add_unique(views(old(files)@), stmt_logs_seq(stmts@)),
    decreases stmts, 0int,
{
    let ghost f0 = views(files@);
    let mut i: usize = 0;
    assert(stmts@.take(0) =~= Seq::<Stmt>::empty());
    while i < stmts.len()
        invariant
            i <= stmts@.len(),
            seen@ == views(files@).to_set(),
            views(files@) == add_unique(f0, stmt_logs_seq(stmts@.take(i as int))),
        decreases stmts@.len() - i,
    {
        proof {
            assert(decreases_to!(stmts => stmts@[i as int]));
            assert(stmts@.take(i as int + 1).drop_last() =~= stmts@.take(i as int));
            lemma_add_unique_concat(
                f0,
                stmt_logs_seq(stmts@.take(i as int)),
                stmt_logs(stmts@[i as int]),
            );
        }
        log_from_stmt(&stmts[i], files, seen);
        i = i + 1;
    }
    assert(stmts@.take(i as int) =~= stmts@);
}

#[verifier::loop_isolation(false)]
fn log_from_stmt(s: &Stmt, files: &mut Vec<String>, seen: &mut NameSet)
    requires
        old(seen)@ == views(old(files)@).to_set(),
    ensures
        final(seen)@ == views(final(files)@).to_set(),
        views(final(files)@) == add_unique(views(old(files)@), stmt_logs(*s)),
    decreases s, 1int,
{
    let ghost f0 = views(files@);
    match s {
        Stmt::Log(l) => {
            match &l.file {
                Some(p) => add_log(p, files, seen),
                None => {},
            }
        },
        Stmt::IfElse(ie) => {
            proof {
                lemma_add_unique_concat(
                    f0,
                    stmt_logs_seq(ie.then_stmts@),
                    stmt_logs_seq(ie.else_stmts@),
                );
            }
            logs_from_stmts(&ie.then_stmts, files, seen);
            logs_from_stmts(&ie.else_stmts, files, seen);
        },
        Stmt::Match(m) => {
            let mut i: usize = 0;
            assert(m.arms@.take(0) =~= Seq::<MatchArm>::empty());
            while i < m.arms.len()
                invariant
                    i <= m.arms@.len(),
                    seen@ == views(files@).to_set(),
                    views(files@) == add_unique(f0, stmt_logs_arms(m.arms@.take(i as int))),
                decreases m.arms@.len() - i,
            {
                proof {
                    assert(decreases_to!(s => m.arms@[i as int].body));
                    assert(m.arms@.take(i as int + 1).drop_last() =~= m.arms@.take(i as int));
                    lemma_add_unique_concat(
                        f0,
                        stmt_logs_arms(m.arms@.take(i as int)),
                        stmt_logs_seq(m.arms@[i as int].body@),
                    );
                }
                logs_from_stmts(&m.arms[i].body, files, seen);
                i = i + 1;
            }
            assert(m.arms@.take(i as int) =~= m.arms@);
        },
        Stmt::For(f) => logs_from_stmts(&f.body, files, seen),
        _ => {},
    }
}

/// The distinct log file paths of the comb and seq blocks, in order of
/// first appearance.
pub fn collect_log_files(body: &[ModuleBodyItem]) -> (r: Vec<String>)
    ensures
        views(r@) == add_unique(seq![], body_logs(body@)),
{
    let mut files: Vec<String> = Vec::new();
    let mut seen = NameSet::new();
    assert(views(files@) =~= Seq::<Seq<char>>::empty());
    assert(seen@ =~= views(files@).to_set());
    let mut i: usize = 0;
    assert(body@.take(0) =~= Seq::<ModuleBodyItem>::empty());
    while i < body.len()
        invariant
            i <= body@.len(),
            seen@ == views(files@).to_set(),
            views(files@) == add_unique(seq![], body_logs(body@.take(i as int))),
        decreases body@.len() - i,
    {
        let ghost cur = body_logs(body@.take(i as int));
        proof {
            assert(body@.take(i as int + 1).drop_last() =~= body@.take(i as int));
            assert(body@.take(i as int + 1).last() == body@[i as int]);
        }
        match &body[i] {
            ModuleBodyItem::CombBlock(cb) => {
                proof {
                    lemma_add_unique_concat(seq![], cur, stmt_logs_seq(cb.stmts@));
                }
                logs_from_stmts(&cb.stmts, &mut files, &mut seen);
            },
            ModuleBodyItem::RegBlock(rb) => {
                proof {
                    lemma_add_unique_concat(seq![], cur, stmt_logs_seq(rb.stmts@));
                }
                logs_from_stmts(&rb.stmts, &mut files, &mut seen);
            },
            _ => {
                assert(cur + seq![] =~= cur);
            },
        }
        i = i + 1;
    }
    assert(body@.take(i as int) =~= body@);
    files
}

} // verus!
