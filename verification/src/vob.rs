//! Whether statement logic indexes a Vec-of-bus port or wire by a loop
//! variable, which decides if a `for` loop is unrolled statically.
use vstd::prelude::*;
use crate::ast::{Expr, ExprKind, ExprMatchArm, FieldInit, ForRange, InsideMember, MatchArm, Pattern, Stmt};
use crate::names::NameMap;
use crate::text::str_eq;

verus! {

/// `arr[var]` where `arr` is a Vec-of-bus port or wire.
pub open spec fn vob_index(e: Expr, var: Seq<char>, ps: Map<Seq<char>, u32>, ws: Map<Seq<char>, u32>) -> bool {
    match e.kind {
        ExprKind::Index(a, i) => match (a.kind, i.kind) {
            (ExprKind::Ident(an), ExprKind::Ident(iname)) => iname@ == var && (ps.contains_key(an@)
                || ws.contains_key(an@)),
            _ => false,
        },
        _ => false,
    }
}

/// An expression indexes a Vec-of-bus signal by `var`, itself or in any
/// of its sub-expressions.
pub open spec fn expr_vob(e: Expr, var: Seq<char>, ps: Map<Seq<char>, u32>, ws: Map<Seq<char>, u32>) -> bool
    decreases e,
{
    vob_index(e, var, ps, ws) || match e.kind {
        ExprKind::Binary(_, l, r) => expr_vob(*l, var, ps, ws) || expr_vob(*r, var, ps, ws),
        ExprKind::Unary(_, x) => expr_vob(*x, var, ps, ws),
        ExprKind::Cast(x, _) => expr_vob(*x, var, ps, ws),
        ExprKind::LatencyAt(x, _) => expr_vob(*x, var, ps, ws),
        ExprKind::SvaNext(_, x) => expr_vob(*x, var, ps, ws),
        ExprKind::FieldAccess(b, _) => expr_vob(*b, var, ps, ws),
        ExprKind::Index(b, i) => expr_vob(*b, var, ps, ws) || expr_vob(*i, var, ps, ws),
        ExprKind::BitSlice(b, i, l) => expr_vob(*b, var, ps, ws) || expr_vob(*i, var, ps, ws) || expr_vob(
            *l,
            var,
            ps,
            ws,
        ),
        ExprKind::Signed(x) => expr_vob(*x, var, ps, ws),
        ExprKind::Unsigned(x) => expr_vob(*x, var, ps, ws),
        ExprKind::Clog2(x) => expr_vob(*x, var, ps, ws),
        ExprKind::Onehot(x) => expr_vob(*x, var, ps, ws),
        ExprKind::Repeat(c, x) => expr_vob(*c, var, ps, ws) || expr_vob(*x, var, ps, ws),
        ExprKind::StructLiteral(_, fs) => fields_vob(fs@, var, ps, ws),
        ExprKind::ExprMatch(sc, arms) => expr_vob(*sc, var, ps, ws) || marms_vob(arms@, var, ps, ws),
        ExprKind::Inside(b, ms) => expr_vob(*b, var, ps, ws) || members_vob(ms@, var, ps, ws),
        ExprKind::PartSelect(b, lo, hi, _) => expr_vob(*b, var, ps, ws) || expr_vob(*lo, var, ps, ws)
            || expr_vob(*hi, var, ps, ws),
        ExprKind::Ternary(c, t, f) => expr_vob(*c, var, ps, ws) || expr_vob(*t, var, ps, ws) || expr_vob(
            *f,
            var,
            ps,
            ws,
        ),
        ExprKind::Concat(parts) => exprs_vob(parts@, var, ps, ws),
        ExprKind::FunctionCall(_, parts) => exprs_vob(parts@, var, ps, ws),
        ExprKind::MethodCall(b, _, args) => expr_vob(*b, var, ps, ws) || exprs_vob(args@, var, ps, ws),
        _ => false,
    }
}

pub open spec fn fields_vob(fs: Seq<FieldInit>, var: Seq<char>, ps: Map<Seq<char>, u32>, ws: Map<Seq<char>, u32>) -> bool
    decreases fs,
{
    if fs.len() == 0 {
        false
    } else {
        fields_vob(fs.drop_last(), var, ps, ws) || expr_vob(fs.last().value, var, ps, ws)
    }
}

/// A literal pattern indexes a Vec-of-bus signal by `var`.
pub open spec fn pattern_vob(p: Pattern, var: Seq<char>, ps: Map<Seq<char>, u32>, ws: Map<Seq<char>, u32>) -> bool
    decreases p,
{
    match p {
        Pattern::Literal(e) => expr_vob(e, var, ps, ws),
        _ => false,
    }
}

pub open spec fn marms_vob(arms: Seq<ExprMatchArm>, var: Seq<char>, ps: Map<Seq<char>, u32>, ws: Map<Seq<char>, u32>) -> bool
    decreases arms,
{
    if arms.len() == 0 {
        false
    } else {
        marms_vob(arms.drop_last(), var, ps, ws) || pattern_vob(arms.last().pattern, var, ps, ws) || expr_vob(
            arms.last().value,
            var,
            ps,
            ws,
        )
    }
}

pub open spec fn member_vob(m: InsideMember, var: Seq<char>, ps: Map<Seq<char>, u32>, ws: Map<Seq<char>, u32>) -> bool
    decreases m,
{
    match m {
        InsideMember::Single(e) => expr_vob(e, var, ps, ws),
        InsideMember::Range(lo, hi) => expr_vob(lo, var, ps, ws) || expr_vob(hi, var, ps, ws),
    }
}

pub open spec fn members_vob(ms: Seq<InsideMember>, var: Seq<char>, ps: Map<Seq<char>, u32>, ws: Map<Seq<char>, u32>) -> bool
    decreases ms,
{
    if ms.len() == 0 {
        false
    } else {
        members_vob(ms.drop_last(), var, ps, ws) || member_vob(ms.last(), var, ps, ws)
    }
}

pub open spec fn exprs_vob(es: Seq<Expr>, var: Seq<char>, ps: Map<Seq<char>, u32>, ws: Map<Seq<char>, u32>) -> bool
    decreases es,
{
    if es.len() == 0 {
        false
    } else {
        exprs_vob(es.drop_last(), var, ps, ws) || expr_vob(es.last(), var, ps, ws)
    }
}

/// A statement indexes a Vec-of-bus signal by `var` anywhere: in its
/// expressions or in the statements it holds.
pub open spec fn stmt_vob(s: Stmt, var: Seq<char>, ps: Map<Seq<char>, u32>, ws: Map<Seq<char>, u32>) -> bool
    decreases s,
{
    match s {
        Stmt::Assign(a) => expr_vob(a.target, var, ps, ws) || expr_vob(a.value, var, ps, ws),
        Stmt::IfElse(ie) => expr_vob(ie.cond, var, ps, ws) || stmts_vob(ie.then_stmts@, var, ps, ws)
            || stmts_vob(ie.else_stmts@, var, ps, ws),
        Stmt::Match(m) => expr_vob(m.scrutinee, var, ps, ws) || arms_vob(m.arms@, var, ps, ws),
        Stmt::For(f) => range_vob(f.range, var, ps, ws) || stmts_vob(f.body@, var, ps, ws),
        Stmt::Init(ib) => stmts_vob(ib.body@, var, ps, ws),
        Stmt::DoUntil { body, cond } => expr_vob(cond, var, ps, ws) || stmts_vob(body@, var, ps, ws),
        Stmt::WaitUntil(e, _) => expr_vob(e, var, ps, ws),
        Stmt::Log(l) => exprs_vob(l.args@, var, ps, ws),
    }
}

/// A loop's bounds or value list index a Vec-of-bus signal by `var`.
pub open spec fn range_vob(r: ForRange, var: Seq<char>, ps: Map<Seq<char>, u32>, ws: Map<Seq<char>, u32>) -> bool
    decreases r,
{
    match r {
        ForRange::Range(lo, hi) => expr_vob(lo, var, ps, ws) || expr_vob(hi, var, ps, ws),
        ForRange::ValueList(vs) => exprs_vob(vs@, var, ps, ws),
    }
}

pub open spec fn stmts_vob(ss: Seq<Stmt>, var: Seq<char>, ps: Map<Seq<char>, u32>, ws: Map<Seq<char>, u32>) -> bool
    decreases ss,
{
    if ss.len() == 0 {
        false
    } else {
        stmts_vob(ss.drop_last(), var, ps, ws) || stmt_vob(ss.last(), var, ps, ws)
    }
}

pub open spec fn arms_vob(arms: Seq<MatchArm>, var: Seq<char>, ps: Map<Seq<char>, u32>, ws: Map<Seq<char>, u32>) -> bool
    decreases arms,
{
    if arms.len() == 0 {
        false
    } else {
        arms_vob(arms.drop_last(), var, ps, ws) || pattern_vob(arms.last().pattern, var, ps, ws) || stmts_vob(
            arms.last().body@,
            var,
            ps,
            ws,
        )
    }
}

fn vob_index_exec(e: &Expr, var: &str, ports: &NameMap<u32>, wires: &NameMap<u32>) -> (r: bool)
    ensures
        r == vob_index(*e, var@, ports@, wires@),
{
    if let ExprKind::Index(a, i) = &e.kind {
        if let (ExprKind::Ident(an), ExprKind::Ident(iname)) = (&a.kind, &i.kind) {
            return str_eq(iname.as_str(), var) && (ports.contains_key(an.as_str()) || wires.contains_key(
                an.as_str(),
            ));
        }
    }
    false
}

fn expr_vob_exec(e: &Expr, var: &str, ports: &NameMap<u32>, wires: &NameMap<u32>) -> (r: bool)
    ensures
        r == expr_vob(*e, var@, ports@, wires@),
    decreases e, 1int,
{
    if vob_index_exec(e, var, ports, wires) {
        return true;
    }
    match &e.kind {
        ExprKind::Binary(_, l, r) => expr_vob_exec(l, var, ports, wires) || expr_vob_exec(r, var, ports, wires),
        ExprKind::Unary(_, x) => expr_vob_exec(x, var, ports, wires),
        ExprKind::Cast(x, _) => expr_vob_exec(x, var, ports, wires),
        ExprKind::LatencyAt(x, _) => expr_vob_exec(x, var, ports, wires),
        ExprKind::SvaNext(_, x) => expr_vob_exec(x, var, ports, wires),
        ExprKind::FieldAccess(b, _) => expr_vob_exec(b, var, ports, wires),
        ExprKind::Index(b, i) => expr_vob_exec(b, var, ports, wires) || expr_vob_exec(i, var, ports, wires),
        ExprKind::BitSlice(b, i, l) => expr_vob_exec(b, var, ports, wires) || expr_vob_exec(
            i,
            var,
            ports,
            wires,
        ) || expr_vob_exec(l, var, ports, wires),
        ExprKind::Signed(x) => expr_vob_exec(x, var, ports, wires),
        ExprKind::Unsigned(x) => expr_vob_exec(x, var, ports, wires),
        ExprKind::Clog2(x) => expr_vob_exec(x, var, ports, wires),
        ExprKind::Onehot(x) => expr_vob_exec(x, var, ports, wires),
        ExprKind::Repeat(c, x) => expr_vob_exec(c, var, ports, wires) || expr_vob_exec(x, var, ports, wires),
        ExprKind::StructLiteral(_, fs) => fields_vob_exec(fs, var, ports, wires),
        ExprKind::ExprMatch(sc, arms) => expr_vob_exec(sc, var, ports, wires) || marms_vob_exec(
            arms,
            var,
            ports,
            wires,
        ),
        ExprKind::Inside(b, ms) => expr_vob_exec(b, var, ports, wires) || members_vob_exec(ms, var, ports, wires),
        ExprKind::PartSelect(b, lo, hi, _) => expr_vob_exec(b, var, ports, wires) || expr_vob_exec(
            lo,
            var,
            ports,
            wires,
        ) || expr_vob_exec(hi, var, ports, wires),
        ExprKind::Ternary(c, t, f) => expr_vob_exec(c, var, ports, wires) || expr_vob_exec(
            t,
            var,
            ports,
            wires,
        ) || expr_vob_exec(f, var, ports, wires),
        ExprKind::Concat(parts) => exprs_vob_exec(parts, var, ports, wires),
        ExprKind::FunctionCall(_, parts) => exprs_vob_exec(parts, var, ports, wires),
        ExprKind::MethodCall(b, _, args) => expr_vob_exec(b, var, ports, wires) || exprs_vob_exec(
            args,
            var,
            ports,
            wires,
        ),
        _ => false,
    }
}

fn fields_vob_exec(fs: &Vec<FieldInit>, var: &str, ports: &NameMap<u32>, wires: &NameMap<u32>) -> (r: bool)
    ensures
        r == fields_vob(fs@, var@, ports@, wires@),
    decreases fs, 0int,
{
    let mut found = false;
    let mut i: usize = 0;
    while i < fs.len()
        invariant
            i <= fs@.len(),
            found == fields_vob(fs@.take(i as int), var@, ports@, wires@),
        decreases fs@.len() - i,
    {
        proof {
            assert(decreases_to!(fs => fs@[i as int].value));
            assert(fs@.take(i + 1).drop_last() =~= fs@.take(i as int));
        }
        let e = expr_vob_exec(&fs[i].value, var, ports, wires);
        found = found || e;
        i = i + 1;
    }
    proof {
        assert(fs@.take(fs@.len() as int) =~= fs@);
    }
    found
}

fn pattern_vob_exec(p: &Pattern, var: &str, ports: &NameMap<u32>, wires: &NameMap<u32>) -> (r: bool)
    ensures
        r == pattern_vob(*p, var@, ports@, wires@),
    decreases p, 0int,
{
    match p {
        Pattern::Literal(e) => expr_vob_exec(e, var, ports, wires),
        _ => false,
    }
}

fn marms_vob_exec(arms: &Vec<ExprMatchArm>, var: &str, ports: &NameMap<u32>, wires: &NameMap<u32>) -> (r: bool)
    ensures
        r == marms_vob(arms@, var@, ports@, wires@),
    decreases arms, 0int,
{
    let mut found = false;
    let mut i: usize = 0;
    while i < arms.len()
        invariant
            i <= arms@.len(),
            found == marms_vob(arms@.take(i as int), var@, ports@, wires@),
        decreases arms@.len() - i,
    {
        proof {
            assert(decreases_to!(arms => arms@[i as int].value));
            assert(decreases_to!(arms => arms@[i as int].pattern));
            assert(arms@.take(i + 1).drop_last() =~= arms@.take(i as int));
        }
        let pv = pattern_vob_exec(&arms[i].pattern, var, ports, wires);
        let e = expr_vob_exec(&arms[i].value, var, ports, wires);
        found = found || pv || e;
        i = i + 1;
    }
    proof {
        assert(arms@.take(arms@.len() as int) =~= arms@);
    }
    found
}

fn member_vob_exec(m: &InsideMember, var: &str, ports: &NameMap<u32>, wires: &NameMap<u32>) -> (r: bool)
    ensures
        r == member_vob(*m, var@, ports@, wires@),
    decreases m, 0int,
{
    match m {
        InsideMember::Single(e) => expr_vob_exec(e, var, ports, wires),
        InsideMember::Range(lo, hi) => expr_vob_exec(lo, var, ports, wires) || expr_vob_exec(hi, var, ports, wires),
    }
}

fn members_vob_exec(ms: &Vec<InsideMember>, var: &str, ports: &NameMap<u32>, wires: &NameMap<u32>) -> (r: bool)
    ensures
        r == members_vob(ms@, var@, ports@, wires@),
    decreases ms, 1int,
{
    let mut found = false;
    let mut i: usize = 0;
    while i < ms.len()
        invariant
            i <= ms@.len(),
            found == members_vob(ms@.take(i as int), var@, ports@, wires@),
        decreases ms@.len() - i,
    {
        proof {
            assert(decreases_to!(ms => ms@[i as int]));
            assert(ms@.take(i + 1).drop_last() =~= ms@.take(i as int));
        }
        let e = member_vob_exec(&ms[i], var, ports, wires);
        found = found || e;
        i = i + 1;
    }
    proof {
        assert(ms@.take(ms@.len() as int) =~= ms@);
    }
    found
}

fn exprs_vob_exec(es: &Vec<Expr>, var: &str, ports: &NameMap<u32>, wires: &NameMap<u32>) -> (r: bool)
    ensures
        r == exprs_vob(es@, var@, ports@, wires@),
    decreases es, 0int,
{
    let mut i: usize = 0;
    while i < es.len()
        invariant
            i <= es@.len(),
            !exprs_vob(es@.take(i as int), var@, ports@, wires@),
        decreases es@.len() - i,
    {
        proof {
            assert(decreases_to!(es => es@[i as int]));
            assert(es@.take(i + 1).drop_last() =~= es@.take(i as int));
        }
        if expr_vob_exec(&es[i], var, ports, wires) {
            proof {
                lemma_exprs_vob_prefix(es@, var@, ports@, wires@, i + 1);
            }
            return true;
        }
        i = i + 1;
    }
    proof {
        assert(es@.take(es@.len() as int) =~= es@);
    }
    false
}

proof fn lemma_exprs_vob_prefix(
    es: Seq<Expr>,
    var: Seq<char>,
    ps: Map<Seq<char>, u32>,
    ws: Map<Seq<char>, u32>,
    k: int,
)
    requires
        0 <= k <= es.len(),
        exprs_vob(es.take(k), var, ps, ws),
    ensures
        exprs_vob(es, var, ps, ws),
    decreases es.len() - k,
{
    if k < es.len() {
        assert(es.take(k + 1).drop_last() =~= es.take(k));
        lemma_exprs_vob_prefix(es, var, ps, ws, k + 1);
    } else {
        assert(es.take(k) =~= es);
    }
}

proof fn lemma_stmts_vob_prefix(
    ss: Seq<Stmt>,
    var: Seq<char>,
    ps: Map<Seq<char>, u32>,
    ws: Map<Seq<char>, u32>,
    k: int,
)
    requires
        0 <= k <= ss.len(),
        stmts_vob(ss.take(k), var, ps, ws),
    ensures
        stmts_vob(ss, var, ps, ws),
    decreases ss.len() - k,
{
    if k < ss.len() {
        assert(ss.take(k + 1).drop_last() =~= ss.take(k));
        lemma_stmts_vob_prefix(ss, var, ps, ws, k + 1);
    } else {
        assert(ss.take(k) =~= ss);
    }
}

proof fn lemma_arms_vob_prefix(
    arms: Seq<MatchArm>,
    var: Seq<char>,
    ps: Map<Seq<char>, u32>,
    ws: Map<Seq<char>, u32>,
    k: int,
)
    requires
        0 <= k <= arms.len(),
        arms_vob(arms.take(k), var, ps, ws),
    ensures
        arms_vob(arms, var, ps, ws),
    decreases arms.len() - k,
{
    if k < arms.len() {
        assert(arms.take(k + 1).drop_last() =~= arms.take(k));
        lemma_arms_vob_prefix(arms, var, ps, ws, k + 1);
    } else {
        assert(arms.take(k) =~= arms);
    }
}

fn stmts_vob_exec(ss: &Vec<Stmt>, var: &str, ports: &NameMap<u32>, wires: &NameMap<u32>) -> (r: bool)
    ensures
        r == stmts_vob(ss@, var@, ports@, wires@),
    decreases ss, 0int,
{
    let mut i: usize = 0;
    while i < ss.len()
        invariant
            i <= ss@.len(),
            !stmts_vob(ss@.take(i as int), var@, ports@, wires@),
        decreases ss@.len() - i,
    {
        proof {
            assert(decreases_to!(ss => ss@[i as int]));
            assert(ss@.take(i + 1).drop_last() =~= ss@.take(i as int));
        }
        if stmt_indexes_vob_with_var(&ss[i], var, ports, wires) {
            proof {
                lemma_stmts_vob_prefix(ss@, var@, ports@, wires@, i + 1);
            }
            return true;
        }
        i = i + 1;
    }
    proof {
        assert(ss@.take(ss@.len() as int) =~= ss@);
    }
    false
}

/// Whether `stmt` indexes a Vec-of-bus port or wire (a key of `ports` or
/// `wires`) by the loop variable `var`, as `arr[var]`, in any of its
/// expressions (loop bounds and patterns included) or nested statements.
#[verifier::loop_isolation(false)]
pub fn stmt_indexes_vob_with_var(
    stmt: &Stmt,
    var: &str,
    ports: &NameMap<u32>,
    wires: &NameMap<u32>,
) -> (r: bool)
    ensures
        r == stmt_vob(*stmt, var@, ports@, wires@),
    decreases stmt, 1int,
{
    match stmt {
        Stmt::Assign(a) => expr_vob_exec(&a.target, var, ports, wires) || expr_vob_exec(
            &a.value,
            var,
            ports,
            wires,
        ),
        Stmt::IfElse(ie) => expr_vob_exec(&ie.cond, var, ports, wires) || stmts_vob_exec(
            &ie.then_stmts,
            var,
            ports,
            wires,
        ) || stmts_vob_exec(&ie.else_stmts, var, ports, wires),
        Stmt::Match(m) => {
            if expr_vob_exec(&m.scrutinee, var, ports, wires) {
                return true;
            }
            let mut i: usize = 0;
            while i < m.arms.len()
                invariant
                    i <= m.arms@.len(),
                    !arms_vob(m.arms@.take(i as int), var@, ports@, wires@),
                decreases m.arms@.len() - i,
            {
                proof {
                    assert(decreases_to!(stmt => m.arms@[i as int].body));
                    assert(m.arms@.take(i + 1).drop_last() =~= m.arms@.take(i as int));
                }
                if pattern_vob_exec(&m.arms[i].pattern, var, ports, wires) || stmts_vob_exec(
                    &m.arms[i].body,
                    var,
                    ports,
                    wires,
                ) {
                    proof {
                        lemma_arms_vob_prefix(m.arms@, var@, ports@, wires@, i + 1);
                    }
                    return true;
                }
                i = i + 1;
            }
            proof {
                assert(m.arms@.take(m.arms@.len() as int) =~= m.arms@);
            }
            false
        },
        Stmt::For(f) => {
            let rv = match &f.range {
                ForRange::Range(lo, hi) => expr_vob_exec(lo, var, ports, wires) || expr_vob_exec(
                    hi,
                    var,
                    ports,
                    wires,
                ),
                ForRange::ValueList(vs) => exprs_vob_exec(vs, var, ports, wires),
            };
            rv || stmts_vob_exec(&f.body, var, ports, wires)
        },
        Stmt::Init(ib) => stmts_vob_exec(&ib.body, var, ports, wires),
        Stmt::DoUntil { body, cond } => expr_vob_exec(cond, var, ports, wires) || stmts_vob_exec(
            body,
            var,
            ports,
            wires,
        ),
        Stmt::WaitUntil(e, _) => expr_vob_exec(e, var, ports, wires),
        Stmt::Log(l) => exprs_vob_exec(&l.args, var, ports, wires),
    }
}

} // verus!
