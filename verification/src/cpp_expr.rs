//! Lowering of HDL expressions to C++ expressions, and the width
//! inference it relies on.
use vstd::prelude::*;
use crate::ast::{
    BinOp, Expr, ExprKind, ExprMatchArm, FieldInit, Ident, InsideMember, LitKind, Pattern, TypeExpr,
    UnaryOp,
};
use crate::const_eval::{base_ident_name, is_const_reducible};
use crate::cpp_text::{
    binary_fmt, bitslice_fmt, bus_port_lane, bus_wire_lane, cast_fmt, cpp_port_type_with_params,
    dec32, enum_cpp, enum_index, float_op_str, fp_conv_fmt, ident_cpp, ident_field_cpp,
    index_fmt, index_literal_exec, lit_cpp, own, part_select_fmt, resize_fmt, reverse_fmt,
    sext_fmt, signed_fmt, to_int_fmt, todo_cpp, trunc_fmt, unary_fmt, unsigned_fmt, zext_fmt,
};
use crate::ctx::Ctx;
use crate::expr_codegen::{FpFmt, is_fully_wrapped_in_parens, fully_wrapped, trim};
use crate::infer::{
    eval_width, eval_width_in, eval_width_in_spec, float_spec, infer_expr_float, infer_expr_signed,
    is_relational_or_logic_exec, or_else, signed_spec,
};
use crate::lowering::{
    arm_text, arms_ok, concat_term, concat_terms, concat_text, contains_terms, conv_target,
    copies, count_terms, cpp_spec, cpps, elems, field_init_text, fields_ok, fields_text,
    folded_let, index_width, inside_terms, is_vec_method, join, lower_ok, lowers_ok, match_chain,
    members_ok, paren, pattern_lit, pred_cv, pred_terms, preds_ok, range_text, recv_size,
    single_text, vec_method_text, width_ok, width_spec, widths_ok, widths_sum,
};
use crate::names::NameMap;
use crate::text::{dec_str, fmt_dec, push_str, str_eq};

verus! {

// ---------------------------------------------------------------- lemmas

pub proof fn lemma_join_push(ts: Seq<Seq<char>>, t: Seq<char>, sep: Seq<char>)
    ensures
        join(ts.push(t), sep) == if ts.len() == 0 {
            t
        } else {
            join(ts, sep) + sep + t
        },
{
    assert(ts.push(t).drop_last() =~= ts);
}

proof fn lemma_width_nonneg(e: Expr, cv: crate::ctx::CtxView)
    requires
        width_ok(e, cv),
    ensures
        0 <= width_spec(e, cv),
    decreases e,
{
    match e.kind {
        ExprKind::LatencyAt(i, _) => lemma_width_nonneg(*i, cv),
        ExprKind::SvaNext(_, i) => lemma_width_nonneg(*i, cv),
        ExprKind::MethodCall(b, m, _) => {
            if m.name@ == "reverse"@ {
                lemma_width_nonneg(*b, cv);
            }
        },
        ExprKind::Concat(parts) => lemma_widths_sum_nonneg(parts@, cv),
        ExprKind::Repeat(c, v) => {
            lemma_width_nonneg(*v, cv);
            let a = crate::infer::eval_width_spec(*c) as int;
            let b = width_spec(*v, cv);
            assert(a * b >= 0) by (nonlinear_arith)
                requires
                    a >= 0,
                    b >= 0,
            ;
        },
        ExprKind::Binary(op, l, r) => {
            if !crate::infer::is_relational_or_logic(op) {
                lemma_width_nonneg(*l, cv);
                if !(op is Shl || op is Shr) {
                    lemma_width_nonneg(*r, cv);
                }
            }
        },
        ExprKind::Ternary(_, t, _) => lemma_width_nonneg(*t, cv),
        ExprKind::Signed(i) => lemma_width_nonneg(*i, cv),
        ExprKind::Unsigned(i) => lemma_width_nonneg(*i, cv),
        _ => {},
    }
}

proof fn lemma_widths_sum_nonneg(es: Seq<Expr>, cv: crate::ctx::CtxView)
    requires
        widths_ok(es, cv),
    ensures
        0 <= widths_sum(es, cv),
    decreases es,
{
    if es.len() > 0 {
        lemma_widths_sum_nonneg(es.drop_last(), cv);
        lemma_width_nonneg(es.last(), cv);
    }
}

/// Prefixes of a width-checked list are width-checked, no wider than the
/// list, and grow one element at a time.
proof fn lemma_widths_take(es: Seq<Expr>, cv: crate::ctx::CtxView, i: int)
    requires
        widths_ok(es, cv),
        0 <= i < es.len(),
    ensures
        width_ok(es[i], cv),
        widths_ok(es.take(i), cv),
        0 <= widths_sum(es.take(i), cv),
        widths_sum(es.take(i + 1), cv) == widths_sum(es.take(i), cv) + width_spec(es[i], cv),
        widths_sum(es.take(i + 1), cv) <= widths_sum(es, cv),
    decreases es.len(),
{
    assert(es.take(i + 1).drop_last() =~= es.take(i));
    if i < es.len() - 1 {
        lemma_widths_take(es.drop_last(), cv, i);
        assert(es.drop_last().take(i + 1) =~= es.take(i + 1));
        assert(es.drop_last().take(i) =~= es.take(i));
        lemma_width_nonneg(es.last(), cv);
    } else {
        assert(es.take(i + 1) =~= es);
        assert(es.drop_last() =~= es.take(i));
    }
    lemma_widths_sum_nonneg(es.take(i), cv);
}

pub proof fn lemma_lowers_ok(es: Seq<Expr>, cv: crate::ctx::CtxView, i: int)
    requires
        lowers_ok(es, cv),
        0 <= i < es.len(),
    ensures
        lower_ok(es[i], cv, false),
    decreases es.len(),
{
    if i < es.len() - 1 {
        lemma_lowers_ok(es.drop_last(), cv, i);
    }
}

proof fn lemma_fields_ok(fs: Seq<FieldInit>, cv: crate::ctx::CtxView, i: int)
    requires
        fields_ok(fs, cv),
        0 <= i < fs.len(),
    ensures
        lower_ok(fs[i].value, cv, false),
    decreases fs.len(),
{
    if i < fs.len() - 1 {
        lemma_fields_ok(fs.drop_last(), cv, i);
    }
}

pub proof fn lemma_arms_ok(arms: Seq<ExprMatchArm>, cv: crate::ctx::CtxView, i: int)
    requires
        arms_ok(arms, cv),
        0 <= i < arms.len(),
    ensures
        lower_ok(arms[i].value, cv, false),
        arms[i].pattern matches Pattern::Literal(pe) ==> lower_ok(pe, cv, false),
    decreases arms.len(),
{
    if i < arms.len() - 1 {
        lemma_arms_ok(arms.drop_last(), cv, i);
    }
}

proof fn lemma_members_ok(ms: Seq<InsideMember>, cv: crate::ctx::CtxView, i: int)
    requires
        members_ok(ms, cv),
        0 <= i < ms.len(),
    ensures
        match ms[i] {
            InsideMember::Single(v) => lower_ok(v, cv, false),
            InsideMember::Range(l, h) => lower_ok(l, cv, false) && lower_ok(h, cv, false),
        },
    decreases ms.len(),
{
    if i < ms.len() - 1 {
        lemma_members_ok(ms.drop_last(), cv, i);
    }
}

proof fn lemma_preds_ok(pred: Expr, cv: crate::ctx::CtxView, recv: Seq<char>, k: nat, i: nat)
    requires
        preds_ok(pred, cv, recv, k),
        i < k,
    ensures
        lower_ok(pred, pred_cv(cv, recv, i), false),
    decreases k,
{
    if i < k - 1 {
        lemma_preds_ok(pred, cv, recv, (k - 1) as nat, i);
    }
}


// ---------------------------------------------------------- text helpers

/// `"(" + s + ")"`.
fn paren_fmt(s: &str) -> (r: String)
    ensures
        r@ == paren(s@),
{
    let mut t = own("(");
    push_str(&mut t, s);
    push_str(&mut t, ")");
    t
}

/// `<recv>[i]`.
fn elem_fmt(recv: &str, i: u64) -> (r: String)
    ensures
        r@ == recv@ + "["@ + dec_str(i as nat) + "]"@,
{
    let mut t = own(recv);
    push_str(&mut t, "[");
    push_str(&mut t, fmt_dec(i).as_str());
    push_str(&mut t, "]");
    t
}

/// `<recv>[0] sep ... sep <recv>[n-1]`.
fn elems_join(recv: &str, n: u64, sep: &str) -> (r: String)
    ensures
        r@ == join(elems(recv@, n as nat), sep@),
{
    let mut s = String::new();
    let mut i: u64 = 0;
    while i < n
        invariant
            i <= n,
            s@ == join(elems(recv@, i as nat), sep@),
        decreases n - i,
    {
        let t = elem_fmt(recv, i);
        proof {
            lemma_join_push(elems(recv@, i as nat), t@, sep@);
            assert(elems(recv@, (i + 1) as nat) =~= elems(recv@, i as nat).push(t@));
        }
        if i > 0 {
            push_str(&mut s, sep);
        }
        push_str(&mut s, t.as_str());
        i = i + 1;
    }
    s
}

/// `(<recv>[0] == x) || ... || (<recv>[n-1] == x)`.
fn contains_join(recv: &str, x: &str, n: u64) -> (r: String)
    ensures
        r@ == join(contains_terms(recv@, x@, n as nat), " || "@),
{
    let mut s = String::new();
    let mut i: u64 = 0;
    while i < n
        invariant
            i <= n,
            s@ == join(contains_terms(recv@, x@, i as nat), " || "@),
        decreases n - i,
    {
        let mut t = own("(");
        push_str(&mut t, recv);
        push_str(&mut t, "[");
        push_str(&mut t, fmt_dec(i).as_str());
        push_str(&mut t, "] == ");
        push_str(&mut t, x);
        push_str(&mut t, ")");
        proof {
            lemma_join_push(contains_terms(recv@, x@, i as nat), t@, " || "@);
            assert(contains_terms(recv@, x@, (i + 1) as nat) =~= contains_terms(
                recv@,
                x@,
                i as nat,
            ).push(t@));
        }
        if i > 0 {
            push_str(&mut s, " || ");
        }
        push_str(&mut s, t.as_str());
        i = i + 1;
    }
    s
}

/// `(s == lit) ? val : rest` as the match chain writes it.
fn ternary_fmt(s: &str, lit: &str, val: &str, rest: &str) -> (r: String)
    ensures
        r@ == "(("@ + s@ + " == "@ + lit@ + ") ? "@ + val@ + " : "@ + rest@ + ")"@,
{
    let mut t = own("((");
    push_str(&mut t, s);
    push_str(&mut t, " == ");
    push_str(&mut t, lit);
    push_str(&mut t, ") ? ");
    push_str(&mut t, val);
    push_str(&mut t, " : ");
    push_str(&mut t, rest);
    push_str(&mut t, ")");
    t
}

/// The literal a `let` binds, when a match pattern names it.
fn folded_let_exec<'b>(ctx: &Ctx<'b>, n: &str) -> (r: Option<&'b LitKind>)
    ensures
        match r {
            Some(l) => folded_let(ctx.view(), n@) == Some(*l),
            None => folded_let(ctx.view(), n@) is None,
        },
{
    match ctx.let_values {
        Some(m) => match m.get(n) {
            Some(e) => match &e.kind {
                ExprKind::Literal(l) => Some(l),
                _ => None,
            },
            None => None,
        },
        None => None,
    }
}

// -------------------------------------------------------- the lowering

/// Bit width of an expression (8 where nothing is known).
pub fn infer_expr_width(expr: &Expr, ctx: &Ctx) -> (r: u32)
    requires
        width_ok(*expr, ctx.view()),
    ensures
        r as int == width_spec(*expr, ctx.view()),
    decreases expr, 4int,
{
    let ghost cv = ctx.view();
    match &expr.kind {
        ExprKind::Ident(name) => match ctx.widths.get(name.as_str()) {
            Some(w) => *w,
            None => 8,
        },
        ExprKind::LatencyAt(inner, _) => infer_expr_width(inner, ctx),
        ExprKind::SvaNext(_, inner) => infer_expr_width(inner, ctx),
        ExprKind::Literal(LitKind::Sized(w, _)) => *w,
        ExprKind::Literal(_) => 32,
        ExprKind::Bool(_) => 1,
        ExprKind::MethodCall(base, method, args) => {
            let m = method.name.as_str();
            if str_eq(m, "reverse") {
                infer_expr_width(base, ctx)
            } else if str_eq(m, "trunc") || str_eq(m, "zext") || str_eq(m, "sext") || str_eq(
                m,
                "resize",
            ) {
                if args.len() > 0 {
                    eval_width_in(&args[0], ctx)
                } else {
                    8
                }
            } else {
                8
            }
        },
        ExprKind::BitSlice(_, hi, lo) => {
            let h = eval_width_in(hi, ctx);
            let l = eval_width_in(lo, ctx);
            h - l + 1
        },
        ExprKind::PartSelect(_, _, width, _) => eval_width_in(width, ctx),
        ExprKind::Cast(_, ty) => match &**ty {
            TypeExpr::UInt(w) => eval_width_in(w, ctx),
            TypeExpr::SInt(w) => eval_width_in(w, ctx),
            _ => 8,
        },
        ExprKind::Concat(parts) => widths_total(parts, ctx),
        ExprKind::Index(base, _) => index_width_exec(base, ctx),
        ExprKind::Repeat(count, value) => {
            let n = eval_width(count);
            let w = infer_expr_width(value, ctx);
            n * w
        },
        ExprKind::Binary(op, lhs, rhs) => {
            if is_relational_or_logic_exec(*op) {
                1
            } else if matches!(op, BinOp::Shl | BinOp::Shr) {
                infer_expr_width(lhs, ctx)
            } else {
                let lw = infer_expr_width(lhs, ctx);
                let rw = infer_expr_width(rhs, ctx);
                if lw >= rw {
                    lw
                } else {
                    rw
                }
            }
        },
        ExprKind::Unary(op, _) => {
            if matches!(op, UnaryOp::BitNot | UnaryOp::Neg) {
                8
            } else {
                1
            }
        },
        ExprKind::Ternary(_, then_expr, _) => infer_expr_width(then_expr, ctx),
        ExprKind::Signed(inner) => infer_expr_width(inner, ctx),
        ExprKind::Unsigned(inner) => infer_expr_width(inner, ctx),
        ExprKind::FieldAccess(base, field) => {
            let base_name: Option<&str> = match &base.kind {
                ExprKind::Ident(name) => Some(name.as_str()),
                ExprKind::Index(b, _) => match &b.kind {
                    ExprKind::Ident(name) => Some(name.as_str()),
                    _ => None,
                },
                _ => None,
            };
            if let Some(name) = base_name {
                let mut key = own(name);
                push_str(&mut key, ".");
                push_str(&mut key, field.name.as_str());
                if let Some(w) = ctx.widths.get(key.as_str()) {
                    return *w;
                }
            }
            let flat = cpp_expr_inner(expr, ctx, false);
            match ctx.widths.get(flat.as_str()) {
                Some(w) => *w,
                None => 8,
            }
        },
        _ => 8,
    }
}

/// Width of an element select.
fn index_width_exec(base: &Expr, ctx: &Ctx) -> (r: u32)
    ensures
        r as int == index_width(*base, ctx.view()),
{
    match ctx.vec_path_of_expr(base) {
        Some(bn) => {
            if crate::ctx::opt_contains(ctx.vec_names, bn.as_str()) {
                let total: u32 = match ctx.widths.get(bn.as_str()) {
                    Some(w) => *w,
                    None => 0,
                };
                let count: u64 = match ctx.vec_sizes {
                    Some(m) => match m.get(bn.as_str()) {
                        Some(c) => *c,
                        None => 0,
                    },
                    None => 0,
                };
                if count > 0 && total > 0 {
                    (total as u64 / count) as u32
                } else {
                    1
                }
            } else {
                1
            }
        },
        None => 1,
    }
}

/// Sum of the widths of `parts`.
fn widths_total(parts: &Vec<Expr>, ctx: &Ctx) -> (r: u32)
    requires
        widths_ok(parts@, ctx.view()),
        widths_sum(parts@, ctx.view()) <= u32::MAX,
    ensures
        r as int == widths_sum(parts@, ctx.view()),
    decreases parts, 0int,
{
    let ghost cv = ctx.view();
    let mut total: u32 = 0;
    let mut i: usize = 0;
    while i < parts.len()
        invariant
            i <= parts@.len(),
            cv == ctx.view(),
            widths_ok(parts@, cv),
            widths_sum(parts@, cv) <= u32::MAX,
            total as int == widths_sum(parts@.take(i as int), cv),
        decreases parts@.len() - i,
    {
        proof {
            lemma_widths_take(parts@, cv, i as int);
            assert(decreases_to!(parts => parts@[i as int]));
        }
        let w = infer_expr_width(&parts[i], ctx);
        total = total + w;
        i = i + 1;
    }
    proof {
        assert(parts@.take(parts@.len() as int) =~= parts@);
    }
    total
}

/// C++ text of an expression read as a value.
pub fn cpp_expr(expr: &Expr, ctx: &Ctx) -> (r: String)
    requires
        lower_ok(*expr, ctx.view(), false),
    ensures
        r@ == cpp_spec(*expr, ctx.view(), false),
    decreases expr, 3int,
{
    cpp_expr_inner(expr, ctx, false)
}

/// C++ text of an expression as an assignment target.
pub fn cpp_expr_lhs(expr: &Expr, ctx: &Ctx) -> (r: String)
    requires
        lower_ok(*expr, ctx.view(), true),
    ensures
        r@ == cpp_spec(*expr, ctx.view(), true),
{
    cpp_expr_inner(expr, ctx, true)
}

/// A condition in parentheses (not doubled when already fully wrapped).
pub fn cpp_condition(expr: &Expr, ctx: &Ctx) -> (r: String)
    requires
        lower_ok(*expr, ctx.view(), false),
        cpp_spec(*expr, ctx.view(), false).len() < u32::MAX,
    ensures
        r@ == if fully_wrapped(cpp_spec(*expr, ctx.view(), false)) {
            cpp_spec(*expr, ctx.view(), false)
        } else {
            paren(cpp_spec(*expr, ctx.view(), false))
        },
{
    let cond = cpp_expr(expr, ctx);
    if is_fully_wrapped_in_parens(cond.as_str()) {
        cond
    } else {
        paren_fmt(cond.as_str())
    }
}

/// C++ text of an expression, as a value or (`is_lhs`) as a target.
pub fn cpp_expr_inner(expr: &Expr, ctx: &Ctx, is_lhs: bool) -> (r: String)
    requires
        lower_ok(*expr, ctx.view(), is_lhs),
    ensures
        r@ == cpp_spec(*expr, ctx.view(), is_lhs),
    decreases expr, 2int,
{
    let ghost cv = ctx.view();
    match &expr.kind {
        ExprKind::LatencyAt(inner, _) => cpp_expr_inner(inner, ctx, is_lhs),
        ExprKind::SvaNext(_, inner) => cpp_expr_inner(inner, ctx, is_lhs),
        ExprKind::SynthIdent(name) => name.clone(),
        ExprKind::Literal(lit) => lit_cpp(lit),
        ExprKind::Bool(b) => if *b {
            own("1")
        } else {
            own("0")
        },
        ExprKind::Ident(name) => ident_cpp(ctx, name.as_str(), is_lhs),
        ExprKind::Binary(_, _, _) => cpp_binary(expr, ctx),
        ExprKind::Unary(op, operand) => cpp_unary(*op, operand, ctx),
        ExprKind::FieldAccess(_, _) => cpp_field_access(expr, ctx, is_lhs),
        ExprKind::MethodCall(_, _, _) => cpp_method_call(expr, ctx),
        ExprKind::Cast(inner, ty) => {
            let e = cpp_expr(inner, ctx);
            let t = cpp_port_type_with_params(ty, ctx.params);
            match &**ty {
                TypeExpr::SInt(w) => {
                    let w_hdl = eval_width_in(w, ctx);
                    let inner_w = infer_expr_width(inner, ctx);
                    cast_fmt(t.as_str(), e.as_str(), Some(w_hdl), inner_w)
                },
                _ => cast_fmt(t.as_str(), e.as_str(), None, 0),
            }
        },
        ExprKind::Index(_, _) => cpp_index(expr, ctx, is_lhs),
        ExprKind::BitSlice(base, hi, lo) => {
            let b = cpp_expr(base, ctx);
            let h = eval_width_in(hi, ctx);
            let l = eval_width_in(lo, ctx);
            let base_w = infer_expr_width(base, ctx);
            bitslice_fmt(b.as_str(), h, l, base_w)
        },
        ExprKind::PartSelect(_, _, _, _) => cpp_part_select(expr, ctx),
        ExprKind::EnumVariant(enum_name, variant) => enum_cpp(
            ctx,
            enum_name.name.as_str(),
            variant.name.as_str(),
        ),
        ExprKind::StructLiteral(name, fields) => {
            let f = cpp_struct_fields(fields, ctx);
            let mut s = own("[&](){ ");
            push_str(&mut s, name.name.as_str());
            push_str(&mut s, " _t; ");
            push_str(&mut s, f.as_str());
            push_str(&mut s, "return _t; }()");
            s
        },
        ExprKind::Todo => todo_cpp(),
        ExprKind::Concat(parts) => cpp_concat(parts, ctx),
        ExprKind::Repeat(count, value) => {
            let c = cpp_expr(count, ctx);
            let v = cpp_expr(value, ctx);
            let val_width = infer_expr_width(value, ctx);
            let mut s = own("_arch_repeat((uint64_t)(");
            push_str(&mut s, v.as_str());
            push_str(&mut s, "), ");
            push_str(&mut s, c.as_str());
            push_str(&mut s, ", ");
            push_str(&mut s, dec32(val_width).as_str());
            push_str(&mut s, ")");
            s
        },
        ExprKind::Clog2(arg) => {
            let a = cpp_expr(arg, ctx);
            let mut s = own("_arch_clog2(");
            push_str(&mut s, a.as_str());
            push_str(&mut s, ")");
            s
        },
        ExprKind::Onehot(index) => {
            let i = cpp_expr(index, ctx);
            let mut s = own("(1ULL << ");
            push_str(&mut s, i.as_str());
            push_str(&mut s, ")");
            s
        },
        ExprKind::Signed(inner) => {
            let w = infer_expr_width(inner, ctx);
            let ic = cpp_expr(inner, ctx);
            signed_fmt(ic.as_str(), w)
        },
        ExprKind::Unsigned(inner) => {
            let w = infer_expr_width(inner, ctx);
            let ic = cpp_expr(inner, ctx);
            unsigned_fmt(ic.as_str(), w)
        },
        ExprKind::Ternary(cond, then_expr, else_expr) => {
            let c = cpp_expr(cond, ctx);
            let t = cpp_expr(then_expr, ctx);
            let e = cpp_expr(else_expr, ctx);
            let mut s = own("((");
            push_str(&mut s, c.as_str());
            push_str(&mut s, ") ? (");
            push_str(&mut s, t.as_str());
            push_str(&mut s, ") : (");
            push_str(&mut s, e.as_str());
            push_str(&mut s, "))");
            s
        },
        ExprKind::FunctionCall(name, args) => cpp_function_call(name, args, ctx),
        ExprKind::ExprMatch(scrutinee, arms) => {
            let st = cpp_expr(scrutinee, ctx);
            cpp_match_arms(arms, st.as_str(), ctx)
        },
        ExprKind::Inside(scrutinee, members) => {
            let st = cpp_expr(scrutinee, ctx);
            if members.len() == 0 {
                own("0")
            } else {
                paren_fmt(cpp_inside_members(members, st.as_str(), ctx).as_str())
            }
        },
    }
}

/// A binary node: implications, float helpers, 128-bit products, checked
/// division and plain operators.
fn cpp_binary(expr: &Expr, ctx: &Ctx) -> (r: String)
    requires
        expr.kind is Binary,
        lower_ok(*expr, ctx.view(), false),
    ensures
        r@ == cpp_spec(*expr, ctx.view(), false),
    decreases expr, 1int,
{
    match &expr.kind {
        ExprKind::Binary(op, lhs, rhs) => {
            let l = cpp_expr(lhs, ctx);
            let r = cpp_expr(rhs, ctx);
            let fmt = match infer_expr_float(lhs, ctx) {
                Some(f) => Some(f),
                None => infer_expr_float(rhs, ctx),
            };
            let implies = matches!(op, BinOp::Implies | BinOp::ImpliesNext);
            let dispatched = fmt.is_some() && float_op_str(*op).is_some();
            let product = !implies && !dispatched && matches!(op, BinOp::Mul | BinOp::MulWrap);
            if product {
                let lw = infer_expr_width(lhs, ctx);
                let rw = infer_expr_width(rhs, ctx);
                let signed = infer_expr_signed(lhs, ctx) || infer_expr_signed(rhs, ctx);
                binary_fmt(
                    *op,
                    l.as_str(),
                    r.as_str(),
                    lw,
                    rw,
                    signed,
                    fmt,
                    is_const_reducible(rhs),
                    base_ident_name(rhs),
                )
            } else {
                binary_fmt(
                    *op,
                    l.as_str(),
                    r.as_str(),
                    0,
                    0,
                    false,
                    fmt,
                    is_const_reducible(rhs),
                    base_ident_name(rhs),
                )
            }
        },
        _ => String::new(),
    }
}

/// A unary node.
pub fn cpp_unary(op: UnaryOp, operand: &Expr, ctx: &Ctx) -> (r: String)
    requires
        lower_ok(*operand, ctx.view(), false),
        (op is RedAnd || op is RedOr || op is RedXor) ==> width_ok(*operand, ctx.view()),
    ensures
        r@ == crate::lowering::unary_text(
            op,
            cpp_spec(*operand, ctx.view(), false),
            width_spec(*operand, ctx.view()) as u32,
            crate::lowering::one_bit(*operand, ctx.view()),
        ),
    decreases operand, 5int,
{
    let o = cpp_expr(operand, ctx);
    let one_bit = match &operand.kind {
        ExprKind::Ident(name) => (match ctx.widths.get(name.as_str()) {
            Some(w) => *w,
            None => 32,
        }) == 1,
        _ => false,
    };
    if matches!(op, UnaryOp::RedAnd | UnaryOp::RedOr | UnaryOp::RedXor) {
        let w = infer_expr_width(operand, ctx);
        unary_fmt(op, o.as_str(), w, one_bit)
    } else {
        unary_fmt(op, o.as_str(), 0, one_bit)
    }
}

/// A field access: `rst.asserted`, flattened bus fields, instance outputs,
/// indexed bus lanes and struct fields.
fn cpp_field_access(expr: &Expr, ctx: &Ctx, is_lhs: bool) -> (r: String)
    requires
        expr.kind is FieldAccess,
        lower_ok(*expr, ctx.view(), is_lhs),
    ensures
        r@ == cpp_spec(*expr, ctx.view(), is_lhs),
    decreases expr, 1int,
{
    match &expr.kind {
        ExprKind::FieldAccess(base, field) => {
            if let ExprKind::Ident(bn) = &base.kind {
                if let Some(t) = ident_field_cpp(ctx, bn.as_str(), field.name.as_str(), is_lhs) {
                    return t;
                }
            }
            if let ExprKind::Index(arr, idx) = &base.kind {
                if let ExprKind::Ident(an) = &arr.kind {
                    match index_literal_exec(idx, ctx) {
                        Some(i) => {
                            let mut expanded = own(an.as_str());
                            push_str(&mut expanded, "_");
                            push_str(&mut expanded, fmt_dec(i).as_str());
                            if ctx.bus_ports.contains(expanded.as_str()) {
                                push_str(&mut expanded, "_");
                                push_str(&mut expanded, field.name.as_str());
                                return expanded;
                            }
                        },
                        None => {
                            if let Some(m) = ctx.vec_of_bus_port_count {
                                if let Some(n) = m.get(an.as_str()) {
                                    let i = cpp_expr(idx, ctx);
                                    return bus_port_lane(
                                        i.as_str(),
                                        *n,
                                        an.as_str(),
                                        field.name.as_str(),
                                    );
                                }
                            }
                            if let Some(m) = ctx.vec_of_bus_wire_count {
                                if let Some(n) = m.get(an.as_str()) {
                                    let i = cpp_expr(idx, ctx);
                                    return bus_wire_lane(
                                        i.as_str(),
                                        *n,
                                        an.as_str(),
                                        field.name.as_str(),
                                    );
                                }
                            }
                        },
                    }
                }
            }
            let mut b = cpp_expr_inner(base, ctx, is_lhs);
            push_str(&mut b, ".");
            push_str(&mut b, field.name.as_str());
            b
        },
        _ => String::new(),
    }
}

/// A Vec element or bit select.
fn cpp_index(expr: &Expr, ctx: &Ctx, is_lhs: bool) -> (r: String)
    requires
        expr.kind is Index,
        lower_ok(*expr, ctx.view(), is_lhs),
    ensures
        r@ == cpp_spec(*expr, ctx.view(), is_lhs),
    decreases expr, 1int,
{
    match &expr.kind {
        ExprKind::Index(base, idx) => {
            let b = cpp_expr_inner(base, ctx, is_lhs);
            let i = cpp_expr(idx, ctx);
            let is_vec = ctx.expr_is_vec(base);
            let idx_const = matches!(idx.kind, ExprKind::Literal(_));
            let limit = match ctx.expr_vec_size(base) {
                Some(v) => v,
                None => 0,
            };
            let vec_loc = match ctx.vec_path_of_expr(base) {
                Some(p) => p,
                None => own("<vec>"),
            };
            let bit_loc = match base_ident_name(base) {
                Some(n) => n,
                None => "<bitsel>",
            };
            let base_w = if is_vec {
                0
            } else {
                infer_expr_width(base, ctx)
            };
            index_fmt(
                b.as_str(),
                i.as_str(),
                is_vec,
                limit,
                vec_loc.as_str(),
                base_w,
                bit_loc,
                idx_const,
            )
        },
        _ => String::new(),
    }
}

/// A variable part select.
fn cpp_part_select(expr: &Expr, ctx: &Ctx) -> (r: String)
    requires
        expr.kind is PartSelect,
        lower_ok(*expr, ctx.view(), false),
    ensures
        r@ == cpp_spec(*expr, ctx.view(), false),
    decreases expr, 1int,
{
    match &expr.kind {
        ExprKind::PartSelect(base, start, width, up) => {
            let b = cpp_expr(base, ctx);
            let s = cpp_expr(start, ctx);
            let w = eval_width_in(width, ctx);
            let base_w = infer_expr_width(base, ctx);
            let start_const = matches!(start.kind, ExprKind::Literal(_));
            let loc = match base_ident_name(base) {
                Some(n) => n,
                None => "<partsel>",
            };
            part_select_fmt(b.as_str(), s.as_str(), w, base_w, *up, start_const, loc)
        },
        _ => String::new(),
    }
}



/// A method call: width changes, bit reversal, unrolled Vec methods and
/// float conversions.
fn cpp_method_call(expr: &Expr, ctx: &Ctx) -> (r: String)
    requires
        expr.kind is MethodCall,
        lower_ok(*expr, ctx.view(), false),
    ensures
        r@ == cpp_spec(*expr, ctx.view(), false),
    decreases expr, 1int,
{
    match &expr.kind {
        ExprKind::MethodCall(base, method, args) => {
            let b = cpp_expr(base, ctx);
            let m = method.name.as_str();
            if str_eq(m, "trunc") {
                if args.len() > 0 {
                    let bits = eval_width_in(&args[0], ctx);
                    let base_w = infer_expr_width(base, ctx);
                    trunc_fmt(b.as_str(), bits, base_w, infer_expr_signed(base, ctx))
                } else {
                    b
                }
            } else if str_eq(m, "zext") {
                if args.len() > 0 {
                    let bits = eval_width_in(&args[0], ctx);
                    let base_w = infer_expr_width(base, ctx);
                    zext_fmt(b.as_str(), bits, base_w)
                } else {
                    b
                }
            } else if str_eq(m, "sext") {
                if args.len() > 0 {
                    let dst = eval_width_in(&args[0], ctx);
                    let src = infer_expr_width(base, ctx);
                    sext_fmt(b.as_str(), dst, src)
                } else {
                    b
                }
            } else if str_eq(m, "resize") {
                if args.len() > 0 {
                    let dst = eval_width_in(&args[0], ctx);
                    let src = infer_expr_width(base, ctx);
                    resize_fmt(b.as_str(), dst, src)
                } else {
                    b
                }
            } else if str_eq(m, "reverse") {
                let base_w = infer_expr_width(base, ctx);
                let chunk = if args.len() > 0 {
                    eval_width_in(&args[0], ctx)
                } else {
                    1
                };
                reverse_fmt(b.as_str(), base_w, chunk)
            } else if str_eq(m, "any") || str_eq(m, "all") || str_eq(m, "count") || str_eq(
                m,
                "contains",
            ) || str_eq(m, "reduce_or") || str_eq(m, "reduce_and") || str_eq(m, "reduce_xor") {
                lower_vec_method_cpp(b.as_str(), base, method, args, ctx)
            } else if str_eq(m, "to_fp32") {
                fp_conv_fmt(
                    FpFmt::Fp32,
                    b.as_str(),
                    infer_expr_float(base, ctx),
                    infer_expr_signed(base, ctx),
                )
            } else if str_eq(m, "to_bf16") {
                fp_conv_fmt(
                    FpFmt::Bf16,
                    b.as_str(),
                    infer_expr_float(base, ctx),
                    infer_expr_signed(base, ctx),
                )
            } else if str_eq(m, "to_fp8e4m3") {
                fp_conv_fmt(
                    FpFmt::E4m3,
                    b.as_str(),
                    infer_expr_float(base, ctx),
                    infer_expr_signed(base, ctx),
                )
            } else if str_eq(m, "to_fp8e5m2") {
                fp_conv_fmt(
                    FpFmt::E5m2,
                    b.as_str(),
                    infer_expr_float(base, ctx),
                    infer_expr_signed(base, ctx),
                )
            } else if str_eq(m, "to_uint") || str_eq(m, "to_sint") {
                let bits = if args.len() > 0 {
                    eval_width_in(&args[0], ctx)
                } else {
                    32
                };
                to_int_fmt(b.as_str(), bits, infer_expr_float(base, ctx), str_eq(m, "to_sint"))
            } else {
                let mut s = b;
                push_str(&mut s, ".");
                push_str(&mut s, m);
                push_str(&mut s, "()");
                s
            }
        },
        _ => String::new(),
    }
}

/// Terms of an unrolled Vec predicate over elements `0..k`: the
/// predicate lowered per element (empty without one), optionally wrapped
/// as a 0/1 count.
pub open spec fn pred_join_terms(
    args: Seq<Expr>,
    cv: crate::ctx::CtxView,
    recv: Seq<char>,
    k: nat,
    counting: bool,
) -> Seq<Seq<char>> {
    let ts = if args.len() > 0 {
        pred_terms(args[0], cv, recv, k)
    } else {
        copies(Seq::empty(), k)
    };
    if counting {
        count_terms(ts)
    } else {
        ts
    }
}

/// The predicate of a Vec method lowered for elements `0..n`, each term
/// optionally wrapped as a 0/1 count, joined with `sep`.
fn pred_join(args: &Vec<Expr>, recv_b: &str, n: u64, sep: &str, counting: bool, ctx: &Ctx) -> (r:
    String)
    requires
        args@.len() > 0 ==> preds_ok(args@[0], ctx.view(), recv_b@, n as nat),
    ensures
        r@ == join(pred_join_terms(args@, ctx.view(), recv_b@, n as nat, counting), sep@),
    decreases args, 3int,
{
    let ghost cv = ctx.view();
    let mut s = String::new();
    let mut i: u64 = 0;
    while i < n
        invariant
            i <= n,
            cv == ctx.view(),
            args@.len() > 0 ==> preds_ok(args@[0], cv, recv_b@, n as nat),
            s@ == join(pred_join_terms(args@, cv, recv_b@, i as nat, counting), sep@),
        decreases n - i,
    {
        let mut sub: NameMap<String> = NameMap::new();
        sub.insert(own("item"), elem_fmt(recv_b, i));
        sub.insert(own("index"), fmt_dec(i));
        let sub_ctx = Ctx { ident_subst: Some(&sub), ..*ctx };
        proof {
            assert(sub_ctx.view().ident_subst == pred_cv(cv, recv_b@, i as nat).ident_subst) by {
                assert(sub@.map_values(|t: String| t@) =~= Map::<Seq<char>, Seq<char>>::empty().insert(
                    "item"@,
                    recv_b@ + "["@ + dec_str(i as nat) + "]"@,
                ).insert("index"@, dec_str(i as nat)));
            }
            assert(sub_ctx.view() == pred_cv(cv, recv_b@, i as nat));
        }
        let t0 = if args.len() > 0 {
            proof {
                lemma_preds_ok(args@[0], cv, recv_b@, n as nat, i as nat);
                assert(decreases_to!(args => args@[0]));
            }
            cpp_expr(&args[0], &sub_ctx)
        } else {
            String::new()
        };
        let t = if counting {
            let mut c = own("(");
            push_str(&mut c, t0.as_str());
            push_str(&mut c, " ? 1u : 0u)");
            c
        } else {
            t0
        };
        proof {
            let ts_i = if args@.len() > 0 {
                pred_terms(args@[0], cv, recv_b@, i as nat)
            } else {
                copies(Seq::empty(), i as nat)
            };
            let ts_n = if args@.len() > 0 {
                pred_terms(args@[0], cv, recv_b@, (i + 1) as nat)
            } else {
                copies(Seq::empty(), (i + 1) as nat)
            };
            if args@.len() > 0 {
                assert(ts_n == ts_i.push(t0@));
            } else {
                assert(ts_n =~= ts_i.push(t0@));
            }
            if counting {
                assert(count_terms(ts_n) =~= count_terms(ts_i).push(t@));
            }
            assert(pred_join_terms(args@, cv, recv_b@, (i + 1) as nat, counting) == pred_join_terms(
                args@,
                cv,
                recv_b@,
                i as nat,
                counting,
            ).push(t@));
            lemma_join_push(pred_join_terms(args@, cv, recv_b@, i as nat, counting), t@, sep@);
        }
        if i > 0 {
            push_str(&mut s, sep);
        }
        push_str(&mut s, t.as_str());
        i = i + 1;
    }
    s
}

/// A Vec method (`any`, `all`, `count`, `contains`, `reduce_*`) unrolled
/// over the elements of a Vec of known size; `<recv>.<method>()` when the
/// size is not known.
pub fn lower_vec_method_cpp(
    recv_b: &str,
    recv: &Expr,
    method: &Ident,
    args: &Vec<Expr>,
    ctx: &Ctx,
) -> (r: String)
    requires
        is_vec_method(method.name@),
        match recv_size(*recv, ctx.view()) {
            Some(n) => args@.len() > 0 ==> if method.name@ == "contains"@ {
                lower_ok(args@[0], ctx.view(), false)
            } else if method.name@ == "any"@ || method.name@ == "all"@ || method.name@
                == "count"@ {
                preds_ok(args@[0], ctx.view(), recv_b@, n as nat)
            } else {
                true
            },
            None => true,
        },
    ensures
        r@ == vec_method_text(
            method.name@,
            recv_b@,
            recv_size(*recv, ctx.view()),
            if args@.len() > 0 {
                pred_terms(
                    args@[0],
                    ctx.view(),
                    recv_b@,
                    match recv_size(*recv, ctx.view()) {
                        Some(v) => v as nat,
                        None => 0,
                    },
                )
            } else {
                copies(
                    Seq::empty(),
                    match recv_size(*recv, ctx.view()) {
                        Some(v) => v as nat,
                        None => 0,
                    },
                )
            },
            args@.len() > 0,
            if args@.len() > 0 && method.name@ == "contains"@ {
                cpp_spec(args@[0], ctx.view(), false)
            } else {
                Seq::empty()
            },
        ),
    decreases args, 4int,
{
    let m = method.name.as_str();
    proof {
        reveal_strlit("any");
        reveal_strlit("all");
        reveal_strlit("count");
        reveal_strlit("contains");
        assert("any"@.len() == 3 && "all"@.len() == 3 && "count"@.len() == 5);
        assert("contains"@.len() == 8);
        assert("any"@ != "all"@) by {
            assert("any"@[1] != "all"@[1]);
        }
    }
    let n: Option<u64> = match &recv.kind {
        ExprKind::Ident(nm) => match ctx.vec_sizes {
            Some(sizes) => match sizes.get(nm.as_str()) {
                Some(v) => Some(*v),
                None => None,
            },
            None => None,
        },
        _ => None,
    };
    match n {
        None => {
            let mut s = own(recv_b);
            push_str(&mut s, ".");
            push_str(&mut s, m);
            push_str(&mut s, "()");
            s
        },
        Some(n) => {
            proof {
                assert(recv_size(*recv, ctx.view()) == Some(n));
            }
            if str_eq(m, "any") {
                if n == 0 {
                    own("false")
                } else {
                    paren_fmt(pred_join(args, recv_b, n, " || ", false, ctx).as_str())
                }
            } else if str_eq(m, "all") {
                if n == 0 {
                    own("true")
                } else {
                    paren_fmt(pred_join(args, recv_b, n, " && ", false, ctx).as_str())
                }
            } else if str_eq(m, "count") {
                if n == 0 {
                    own("0")
                } else {
                    paren_fmt(pred_join(args, recv_b, n, " + ", true, ctx).as_str())
                }
            } else if str_eq(m, "contains") {
                if args.len() == 0 {
                    own("false")
                } else {
                    proof {
                        assert(decreases_to!(args => args@[0]));
                    }
                    let x = cpp_expr(&args[0], ctx);
                    if n == 0 {
                        own("false")
                    } else {
                        paren_fmt(contains_join(recv_b, x.as_str(), n).as_str())
                    }
                }
            } else if str_eq(m, "reduce_or") {
                if n == 0 {
                    own("0")
                } else {
                    paren_fmt(elems_join(recv_b, n, " | ").as_str())
                }
            } else if str_eq(m, "reduce_and") {
                if n == 0 {
                    own("0")
                } else {
                    paren_fmt(elems_join(recv_b, n, " & ").as_str())
                }
            } else {
                if n == 0 {
                    own("0")
                } else {
                    paren_fmt(elems_join(recv_b, n, " ^ ").as_str())
                }
            }
        },
    }
}

/// One part of a concatenation placed at bit `off` of a `total`-bit value.
fn concat_term_fmt(val: &str, off: u32, total: u32) -> (r: String)
    ensures
        r@ == concat_term(val@, off as int, total as int),
{
    if total > 128 {
        let mut t = own("_r = _r | (VlWide<");
        push_str(&mut t, dec32(crate::cpp_fmt::wide_words(total)).as_str());
        push_str(&mut t, ">(static_cast<uint64_t>(");
        push_str(&mut t, val);
        push_str(&mut t, ")) << ");
        push_str(&mut t, dec32(off).as_str());
        push_str(&mut t, ");");
        t
    } else if total > 64 {
        let mut t = own("((_arch_u128)(uint64_t)(");
        push_str(&mut t, val);
        push_str(&mut t, ") << ");
        push_str(&mut t, dec32(off).as_str());
        push_str(&mut t, ")");
        t
    } else {
        let mut t = own("((uint64_t)(");
        push_str(&mut t, val);
        push_str(&mut t, ") << ");
        push_str(&mut t, dec32(off).as_str());
        push_str(&mut t, ")");
        t
    }
}

/// A concatenation, most significant part first: shifted ORs into a
/// 64-bit or 128-bit carrier, or a `VlWide` built in a lambda past 128
/// bits.
pub fn cpp_concat(parts: &Vec<Expr>, ctx: &Ctx) -> (r: String)
    requires
        lowers_ok(parts@, ctx.view()),
        widths_ok(parts@, ctx.view()),
        widths_sum(parts@, ctx.view()) <= u32::MAX,
    ensures
        r@ == if parts@.len() == 0 {
            "0"@
        } else {
            concat_text(
                concat_terms(
                    parts@,
                    ctx.view(),
                    parts@.len() as int,
                    0,
                    widths_sum(parts@, ctx.view()),
                ),
                widths_sum(parts@, ctx.view()),
            )
        },
    decreases parts, 4int,
{
    let ghost cv = ctx.view();
    let n = parts.len();
    if n == 0 {
        return own("0");
    }
    let total = widths_total(parts, ctx);
    let ghost gt = total as int;
    let sep = if total > 128 { " " } else { " | " };
    let mut s = String::new();
    let mut off: u32 = 0;
    let mut k: usize = n;
    let ghost mut acc: Seq<Seq<char>> = Seq::empty();
    proof {
        assert(parts@.take(n as int) =~= parts@);
    }
    while k > 0
        invariant
            k <= n == parts@.len(),
            cv == ctx.view(),
            lowers_ok(parts@, cv),
            widths_ok(parts@, cv),
            gt == widths_sum(parts@, cv) <= u32::MAX,
            off as int + widths_sum(parts@.take(k as int), cv) == gt,
            gt == total as int,
            acc + concat_terms(parts@, cv, k as int, off as int, gt) == concat_terms(
                parts@,
                cv,
                n as int,
                0,
                gt,
            ),
            s@ == join(acc, sep@),
            acc.len() == n - k,
            sep@ == if gt > 128 { " "@ } else { " | "@ },
        decreases k,
    {
        let i = k - 1;
        proof {
            lemma_widths_take(parts@, cv, i as int);
            lemma_lowers_ok(parts@, cv, i as int);
            assert(decreases_to!(parts => parts@[i as int]));
        }
        let w = infer_expr_width(&parts[i], ctx);
        let val = cpp_expr(&parts[i], ctx);
        let t = concat_term_fmt(val.as_str(), off, total);
        proof {
            assert(0 < k <= parts@.len());
            assert(concat_terms(parts@, cv, k as int, off as int, gt) == seq![concat_term(
                cpp_spec(parts@[k - 1], cv, false),
                off as int,
                gt,
            )] + concat_terms(parts@, cv, k - 1, off + width_spec(parts@[k - 1], cv), gt));
            assert(val@ == cpp_spec(parts@[k - 1], cv, false));
            assert(t@ == concat_term(cpp_spec(parts@[k - 1], cv, false), off as int, gt));
            assert(w as int == width_spec(parts@[k - 1], cv));
            lemma_join_push(acc, t@, sep@);
            assert(concat_terms(parts@, cv, k as int, off as int, gt) == seq![t@] + concat_terms(
                parts@,
                cv,
                i as int,
                off + w,
                gt,
            ));
            assert(acc.push(t@) + concat_terms(parts@, cv, i as int, off + w, gt) =~= acc
                + concat_terms(parts@, cv, k as int, off as int, gt));
            acc = acc.push(t@);
        }
        if k < n {
            push_str(&mut s, sep);
        }
        push_str(&mut s, t.as_str());
        off = off + w;
        k = i;
    }
    proof {
        assert(acc =~= concat_terms(parts@, cv, n as int, 0, gt));
    }
    if total > 128 {
        let words = dec32(crate::cpp_fmt::wide_words(total));
        let mut r = own("[&]() -> VlWide<");
        push_str(&mut r, words.as_str());
        push_str(&mut r, "> { VlWide<");
        push_str(&mut r, words.as_str());
        push_str(&mut r, "> _r{}; ");
        push_str(&mut r, s.as_str());
        push_str(&mut r, " return _r; }()");
        r
    } else {
        paren_fmt(s.as_str())
    }
}

/// The field initialisers of a struct literal.
fn cpp_struct_fields(fields: &Vec<FieldInit>, ctx: &Ctx) -> (r: String)
    requires
        fields_ok(fields@, ctx.view()),
    ensures
        r@ == fields_text(fields@, ctx.view()),
    decreases fields, 5int,
{
    let ghost cv = ctx.view();
    let mut body = String::new();
    let mut i: usize = 0;
    while i < fields.len()
        invariant
            i <= fields@.len(),
            cv == ctx.view(),
            fields_ok(fields@, cv),
            body@ == fields_text(fields@.take(i as int), cv),
        decreases fields@.len() - i,
    {
        proof {
            lemma_fields_ok(fields@, cv, i as int);
            assert(decreases_to!(fields => fields@[i as int].value));
            assert(fields@.take(i + 1).drop_last() =~= fields@.take(i as int));
        }
        let v = cpp_expr(&fields[i].value, ctx);
        push_str(&mut body, "_t.");
        push_str(&mut body, fields[i].name.name.as_str());
        push_str(&mut body, " = ");
        push_str(&mut body, v.as_str());
        push_str(&mut body, "; ");
        i = i + 1;
    }
    proof {
        assert(fields@.take(fields@.len() as int) =~= fields@);
    }
    body
}

/// A function call: `fma` and `is_nan` through the float helpers, any
/// other function by name.
fn cpp_function_call(name: &String, args: &Vec<Expr>, ctx: &Ctx) -> (r: String)
    requires
        lowers_ok(args@, ctx.view()),
    ensures
        r@ == crate::lowering::call_text(name@, args@, ctx.view()),
    decreases args, 5int,
{
    let ghost cv = ctx.view();
    if str_eq(name.as_str(), "fma") && args.len() == 3 {
        proof {
            lemma_lowers_ok(args@, cv, 0);
            lemma_lowers_ok(args@, cv, 1);
            lemma_lowers_ok(args@, cv, 2);
            assert(decreases_to!(args => args@[0]));
            assert(decreases_to!(args => args@[1]));
            assert(decreases_to!(args => args@[2]));
        }
        let fmt = match infer_expr_float(&args[0], ctx) {
            Some(f) => f,
            None => match infer_expr_float(&args[1], ctx) {
                Some(f) => f,
                None => match infer_expr_float(&args[2], ctx) {
                    Some(f) => f,
                    None => FpFmt::Fp32,
                },
            },
        };
        let a = cpp_expr(&args[0], ctx);
        let b = cpp_expr(&args[1], ctx);
        let c = cpp_expr(&args[2], ctx);
        let mut s = own("_arch_fma_");
        push_str(&mut s, fmt.helper_tag());
        push_str(&mut s, "(");
        push_str(&mut s, a.as_str());
        push_str(&mut s, ", ");
        push_str(&mut s, b.as_str());
        push_str(&mut s, ", ");
        push_str(&mut s, c.as_str());
        push_str(&mut s, ")");
        s
    } else if str_eq(name.as_str(), "is_nan") && args.len() == 1 {
        proof {
            lemma_lowers_ok(args@, cv, 0);
            assert(decreases_to!(args => args@[0]));
        }
        let fmt = match infer_expr_float(&args[0], ctx) {
            Some(f) => f,
            None => FpFmt::Fp32,
        };
        let a = cpp_expr(&args[0], ctx);
        let mut s = own("_arch_");
        push_str(&mut s, fmt.helper_tag());
        push_str(&mut s, "_isnan(");
        push_str(&mut s, a.as_str());
        push_str(&mut s, ")");
        s
    } else {
        let mut joined = String::new();
        let mut i: usize = 0;
        while i < args.len()
            invariant
                i <= args@.len(),
                cv == ctx.view(),
                lowers_ok(args@, cv),
                joined@ == join(cpps(args@.take(i as int), cv), ", "@),
            decreases args@.len() - i,
        {
            proof {
                lemma_lowers_ok(args@, cv, i as int);
                assert(decreases_to!(args => args@[i as int]));
                assert(args@.take(i + 1).drop_last() =~= args@.take(i as int));
            }
            let a = cpp_expr(&args[i], ctx);
            proof {
                lemma_join_push(cpps(args@.take(i as int), cv), a@, ", "@);
            }
            if i > 0 {
                push_str(&mut joined, ", ");
            }
            push_str(&mut joined, a.as_str());
            i = i + 1;
        }
        proof {
            assert(args@.take(args@.len() as int) =~= args@);
        }
        let mut s = name.clone();
        push_str(&mut s, "(");
        push_str(&mut s, joined.as_str());
        push_str(&mut s, ")");
        s
    }
}

/// The arms of a match expression as a chain of ternaries over the
/// scrutinee text `st`, built from the last arm.
fn cpp_match_arms(arms: &Vec<ExprMatchArm>, st: &str, ctx: &Ctx) -> (r: String)
    requires
        arms_ok(arms@, ctx.view()),
    ensures
        r@ == match_chain(arms@, st@, ctx.view()),
    decreases arms, 5int,
{
    let ghost cv = ctx.view();
    let n = arms.len();
    let mut result = own("0");
    let mut i: usize = n;
    proof {
        reveal_strlit("0");
        assert(arms@.subrange(n as int, n as int).len() == 0);
    }
    while i > 0
        invariant
            i <= n == arms@.len(),
            cv == ctx.view(),
            arms_ok(arms@, cv),
            result@ == match_chain(arms@.subrange(i as int, n as int), st@, cv),
        decreases i,
    {
        let j = i - 1;
        let ghost sub = arms@.subrange(j as int, n as int);
        proof {
            lemma_arms_ok(arms@, cv, j as int);
            assert(decreases_to!(arms => arms@[j as int].value));
            assert(sub.subrange(1, sub.len() as int) =~= arms@.subrange(i as int, n as int));
            assert(sub[0] == arms@[j as int]);
        }
        let arm = &arms[j];
        let val = cpp_expr(&arm.value, ctx);
        let next = match &arm.pattern {
            Pattern::Wildcard => val,
            Pattern::Ident(id) => match folded_let_exec(ctx, id.name.as_str()) {
                Some(l) => ternary_fmt(
                    st,
                    lit_cpp(l).as_str(),
                    val.as_str(),
                    result.as_str(),
                ),
                None => val,
            },
            Pattern::Literal(e) => {
                proof {
                    assert(decreases_to!(arms => arms@[j as int].pattern));
                }
                let lit = cpp_expr(e, ctx);
                ternary_fmt(st, lit.as_str(), val.as_str(), result.as_str())
            },
            Pattern::EnumVariant(en, vr) => {
                let idx = match enum_index(ctx, en.name.as_str(), vr.name.as_str()) {
                    Some(v) => v,
                    None => 0,
                };
                ternary_fmt(st, fmt_dec(idx).as_str(), val.as_str(), result.as_str())
            },
        };
        proof {
            assert(next@ == arm_text(
                cv,
                st@,
                sub[0].pattern,
                cpp_spec(sub[0].value, cv, false),
                pattern_lit(sub[0].pattern, cv),
                match_chain(sub.subrange(1, sub.len() as int), st@, cv),
            ));
        }
        result = next;
        i = j;
    }
    proof {
        assert(arms@.subrange(0, n as int) =~= arms@);
    }
    result
}

/// The membership tests of `inside` over the scrutinee text `st`.
fn cpp_inside_members(members: &Vec<InsideMember>, st: &str, ctx: &Ctx) -> (r: String)
    requires
        members_ok(members@, ctx.view()),
    ensures
        r@ == join(inside_terms(members@, st@, ctx.view()), " || "@),
    decreases members, 5int,
{
    let ghost cv = ctx.view();
    let mut joined = String::new();
    let mut i: usize = 0;
    while i < members.len()
        invariant
            i <= members@.len(),
            cv == ctx.view(),
            members_ok(members@, cv),
            joined@ == join(inside_terms(members@.take(i as int), st@, cv), " || "@),
        decreases members@.len() - i,
    {
        proof {
            lemma_members_ok(members@, cv, i as int);
            assert(members@.take(i + 1).drop_last() =~= members@.take(i as int));
            assert(decreases_to!(members => members@[i as int]));
        }
        let t = match &members[i] {
            InsideMember::Single(e) => {
                let v = cpp_expr(e, ctx);
                let mut t = own("(");
                push_str(&mut t, st);
                push_str(&mut t, " == ");
                push_str(&mut t, v.as_str());
                push_str(&mut t, ")");
                t
            },
            InsideMember::Range(lo, hi) => {
                let l = cpp_expr(lo, ctx);
                let h = cpp_expr(hi, ctx);
                let mut t = own("(");
                push_str(&mut t, st);
                push_str(&mut t, " >= ");
                push_str(&mut t, l.as_str());
                push_str(&mut t, " && ");
                push_str(&mut t, st);
                push_str(&mut t, " <= ");
                push_str(&mut t, h.as_str());
                push_str(&mut t, ")");
                t
            },
        };
        proof {
            lemma_join_push(inside_terms(members@.take(i as int), st@, cv), t@, " || "@);
        }
        if i > 0 {
            push_str(&mut joined, " || ");
        }
        push_str(&mut joined, t.as_str());
        i = i + 1;
    }
    proof {
        assert(members@.take(members@.len() as int) =~= members@);
    }
    joined
}

} // verus!
