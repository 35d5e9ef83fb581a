//! Static facts about expressions that drive lowering: width folding,
//! signedness, floating-point format and declared type.
use vstd::prelude::*;
use crate::ast::{BinOp, Expr, ExprKind, FloatLitFmt, ParamDecl, TypeExpr, UnaryOp};
use crate::const_eval::{const_eval, try_eval_const_expr_with_params};
use crate::ctx::{Ctx, CtxView, vget};
use crate::expr_codegen::FpFmt;
use crate::names::NameMap;
use crate::text::{push_str, str_eq};

verus! {

/// A width expression folded against the context's params; 32 when it
/// does not fold.
pub open spec fn eval_width_in_spec(w: Expr, cv: CtxView) -> u32 {
    match const_eval(w, cv.params, Set::empty()) {
        Some(v) => #[verifier::truncate] (v as u32),
        None => 32,
    }
}

/// A width expression folded without params; 32 when it does not fold.
pub open spec fn eval_width_spec(w: Expr) -> u32 {
    match const_eval(w, Seq::empty(), Set::empty()) {
        Some(v) => #[verifier::truncate] (v as u32),
        None => 32,
    }
}

pub fn eval_width_in(w: &Expr, ctx: &Ctx) -> (r: u32)
    ensures
        r == eval_width_in_spec(*w, ctx.view()),
{
    match try_eval_const_expr_with_params(w, ctx.params) {
        Some(v) => #[verifier::truncate] (v as u32),
        None => 32,
    }
}

pub fn eval_width(w: &Expr) -> (r: u32)
    ensures
        r == eval_width_spec(*w),
{
    let empty: Vec<ParamDecl> = Vec::new();
    match try_eval_const_expr_with_params(w, empty.as_slice()) {
        Some(v) => #[verifier::truncate] (v as u32),
        None => 32,
    }
}

/// Comparison and logical operators, whose result is one bit.
pub open spec fn is_relational_or_logic(op: BinOp) -> bool {
    op is Eq || op is Neq || op is Lt || op is Gt || op is Lte || op is Gte || op is And || op is Or
}

pub fn is_relational_or_logic_exec(op: BinOp) -> (r: bool)
    ensures
        r == is_relational_or_logic(op),
{
    match op {
        BinOp::Eq | BinOp::Neq | BinOp::Lt | BinOp::Gt | BinOp::Lte | BinOp::Gte | BinOp::And
        | BinOp::Or => true,
        _ => false,
    }
}

/// Whether `e` is signed: signed identifiers and flattened bus/struct
/// fields, `SInt` casts, `signed(..)`, negation, width-changing methods of
/// a signed base, and arithmetic with a signed operand.
pub open spec fn signed_spec(e: Expr, cv: CtxView) -> bool
    decreases e,
{
    match e.kind {
        ExprKind::Ident(n) => cv.signed_names.contains(n@),
        ExprKind::FieldAccess(b, f) => match b.kind {
            ExprKind::Ident(bn) => {
                let flat = if cv.bus_ports.contains(bn@) {
                    bn@ + "_"@ + f.name@
                } else {
                    bn@ + "."@ + f.name@
                };
                cv.signed_names.contains(flat)
            },
            _ => false,
        },
        ExprKind::Cast(_, ty) => match *ty {
            TypeExpr::SInt(_) => true,
            _ => false,
        },
        ExprKind::Signed(_) => true,
        ExprKind::Unsigned(_) => false,
        ExprKind::MethodCall(b, m, _) => if m.name@ == "trunc"@ || m.name@ == "sext"@ || m.name@
            == "resize"@ || m.name@ == "reverse"@ {
            signed_spec(*b, cv)
        } else {
            false
        },
        ExprKind::Unary(op, inner) => if op is Neg {
            true
        } else {
            signed_spec(*inner, cv)
        },
        ExprKind::Binary(op, l, r) => if is_relational_or_logic(op) {
            false
        } else {
            signed_spec(*l, cv) || signed_spec(*r, cv)
        },
        ExprKind::Ternary(_, t, f) => signed_spec(*t, cv) || signed_spec(*f, cv),
        _ => false,
    }
}

fn cat3(a: &str, b: &str, c: &str) -> (r: String)
    ensures
        r@ == a@ + b@ + c@,
{
    let mut s = String::from_str(a);
    push_str(&mut s, b);
    push_str(&mut s, c);
    s
}

fn signed_contains(ctx: &Ctx, n: &str) -> (r: bool)
    ensures
        r == ctx.view().signed_names.contains(n@),
{
    match ctx.signed_names {
        Some(s) => s.contains(n),
        None => false,
    }
}

/// Whether an expression is signed.
pub fn infer_expr_signed(expr: &Expr, ctx: &Ctx) -> (r: bool)
    ensures
        r == signed_spec(*expr, ctx.view()),
    decreases expr,
{
    match &expr.kind {
        ExprKind::Ident(name) => signed_contains(ctx, name.as_str()),
        ExprKind::FieldAccess(base, field) => {
            if let ExprKind::Ident(base_name) = &base.kind {
                let flat = if ctx.bus_ports.contains(base_name.as_str()) {
                    cat3(base_name.as_str(), "_", field.name.as_str())
                } else {
                    cat3(base_name.as_str(), ".", field.name.as_str())
                };
                signed_contains(ctx, flat.as_str())
            } else {
                false
            }
        },
        ExprKind::Cast(_, ty) => matches!(**ty, TypeExpr::SInt(_)),
        ExprKind::Signed(_) => true,
        ExprKind::Unsigned(_) => false,
        ExprKind::MethodCall(base, method, _) => {
            let m = method.name.as_str();
            if str_eq(m, "trunc") || str_eq(m, "sext") || str_eq(m, "resize") || str_eq(m, "reverse") {
                infer_expr_signed(base, ctx)
            } else {
                false
            }
        },
        ExprKind::Unary(op, inner) => {
            if let UnaryOp::Neg = op {
                true
            } else {
                infer_expr_signed(inner, ctx)
            }
        },
        ExprKind::Binary(op, lhs, rhs) => {
            if is_relational_or_logic_exec(*op) {
                false
            } else {
                infer_expr_signed(lhs, ctx) || infer_expr_signed(rhs, ctx)
            }
        },
        ExprKind::Ternary(_, then_expr, else_expr) => {
            infer_expr_signed(then_expr, ctx) || infer_expr_signed(else_expr, ctx)
        },
        _ => false,
    }
}

/// An optional borrowed type, by value.
pub open spec fn opt_ty(r: Option<&TypeExpr>) -> Option<TypeExpr> {
    match r {
        Some(t) => Some(*t),
        None => None,
    }
}

/// Position of the first field at or after `from` named `n`.
pub open spec fn first_field(fs: Seq<(Seq<char>, TypeExpr)>, n: Seq<char>, from: int) -> Option<int>
    decreases fs.len() - from,
{
    if from < 0 || from >= fs.len() {
        None
    } else if fs[from].0 == n {
        Some(from)
    } else {
        first_field(fs, n, from + 1)
    }
}

/// Declared type of an identifier, a Vec element select, or a struct
/// field access (a `port.signal` bus key first, then the struct's field).
pub open spec fn decl_type_spec(e: Expr, cv: CtxView) -> Option<TypeExpr>
    decreases e,
{
    match e.kind {
        ExprKind::Ident(n) => vget(cv.decl_types, n@),
        ExprKind::Index(b, _) => match decl_type_spec(*b, cv) {
            Some(TypeExpr::Vec(elem, _)) => Some(*elem),
            _ => None,
        },
        ExprKind::FieldAccess(b, f) => {
            let bus_key = match b.kind {
                ExprKind::Ident(root) => vget(cv.decl_types, root@ + "."@ + f.name@),
                _ => None,
            };
            match bus_key {
                Some(t) => Some(t),
                None => match decl_type_spec(*b, cv) {
                    Some(TypeExpr::Named(sname)) => match vget(cv.struct_defs, sname.name@) {
                        Some(fs) => match first_field(fs, f.name@, 0) {
                            Some(i) => Some(fs[i].1),
                            None => None,
                        },
                        None => None,
                    },
                    _ => None,
                },
            }
        },
        _ => None,
    }
}

proof fn lemma_first_field(fs: Seq<(Seq<char>, TypeExpr)>, n: Seq<char>, from: int)
    ensures
        first_field(fs, n, from) matches Some(i) ==> from <= i < fs.len(),
    decreases fs.len() - from,
{
    if 0 <= from < fs.len() && fs[from].0 != n {
        lemma_first_field(fs, n, from + 1);
    }
}

fn find_field<'b>(fs: &Vec<(String, &'b TypeExpr)>, n: &str) -> (r: Option<&'b TypeExpr>)
    ensures
        match first_field(crate::ctx::fields_view(*fs), n@, 0) {
            Some(i) => opt_ty(r) == Some(crate::ctx::fields_view(*fs)[i].1),
            None => r is None,
        },
{
    let ghost fv = crate::ctx::fields_view(*fs);
    let mut i: usize = 0;
    while i < fs.len()
        invariant
            i <= fs@.len(),
            fv == crate::ctx::fields_view(*fs),
            first_field(fv, n@, 0) == first_field(fv, n@, i as int),
        decreases fs@.len() - i,
    {
        if str_eq(fs[i].0.as_str(), n) {
            return Some(fs[i].1);
        }
        i = i + 1;
    }
    None
}

fn decl_get<'b>(m: Option<&NameMap<&'b TypeExpr>>, k: &str) -> (r: Option<&'b TypeExpr>)
    ensures
        opt_ty(r) == vget(
            match m {
                Some(m) => Some(m@.map_values(|t: &TypeExpr| *t)),
                None => None,
            },
            k@,
        ),
{
    match m {
        Some(mm) => match mm.get(k) {
            Some(t) => Some(*t),
            None => None,
        },
        None => None,
    }
}

/// Declared type of an lvalue-shaped expression, if known.
pub fn sim_expr_decl_type<'b>(e: &Expr, ctx: &Ctx<'b>) -> (r: Option<&'b TypeExpr>)
    ensures
        opt_ty(r) == decl_type_spec(*e, ctx.view()),
    decreases e,
{
    match &e.kind {
        ExprKind::Ident(name) => decl_get(ctx.decl_types, name.as_str()),
        ExprKind::Index(base, _) => match sim_expr_decl_type(base, ctx) {
            Some(t) => match t {
                TypeExpr::Vec(elem, _) => Some(&**elem),
                _ => None,
            },
            None => None,
        },
        ExprKind::FieldAccess(base, field) => {
            if let ExprKind::Ident(root) = &base.kind {
                let key = cat3(root.as_str(), ".", field.name.as_str());
                if let Some(t) = decl_get(ctx.decl_types, key.as_str()) {
                    return Some(t);
                }
            }
            match sim_expr_decl_type(base, ctx) {
                Some(t) => match t {
                    TypeExpr::Named(sname) => match ctx.struct_defs {
                        Some(sd) => match sd.get(sname.name.as_str()) {
                            Some(fs) => find_field(fs, field.name.as_str()),
                            None => None,
                        },
                        None => None,
                    },
                    _ => None,
                },
                None => None,
            }
        },
        _ => None,
    }
}

/// Float format of a declared type used by composite reads.
pub open spec fn type_fmt(t: Option<TypeExpr>) -> Option<FpFmt> {
    match t {
        Some(TypeExpr::FP32) => Some(FpFmt::Fp32),
        Some(TypeExpr::BF16) => Some(FpFmt::Bf16),
        Some(TypeExpr::FP8E4M3) => Some(FpFmt::E4m3),
        Some(TypeExpr::FP8E5M2) => Some(FpFmt::E5m2),
        _ => None,
    }
}

pub open spec fn or_else(a: Option<FpFmt>, b: Option<FpFmt>) -> Option<FpFmt> {
    match a {
        Some(x) => Some(x),
        None => b,
    }
}

/// Floating-point format of an expression, or `None` when it is not a
/// float.
pub open spec fn float_spec(e: Expr, cv: CtxView) -> Option<FpFmt>
    decreases e,
{
    match e.kind {
        ExprKind::Ident(n) => if cv.float_names.contains_key(n@) {
            Some(cv.float_names[n@])
        } else {
            None
        },
        ExprKind::Literal(crate::ast::LitKind::TypedFloat(fmt, _)) => match fmt {
            FloatLitFmt::Fp32 => Some(FpFmt::Fp32),
            FloatLitFmt::Bf16 => Some(FpFmt::Bf16),
            FloatLitFmt::E4m3 => Some(FpFmt::E4m3),
            FloatLitFmt::E5m2 => Some(FpFmt::E5m2),
            _ => None,
        },
        ExprKind::Cast(_, ty) => match *ty {
            TypeExpr::FP32 => Some(FpFmt::Fp32),
            TypeExpr::BF16 => Some(FpFmt::Bf16),
            TypeExpr::FP8E4M3 => Some(FpFmt::E4m3),
            TypeExpr::FP8E5M2 => Some(FpFmt::E5m2),
            _ => None,
        },
        ExprKind::MethodCall(_, m, _) => if m.name@ == "to_fp32"@ {
            Some(FpFmt::Fp32)
        } else if m.name@ == "to_bf16"@ {
            Some(FpFmt::Bf16)
        } else if m.name@ == "to_fp8e4m3"@ {
            Some(FpFmt::E4m3)
        } else if m.name@ == "to_fp8e5m2"@ {
            Some(FpFmt::E5m2)
        } else {
            None
        },
        ExprKind::Binary(op, l, r) => if op is Add || op is Sub || op is Mul {
            or_else(float_spec(*l, cv), float_spec(*r, cv))
        } else {
            None
        },
        ExprKind::Ternary(_, t, f) => or_else(float_spec(*t, cv), float_spec(*f, cv)),
        ExprKind::FunctionCall(name, args) => if name@ == "fma"@ && args@.len() > 0 {
            float_spec(args@[0], cv)
        } else {
            None
        },
        ExprKind::Index(_, _) => type_fmt(decl_type_spec(e, cv)),
        ExprKind::FieldAccess(_, _) => type_fmt(decl_type_spec(e, cv)),
        _ => None,
    }
}

/// Floating-point format of an expression.
pub fn infer_expr_float(expr: &Expr, ctx: &Ctx) -> (r: Option<FpFmt>)
    ensures
        r == float_spec(*expr, ctx.view()),
    decreases expr,
{
    match &expr.kind {
        ExprKind::Ident(name) => match ctx.float_names {
            Some(m) => match m.get(name.as_str()) {
                Some(f) => Some(*f),
                None => None,
            },
            None => None,
        },
        ExprKind::Literal(crate::ast::LitKind::TypedFloat(fmt, _)) => match fmt {
            FloatLitFmt::Fp32 => Some(FpFmt::Fp32),
            FloatLitFmt::Bf16 => Some(FpFmt::Bf16),
            FloatLitFmt::E4m3 => Some(FpFmt::E4m3),
            FloatLitFmt::E5m2 => Some(FpFmt::E5m2),
            _ => None,
        },
        ExprKind::Cast(_, ty) => match &**ty {
            TypeExpr::FP32 => Some(FpFmt::Fp32),
            TypeExpr::BF16 => Some(FpFmt::Bf16),
            TypeExpr::FP8E4M3 => Some(FpFmt::E4m3),
            TypeExpr::FP8E5M2 => Some(FpFmt::E5m2),
            _ => None,
        },
        ExprKind::MethodCall(_, method, _) => {
            let m = method.name.as_str();
            if str_eq(m, "to_fp32") {
                Some(FpFmt::Fp32)
            } else if str_eq(m, "to_bf16") {
                Some(FpFmt::Bf16)
            } else if str_eq(m, "to_fp8e4m3") {
                Some(FpFmt::E4m3)
            } else if str_eq(m, "to_fp8e5m2") {
                Some(FpFmt::E5m2)
            } else {
                None
            }
        },
        ExprKind::Binary(op, lhs, rhs) => match op {
            BinOp::Add | BinOp::Sub | BinOp::Mul => match infer_expr_float(lhs, ctx) {
                Some(f) => Some(f),
                None => infer_expr_float(rhs, ctx),
            },
            _ => None,
        },
        ExprKind::Ternary(_, then_expr, else_expr) => match infer_expr_float(then_expr, ctx) {
            Some(f) => Some(f),
            None => infer_expr_float(else_expr, ctx),
        },
        ExprKind::FunctionCall(name, args) => {
            if str_eq(name.as_str(), "fma") && args.len() > 0 {
                proof {
                    assert(decreases_to!(expr => args@[0]));
                }
                infer_expr_float(&args[0], ctx)
            } else {
                None
            }
        },
        ExprKind::Index(_, _) | ExprKind::FieldAccess(_, _) => match sim_expr_decl_type(expr, ctx) {
            Some(t) => match t {
                TypeExpr::FP32 => Some(FpFmt::Fp32),
                TypeExpr::BF16 => Some(FpFmt::Bf16),
                TypeExpr::FP8E4M3 => Some(FpFmt::E4m3),
                TypeExpr::FP8E5M2 => Some(FpFmt::E5m2),
                _ => None,
            },
            None => None,
        },
        _ => None,
    }
}

} // verus!
