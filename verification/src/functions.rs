//! `VFunctions.h`: the HDL `function` items as inline C++ functions,
//! preceded by `#define`s of the constant parameters they may read.
use vstd::prelude::*;
use crate::ast::{
    ExprKind, ForRange, FunctionArg, FunctionBodyItem, FunctionDecl, Item, ParamDecl, ParamKind,
    Pattern, TypeExpr,
};
use crate::collect::enum_variant_value;
use crate::const_eval::{const_eval, param_is_float};
use crate::ctx::{CtxView, entries_view, vget};
use crate::expr_codegen::FpFmt;
use crate::infer::eval_width_spec;
use crate::lowering::{cpp_spec, lower_ok, port_type_spec};
use crate::text::dec_str;
use crate::types::{float_fmt, signed_scalar, type_float_fmt, type_is_signed_scalar};
use crate::ctx::{Ctx, enum_map_view};
use crate::cpp_expr::{cpp_expr, cpp_expr_lhs, lemma_arms_ok};
use crate::cpp_text::{cpp_port_type_with_params, enum_index, own};
use crate::infer::eval_width;
use crate::names::{NameMap, NameSet};
use crate::text::{fmt_dec, push_str};
use crate::ast::{Expr, ExprMatchArm, ModuleBodyItem};
use crate::sim::SimModel;

verus! {

/// Names, widths and signed names of a function's arguments and locals.
pub struct LocalsView {
    pub names: Set<Seq<char>>,
    pub widths: Map<Seq<char>, u32>,
    pub signed: Set<Seq<char>>,
}

/// Width recorded for a local or argument of declared type `t`.
pub open spec fn local_width(t: Option<TypeExpr>) -> u32 {
    match t {
        Some(TypeExpr::UInt(w)) => eval_width_spec(*w),
        Some(TypeExpr::SInt(w)) => eval_width_spec(*w),
        Some(TypeExpr::Bool) | Some(TypeExpr::Bit) => 1,
        _ => 32,
    }
}

/// Whether an optional declared type is a signed scalar.
pub open spec fn opt_signed(t: Option<TypeExpr>) -> bool {
    match t {
        Some(t) => signed_scalar(t),
        None => false,
    }
}

/// The locals of a function body in source order: `let`s with their
/// declared widths (32 unknown) and signedness, `for` variables as 32-bit,
/// through nested `if` and `for` bodies.
pub open spec fn locals_fold(items: Seq<FunctionBodyItem>, st: LocalsView) -> LocalsView
    decreases items,
{
    if items.len() == 0 {
        st
    } else {
        local_item(items.last(), locals_fold(items.drop_last(), st))
    }
}

pub open spec fn local_item(it: FunctionBodyItem, st: LocalsView) -> LocalsView
    decreases it,
{
    match it {
        FunctionBodyItem::Let(l) => LocalsView {
            names: st.names.insert(l.name.name@),
            widths: st.widths.insert(l.name.name@, local_width(l.ty)),
            signed: if opt_signed(l.ty) {
                st.signed.insert(l.name.name@)
            } else {
                st.signed
            },
        },
        FunctionBodyItem::For(fl) => locals_fold(
            fl.body@,
            LocalsView {
                names: st.names.insert(fl.var.name@),
                widths: st.widths.insert(fl.var.name@, 32),
                signed: st.signed,
            },
        ),
        FunctionBodyItem::IfElse(ie) => locals_fold(ie.else_body@, locals_fold(ie.then_body@, st)),
        _ => st,
    }
}

/// The arguments as locals.
pub open spec fn args_fold(args: Seq<FunctionArg>) -> LocalsView
    decreases args.len(),
{
    if args.len() == 0 {
        LocalsView { names: Set::empty(), widths: Map::empty(), signed: Set::empty() }
    } else {
        let st = args_fold(args.drop_last());
        let a = args.last();
        LocalsView {
            names: st.names.insert(a.name.name@),
            widths: st.widths.insert(a.name.name@, local_width(Some(a.ty))),
            signed: if signed_scalar(a.ty) {
                st.signed.insert(a.name.name@)
            } else {
                st.signed
            },
        }
    }
}

/// Float formats of the float-typed `let`s of a body.
pub open spec fn float_lets(items: Seq<FunctionBodyItem>, m: Map<Seq<char>, FpFmt>) -> Map<
    Seq<char>,
    FpFmt,
>
    decreases items,
{
    if items.len() == 0 {
        m
    } else {
        float_let_item(items.last(), float_lets(items.drop_last(), m))
    }
}

pub open spec fn float_let_item(it: FunctionBodyItem, m: Map<Seq<char>, FpFmt>) -> Map<
    Seq<char>,
    FpFmt,
>
    decreases it,
{
    match it {
        FunctionBodyItem::Let(l) => match l.ty {
            Some(t) => match float_fmt(t) {
                Some(f) => m.insert(l.name.name@, f),
                None => m,
            },
            None => m,
        },
        FunctionBodyItem::IfElse(ie) => float_lets(ie.else_body@, float_lets(ie.then_body@, m)),
        FunctionBodyItem::For(fl) => float_lets(fl.body@, m),
        _ => m,
    }
}

/// Float formats of the float-typed arguments.
pub open spec fn float_args(args: Seq<FunctionArg>) -> Map<Seq<char>, FpFmt>
    decreases args.len(),
{
    if args.len() == 0 {
        Map::empty()
    } else {
        let m = float_args(args.drop_last());
        match float_fmt(args.last().ty) {
            Some(f) => m.insert(args.last().name.name@, f),
            None => m,
        }
    }
}

/// The lowering context of a function body: arguments and locals read as
/// bare names, their widths, signedness and float formats, no loop
/// variable bound.
pub open spec fn fn_cv(f: FunctionDecl, em: Map<Seq<char>, Seq<(Seq<char>, u64)>>) -> CtxView {
    let loc = locals_fold(f.body@, args_fold(f.args@));
    CtxView {
        reg_names: Set::empty(),
        port_names: loc.names,
        let_names: Set::empty(),
        let_values: None,
        inst_names: Set::empty(),
        wide_names: Set::empty(),
        widths: loc.widths,
        signed_names: loc.signed,
        float_names: float_lets(f.body@, float_args(f.args@)),
        posedge_lhs: false,
        fsm_mode: false,
        enum_map: em,
        bus_ports: Set::empty(),
        reset_levels: Map::empty(),
        vec_names: None,
        vec_2d_names: None,
        vec_sizes: None,
        fsm_vec_port_regs: None,
        ident_subst: None,
        loop_var_subst: Some(Map::empty()),
        vec_of_bus_port_count: None,
        vec_of_bus_wire_count: None,
        params: Seq::empty(),
        decl_types: None,
        struct_defs: None,
        vinit_regs: None,
    }
}

/// C++ type of a local's declared type (`uint32_t` without one).
pub open spec fn local_type(t: Option<TypeExpr>) -> Seq<char> {
    match t {
        Some(t) => port_type_spec(t, Seq::empty()),
        None => "uint32_t"@,
    }
}

/// Nested function-body items at `indent`.
pub open spec fn fn_items_text(items: Seq<FunctionBodyItem>, cv: CtxView, indent: Seq<char>) -> Seq<
    char,
>
    decreases items,
{
    if items.len() == 0 {
        Seq::empty()
    } else {
        fn_items_text(items.drop_last(), cv, indent) + fn_item_text(items.last(), cv, indent)
    }
}

/// One nested function-body item at `indent`.
pub open spec fn fn_item_text(it: FunctionBodyItem, cv: CtxView, indent: Seq<char>) -> Seq<char>
    decreases it,
{
    let inner = indent + "  "@;
    match it {
        FunctionBodyItem::Let(l) => indent + local_type(l.ty) + " "@ + l.name.name@ + " = "@
            + cpp_spec(l.value, cv, false) + ";\n"@,
        FunctionBodyItem::Return(e) => indent + "return "@ + cpp_spec(e, cv, false) + ";\n"@,
        FunctionBodyItem::IfElse(ie) => indent + "if ("@ + cpp_spec(ie.cond, cv, false) + ") {\n"@
            + fn_items_text(ie.then_body@, cv, inner) + indent + "}"@ + if ie.else_body@.len()
            > 0 {
            " else {\n"@ + fn_items_text(ie.else_body@, cv, inner) + indent + "}\n"@
        } else {
            "\n"@
        },
        FunctionBodyItem::For(fl) => {
            let var = fl.var.name@;
            let body = fn_items_text(fl.body@, cv, inner);
            match fl.range {
                ForRange::Range(lo, hi) => indent + "for (int "@ + var + " = "@ + cpp_spec(
                    lo,
                    cv,
                    false,
                ) + "; "@ + var + " <= "@ + cpp_spec(hi, cv, false) + "; "@ + var + "++) {\n"@
                    + body + indent + "}\n"@,
                ForRange::ValueList(vals) => value_blocks(vals@, cv, var, body, indent),
            }
        },
        FunctionBodyItem::Assign(a) => indent + cpp_spec(a.target, cv, true) + " = "@ + cpp_spec(
            a.value,
            cv,
            false,
        ) + ";\n"@,
    }
}

/// One `{ int var = v; body }` block per value of a value-list loop.
pub open spec fn value_blocks(
    vals: Seq<crate::ast::Expr>,
    cv: CtxView,
    var: Seq<char>,
    body: Seq<char>,
    indent: Seq<char>,
) -> Seq<char>
    decreases vals.len(),
{
    if vals.len() == 0 {
        Seq::empty()
    } else {
        value_blocks(vals.drop_last(), cv, var, body, indent) + indent + "{\n"@ + indent + "  int "@
            + var + " = "@ + cpp_spec(vals.last(), cv, false) + ";\n"@ + body + indent + "}\n"@
    }
}

/// One `case` of a returned match emitted as a `switch`.
pub open spec fn switch_case(arm: crate::ast::ExprMatchArm, cv: CtxView) -> Seq<char> {
    let val = cpp_spec(arm.value, cv, false);
    match arm.pattern {
        Pattern::Wildcard | Pattern::Ident(_) => "    default: return "@ + val + ";\n"@,
        Pattern::Literal(le) => "    case "@ + cpp_spec(le, cv, false) + ": return "@ + val
            + ";\n"@,
        Pattern::EnumVariant(en, vr) => if cv.enum_map.contains_key(en.name@) {
            let idx = match enum_variant_value(cv.enum_map, en.name@, vr.name@) {
                Some(v) => v as nat,
                None => 0,
            };
            "    case "@ + dec_str(idx) + ": return "@ + val + ";\n"@
        } else {
            Seq::empty()
        },
    }
}

pub open spec fn switch_cases(arms: Seq<crate::ast::ExprMatchArm>, cv: CtxView) -> Seq<char>
    decreases arms.len(),
{
    if arms.len() == 0 {
        Seq::empty()
    } else {
        switch_cases(arms.drop_last(), cv) + switch_case(arms.last(), cv)
    }
}

/// A top-level body item: as nested at two spaces, except that a returned
/// match becomes a `switch` with a zero fallback.
pub open spec fn top_item_text(it: FunctionBodyItem, cv: CtxView, ret: Seq<char>) -> Seq<char> {
    match it {
        FunctionBodyItem::Return(e) => match e.kind {
            ExprKind::ExprMatch(s, arms) => "  switch ("@ + cpp_spec(*s, cv, false) + ") {\n"@
                + switch_cases(arms@, cv) + "  }\n"@ + "  return ("@ + ret + ")0;\n"@,
            _ => fn_item_text(it, cv, "  "@),
        },
        _ => fn_item_text(it, cv, "  "@),
    }
}

pub open spec fn top_items_text(items: Seq<FunctionBodyItem>, cv: CtxView, ret: Seq<char>) -> Seq<
    char,
>
    decreases items.len(),
{
    if items.len() == 0 {
        Seq::empty()
    } else {
        top_items_text(items.drop_last(), cv, ret) + top_item_text(items.last(), cv, ret)
    }
}

/// `<type> <name>` of each argument, joined with `, `.
pub open spec fn args_text(args: Seq<FunctionArg>) -> Seq<char>
    decreases args.len(),
{
    if args.len() == 0 {
        Seq::empty()
    } else if args.len() == 1 {
        port_type_spec(args[0].ty, Seq::empty()) + " "@ + args[0].name.name@
    } else {
        args_text(args.drop_last()) + ", "@ + port_type_spec(args.last().ty, Seq::empty()) + " "@
            + args.last().name.name@
    }
}

/// An inline C++ function.
pub open spec fn function_text(f: FunctionDecl, em: Map<Seq<char>, Seq<(Seq<char>, u64)>>) -> Seq<
    char,
> {
    let ret = port_type_spec(f.ret_ty, Seq::empty());
    "inline "@ + ret + " "@ + f.name.name@ + "("@ + args_text(f.args@) + ") {\n"@ + top_items_text(
        f.body@,
        fn_cv(f, em),
        ret,
    ) + "}\n\n"@
}

/// Every expression that nested emission lowers is lowerable.
pub open spec fn fn_items_ok(items: Seq<FunctionBodyItem>, cv: CtxView) -> bool
    decreases items,
{
    items.len() == 0 || (fn_items_ok(items.drop_last(), cv) && fn_item_ok(items.last(), cv))
}

pub open spec fn fn_item_ok(it: FunctionBodyItem, cv: CtxView) -> bool
    decreases it,
{
    match it {
        FunctionBodyItem::Let(l) => lower_ok(l.value, cv, false),
        FunctionBodyItem::Return(e) => lower_ok(e, cv, false),
        FunctionBodyItem::IfElse(ie) => lower_ok(ie.cond, cv, false) && fn_items_ok(
            ie.then_body@,
            cv,
        ) && fn_items_ok(ie.else_body@, cv),
        FunctionBodyItem::For(fl) => match fl.range {
            ForRange::Range(lo, hi) => lower_ok(lo, cv, false) && lower_ok(hi, cv, false)
                && fn_items_ok(fl.body@, cv),
            ForRange::ValueList(vals) => (forall|i: int|
                0 <= i < vals@.len() ==> lower_ok(#[trigger] vals@[i], cv, false)) && (vals@.len()
                > 0 ==> fn_items_ok(fl.body@, cv)),
        },
        FunctionBodyItem::Assign(a) => lower_ok(a.target, cv, true) && lower_ok(a.value, cv, false),
    }
}

/// Every expression of the function's body lowers in its context.
pub open spec fn function_ok(f: FunctionDecl, em: Map<Seq<char>, Seq<(Seq<char>, u64)>>) -> bool {
    fn_items_ok(f.body@, fn_cv(f, em))
}

/// Each parameter of a list with the list it is declared in.
pub open spec fn with_ctx(ps: Seq<ParamDecl>) -> Seq<(ParamDecl, Seq<ParamDecl>)> {
    ps.map_values(|p: ParamDecl| (p, ps))
}

/// Views of a list of strings.
pub open spec fn strs_view(v: Seq<String>) -> Seq<Seq<char>> {
    v.map_values(|s: String| s@)
}

/// The declarations behind a list of references.
pub open spec fn decls_view(v: Seq<&FunctionDecl>) -> Seq<FunctionDecl> {
    v.map_values(|f: &FunctionDecl| *f)
}

/// The parameters whose `#define`s `VFunctions.h` may hold: those of
/// packages and modules in source order, each with its declaring list.
pub open spec fn define_candidates(items: Seq<Item>) -> Seq<(ParamDecl, Seq<ParamDecl>)>
    decreases items.len(),
{
    if items.len() == 0 {
        Seq::empty()
    } else {
        let rest = define_candidates(items.drop_last());
        match items.last() {
            Item::Package(pkg) => rest + with_ctx(pkg.params@),
            Item::Module(m) => rest + with_ctx(m.params@),
            _ => rest,
        }
    }
}

/// Value of a constant parameter's `#define`: the folded default of an
/// integer parameter (none when it does not fold), the given bit pattern of
/// a float parameter; none without a default.
pub open spec fn define_value(
    p: ParamDecl,
    params: Seq<ParamDecl>,
    fp: Map<Seq<char>, Option<u64>>,
) -> Option<u64> {
    match p.kind {
        ParamKind::Const | ParamKind::WidthConst(_, _) | ParamKind::Logic(_) => match p.default {
            None => None,
            Some(d) => if param_is_float(p) {
                match vget(Some(fp), p.name.name@) {
                    Some(v) => v,
                    None => None,
                }
            } else {
                const_eval(d, params, Set::empty())
            },
        },
        _ => None,
    }
}

/// A guarded `#define` of a parameter.
pub open spec fn define_text(name: Seq<char>, v: u64) -> Seq<char> {
    "#ifndef "@ + name + "\n#define "@ + name + " "@ + dec_str(v as nat)
        + "ULL\n#define ARCH_SIM_VFUNCTIONS_DEFINED_"@ + name + "\n#endif\n"@
}

/// The `#define` block over the candidates (the first parameter of each
/// name decides), the names seen, and the names defined.
pub open spec fn defines(ps: Seq<(ParamDecl, Seq<ParamDecl>)>, fp: Map<Seq<char>, Option<u64>>) -> (
    Seq<char>,
    Set<Seq<char>>,
    Seq<Seq<char>>,
)
    decreases ps.len(),
{
    if ps.len() == 0 {
        (Seq::empty(), Set::empty(), Seq::empty())
    } else {
        let (t, seen, ms) = defines(ps.drop_last(), fp);
        let p = ps.last().0;
        let n = p.name.name@;
        if seen.contains(n) {
            (t, seen, ms)
        } else {
            match define_value(p, ps.last().1, fp) {
                Some(v) => (t + define_text(n, v), seen.insert(n), ms.push(n)),
                None => (t, seen.insert(n), ms),
            }
        }
    }
}

/// The `#undef` of a parameter defined for the functions.
pub open spec fn undef_text(name: Seq<char>) -> Seq<char> {
    "#ifdef ARCH_SIM_VFUNCTIONS_DEFINED_"@ + name + "\n#undef "@ + name
        + "\n#undef ARCH_SIM_VFUNCTIONS_DEFINED_"@ + name + "\n#endif\n"@
}

pub open spec fn undefs_text(names: Seq<Seq<char>>) -> Seq<char>
    decreases names.len(),
{
    if names.len() == 0 {
        Seq::empty()
    } else {
        undefs_text(names.drop_last()) + undef_text(names.last())
    }
}

pub open spec fn functions_text(
    fns: Seq<FunctionDecl>,
    em: Map<Seq<char>, Seq<(Seq<char>, u64)>>,
) -> Seq<char>
    decreases fns.len(),
{
    if fns.len() == 0 {
        Seq::empty()
    } else {
        functions_text(fns.drop_last(), em) + function_text(fns.last(), em)
    }
}

/// The whole `VFunctions.h`.
pub open spec fn vfunctions_header(
    items: Seq<Item>,
    fns: Seq<FunctionDecl>,
    em: Map<Seq<char>, Seq<(Seq<char>, u64)>>,
    fp: Map<Seq<char>, Option<u64>>,
) -> Seq<char> {
    let (defs, _, macros) = defines(define_candidates(items), fp);
    "#pragma once\n#include \"verilated.h\"\n\n"@ + defs + "\n"@ + functions_text(fns, em)
        + undefs_text(macros)
}


// ------------------------------------------------------------- exec

fn local_width_exec(t: Option<&TypeExpr>) -> (r: u32)
    ensures
        r == local_width(
            match t {
                Some(t) => Some(*t),
                None => None,
            },
        ),
{
    match t {
        Some(TypeExpr::UInt(w)) => eval_width(w),
        Some(TypeExpr::SInt(w)) => eval_width(w),
        Some(TypeExpr::Bool) | Some(TypeExpr::Bit) => 1,
        _ => 32,
    }
}

/// Record the locals of `items` (see [`locals_fold`]).
fn collect_function_locals(
    items: &Vec<FunctionBodyItem>,
    names: &mut NameSet,
    widths: &mut NameMap<u32>,
    signed: &mut NameSet,
)
    ensures
        locals_fold(
            items@,
            LocalsView { names: old(names)@, widths: old(widths)@, signed: old(signed)@ },
        ) == (LocalsView { names: final(names)@, widths: final(widths)@, signed: final(signed)@ }),
    decreases items, 0int,
{
    let ghost st0 = LocalsView { names: names@, widths: widths@, signed: signed@ };
    let mut i: usize = 0;
    while i < items.len()
        invariant
            i <= items@.len(),
            locals_fold(items@.take(i as int), st0) == (LocalsView {
                names: names@,
                widths: widths@,
                signed: signed@,
            }),
        decreases items@.len() - i,
    {
        proof {
            assert(decreases_to!(items => items@[i as int]));
            assert(items@.take(i + 1).drop_last() =~= items@.take(i as int));
        }
        collect_local_item(&items[i], names, widths, signed);
        i = i + 1;
    }
    proof {
        assert(items@.take(items@.len() as int) =~= items@);
    }
}

fn collect_local_item(
    it: &FunctionBodyItem,
    names: &mut NameSet,
    widths: &mut NameMap<u32>,
    signed: &mut NameSet,
)
    ensures
        local_item(
            *it,
            LocalsView { names: old(names)@, widths: old(widths)@, signed: old(signed)@ },
        ) == (LocalsView { names: final(names)@, widths: final(widths)@, signed: final(signed)@ }),
    decreases it, 1int,
{
    match it {
        FunctionBodyItem::Let(l) => {
            names.insert(l.name.name.clone());
            let w = local_width_exec(
                match &l.ty {
                    Some(t) => Some(t),
                    None => None,
                },
            );
            widths.insert(l.name.name.clone(), w);
            let sg = match &l.ty {
                Some(t) => type_is_signed_scalar(t),
                None => false,
            };
            if sg {
                signed.insert(l.name.name.clone());
            }
        },
        FunctionBodyItem::For(fl) => {
            names.insert(fl.var.name.clone());
            widths.insert(fl.var.name.clone(), 32);
            collect_function_locals(&fl.body, names, widths, signed);
        },
        FunctionBodyItem::IfElse(ie) => {
            collect_function_locals(&ie.then_body, names, widths, signed);
            collect_function_locals(&ie.else_body, names, widths, signed);
        },
        _ => {},
    }
}

/// Record the float-typed `let`s of `items` (see [`float_lets`]).
fn collect_fn_float_lets(items: &Vec<FunctionBodyItem>, out: &mut NameMap<FpFmt>)
    ensures
        final(out)@ == float_lets(items@, old(out)@),
    decreases items, 0int,
{
    let ghost m0 = out@;
    let mut i: usize = 0;
    while i < items.len()
        invariant
            i <= items@.len(),
            out@ == float_lets(items@.take(i as int), m0),
        decreases items@.len() - i,
    {
        proof {
            assert(decreases_to!(items => items@[i as int]));
            assert(items@.take(i + 1).drop_last() =~= items@.take(i as int));
        }
        collect_float_let_item(&items[i], out);
        i = i + 1;
    }
    proof {
        assert(items@.take(items@.len() as int) =~= items@);
    }
}

fn collect_float_let_item(it: &FunctionBodyItem, out: &mut NameMap<FpFmt>)
    ensures
        final(out)@ == float_let_item(*it, old(out)@),
    decreases it, 1int,
{
    match it {
        FunctionBodyItem::Let(l) => {
            if let Some(t) = &l.ty {
                if let Some(f) = type_float_fmt(t) {
                    out.insert(l.name.name.clone(), f);
                }
            }
        },
        FunctionBodyItem::IfElse(ie) => {
            collect_fn_float_lets(&ie.then_body, out);
            collect_fn_float_lets(&ie.else_body, out);
        },
        FunctionBodyItem::For(fl) => collect_fn_float_lets(&fl.body, out),
        _ => {},
    }
}

proof fn lemma_fn_items_ok(items: Seq<FunctionBodyItem>, cv: CtxView, i: int)
    requires
        fn_items_ok(items, cv),
        0 <= i < items.len(),
    ensures
        fn_item_ok(items[i], cv),
    decreases items.len(),
{
    if i < items.len() - 1 {
        lemma_fn_items_ok(items.drop_last(), cv, i);
    }
}

/// Append nested function-body items at `indent` (see [`fn_items_text`]).
fn emit_fn_items(items: &Vec<FunctionBodyItem>, ctx: &Ctx, indent: &str, out: &mut String)
    requires
        fn_items_ok(items@, ctx.view()),
    ensures
        final(out)@ == old(out)@ + fn_items_text(items@, ctx.view(), indent@),
    decreases items, 0int,
{
    let ghost o = out@;
    let mut i: usize = 0;
    while i < items.len()
        invariant
            i <= items@.len(),
            fn_items_ok(items@, ctx.view()),
            out@ == o + fn_items_text(items@.take(i as int), ctx.view(), indent@),
        decreases items@.len() - i,
    {
        proof {
            assert(decreases_to!(items => items@[i as int]));
            assert(items@.take(i + 1).drop_last() =~= items@.take(i as int));
            lemma_fn_items_ok(items@, ctx.view(), i as int);
        }
        emit_fn_item(&items[i], ctx, indent, out);
        i = i + 1;
    }
    proof {
        assert(items@.take(items@.len() as int) =~= items@);
    }
}

fn emit_fn_item(it: &FunctionBodyItem, ctx: &Ctx, indent: &str, out: &mut String)
    requires
        fn_item_ok(*it, ctx.view()),
    ensures
        final(out)@ == old(out)@ + fn_item_text(*it, ctx.view(), indent@),
    decreases it, 1int,
{
    let mut inner = own(indent);
    push_str(&mut inner, "  ");
    match it {
        FunctionBodyItem::Let(l) => {
            let no_params: Vec<ParamDecl> = Vec::new();
            let ty = match &l.ty {
                Some(t) => cpp_port_type_with_params(t, no_params.as_slice()),
                None => own("uint32_t"),
            };
            let val = cpp_expr(&l.value, ctx);
            push_str(out, indent);
            push_str(out, ty.as_str());
            push_str(out, " ");
            push_str(out, l.name.name.as_str());
            push_str(out, " = ");
            push_str(out, val.as_str());
            push_str(out, ";\n");
        },
        FunctionBodyItem::Return(e) => {
            let val = cpp_expr(e, ctx);
            push_str(out, indent);
            push_str(out, "return ");
            push_str(out, val.as_str());
            push_str(out, ";\n");
        },
        FunctionBodyItem::IfElse(ie) => emit_fn_if(ie, ctx, indent, inner.as_str(), out),
        FunctionBodyItem::For(fl) => match &fl.range {
            ForRange::Range(lo, hi) => emit_fn_for_range(fl, lo, hi, ctx, indent, inner.as_str(), out),
            ForRange::ValueList(vals) => emit_fn_for_values(fl, vals, ctx, indent, inner.as_str(), out),
        },
        FunctionBodyItem::Assign(a) => {
            let target = cpp_expr_lhs(&a.target, ctx);
            let val = cpp_expr(&a.value, ctx);
            push_str(out, indent);
            push_str(out, target.as_str());
            push_str(out, " = ");
            push_str(out, val.as_str());
            push_str(out, ";\n");
        },
    }
}

fn emit_fn_if(ie: &crate::ast::FnIfElse, ctx: &Ctx, indent: &str, inner: &str, out: &mut String)
    requires
        lower_ok(ie.cond, ctx.view(), false),
        fn_items_ok(ie.then_body@, ctx.view()),
        fn_items_ok(ie.else_body@, ctx.view()),
        inner@ == indent@ + "  "@,
    ensures
        final(out)@ == old(out)@ + fn_item_text(FunctionBodyItem::IfElse(*ie), ctx.view(), indent@),
    decreases ie, 2int,
{
    let cond = cpp_expr(&ie.cond, ctx);
    push_str(out, indent);
    push_str(out, "if (");
    push_str(out, cond.as_str());
    push_str(out, ") {\n");
    emit_fn_items(&ie.then_body, ctx, inner, out);
    push_str(out, indent);
    push_str(out, "}");
    if ie.else_body.len() > 0 {
        push_str(out, " else {\n");
        emit_fn_items(&ie.else_body, ctx, inner, out);
        push_str(out, indent);
        push_str(out, "}\n");
    } else {
        push_str(out, "\n");
    }
}

fn emit_fn_for_range(
    fl: &crate::ast::FnFor,
    lo: &Expr,
    hi: &Expr,
    ctx: &Ctx,
    indent: &str,
    inner: &str,
    out: &mut String,
)
    requires
        fl.range == ForRange::Range(*lo, *hi),
        lower_ok(*lo, ctx.view(), false),
        lower_ok(*hi, ctx.view(), false),
        fn_items_ok(fl.body@, ctx.view()),
        inner@ == indent@ + "  "@,
    ensures
        final(out)@ == old(out)@ + fn_item_text(FunctionBodyItem::For(*fl), ctx.view(), indent@),
    decreases fl, 2int,
{
    let var = fl.var.name.as_str();
    let lo_s = cpp_expr(lo, ctx);
    let hi_s = cpp_expr(hi, ctx);
    push_str(out, indent);
    push_str(out, "for (int ");
    push_str(out, var);
    push_str(out, " = ");
    push_str(out, lo_s.as_str());
    push_str(out, "; ");
    push_str(out, var);
    push_str(out, " <= ");
    push_str(out, hi_s.as_str());
    push_str(out, "; ");
    push_str(out, var);
    push_str(out, "++) {\n");
    emit_fn_items(&fl.body, ctx, inner, out);
    push_str(out, indent);
    push_str(out, "}\n");
}

fn emit_fn_for_values(
    fl: &crate::ast::FnFor,
    vals: &Vec<Expr>,
    ctx: &Ctx,
    indent: &str,
    inner: &str,
    out: &mut String,
)
    requires
        fl.range == ForRange::ValueList(*vals),
        forall|i: int| 0 <= i < vals@.len() ==> lower_ok(#[trigger] vals@[i], ctx.view(), false),
        vals@.len() > 0 ==> fn_items_ok(fl.body@, ctx.view()),
        inner@ == indent@ + "  "@,
    ensures
        final(out)@ == old(out)@ + fn_item_text(FunctionBodyItem::For(*fl), ctx.view(), indent@),
    decreases fl, 2int,
{
    let ghost o = out@;
    let ghost body = fn_items_text(fl.body@, ctx.view(), inner@);
    let var = fl.var.name.as_str();
    let mut k: usize = 0;
    while k < vals.len()
        invariant
            k <= vals@.len(),
            forall|i: int| 0 <= i < vals@.len() ==> lower_ok(#[trigger] vals@[i], ctx.view(), false),
            vals@.len() > 0 ==> fn_items_ok(fl.body@, ctx.view()),
            body == fn_items_text(fl.body@, ctx.view(), inner@),
            out@ == o + value_blocks(vals@.take(k as int), ctx.view(), var@, body, indent@),
        decreases vals@.len() - k,
    {
        proof {
            assert(vals@.take(k + 1).drop_last() =~= vals@.take(k as int));
        }
        let v = cpp_expr(&vals[k], ctx);
        push_str(out, indent);
        push_str(out, "{\n");
        push_str(out, indent);
        push_str(out, "  int ");
        push_str(out, var);
        push_str(out, " = ");
        push_str(out, v.as_str());
        push_str(out, ";\n");
        emit_fn_items(&fl.body, ctx, inner, out);
        push_str(out, indent);
        push_str(out, "}\n");
        k = k + 1;
    }
    proof {
        assert(vals@.take(vals@.len() as int) =~= vals@);
    }
}

/// One `case` of a returned match.
fn switch_case_cpp(arm: &ExprMatchArm, ctx: &Ctx) -> (r: String)
    requires
        lower_ok(arm.value, ctx.view(), false),
        arm.pattern matches Pattern::Literal(pe) ==> lower_ok(pe, ctx.view(), false),
    ensures
        r@ == switch_case(*arm, ctx.view()),
{
    let val = cpp_expr(&arm.value, ctx);
    match &arm.pattern {
        Pattern::Wildcard | Pattern::Ident(_) => {
            let mut out = own("    default: return ");
            push_str(&mut out, val.as_str());
            push_str(&mut out, ";\n");
            out
        },
        Pattern::Literal(le) => {
            let pat = cpp_expr(le, ctx);
            let mut out = own("    case ");
            push_str(&mut out, pat.as_str());
            push_str(&mut out, ": return ");
            push_str(&mut out, val.as_str());
            push_str(&mut out, ";\n");
            out
        },
        Pattern::EnumVariant(en, vr) => {
            match enum_index(ctx, en.name.as_str(), vr.name.as_str()) {
                Some(idx) => {
                    let mut out = own("    case ");
                    push_str(&mut out, fmt_dec(idx).as_str());
                    push_str(&mut out, ": return ");
                    push_str(&mut out, val.as_str());
                    push_str(&mut out, ";\n");
                    out
                },
                None => String::new(),
            }
        },
    }
}

/// Append the `switch` form of a returned match.
fn emit_switch(
    s_expr: &Expr,
    arms: &Vec<ExprMatchArm>,
    ctx: &Ctx,
    ret: &str,
    out: &mut String,
)
    requires
        lower_ok(*s_expr, ctx.view(), false),
        crate::lowering::arms_ok(arms@, ctx.view()),
    ensures
        final(out)@ == old(out)@ + "  switch ("@ + cpp_spec(*s_expr, ctx.view(), false) + ") {\n"@
            + switch_cases(arms@, ctx.view()) + "  }\n"@ + "  return ("@ + ret@ + ")0;\n"@,
{
    let ghost o = out@;
    let ghost cv = ctx.view();
    let sc = cpp_expr(s_expr, ctx);
    push_str(out, "  switch (");
    push_str(out, sc.as_str());
    push_str(out, ") {\n");
    let ghost o2 = out@;
    let mut i: usize = 0;
    while i < arms.len()
        invariant
            i <= arms@.len(),
            cv == ctx.view(),
            crate::lowering::arms_ok(arms@, cv),
            out@ == o2 + switch_cases(arms@.take(i as int), cv),
        decreases arms@.len() - i,
    {
        proof {
            lemma_arms_ok(arms@, cv, i as int);
            assert(arms@.take(i + 1).drop_last() =~= arms@.take(i as int));
        }
        let c = switch_case_cpp(&arms[i], ctx);
        push_str(out, c.as_str());
        i = i + 1;
    }
    proof {
        assert(arms@.take(arms@.len() as int) =~= arms@);
    }
    push_str(out, "  }\n");
    push_str(out, "  return (");
    push_str(out, ret);
    push_str(out, ")0;\n");
}

/// Append one top-level body item of a function.
fn emit_top_item(it: &FunctionBodyItem, ctx: &Ctx, ret: &str, out: &mut String)
    requires
        fn_item_ok(*it, ctx.view()),
    ensures
        final(out)@ == old(out)@ + top_item_text(*it, ctx.view(), ret@),
{
    match it {
        FunctionBodyItem::Return(e) => match &e.kind {
            ExprKind::ExprMatch(scrut, arms) => emit_switch(scrut, arms, ctx, ret, out),
            _ => emit_fn_item(it, ctx, "  ", out),
        },
        _ => emit_fn_item(it, ctx, "  ", out),
    }
}

/// Append the top-level body items of a function.
fn emit_top_items(items: &Vec<FunctionBodyItem>, ctx: &Ctx, ret: &str, out: &mut String)
    requires
        fn_items_ok(items@, ctx.view()),
    ensures
        final(out)@ == old(out)@ + top_items_text(items@, ctx.view(), ret@),
{
    let ghost o = out@;
    let ghost cv = ctx.view();
    let mut i: usize = 0;
    while i < items.len()
        invariant
            i <= items@.len(),
            cv == ctx.view(),
            fn_items_ok(items@, cv),
            out@ == o + top_items_text(items@.take(i as int), cv, ret@),
        decreases items@.len() - i,
    {
        proof {
            lemma_fn_items_ok(items@, cv, i as int);
            assert(items@.take(i + 1).drop_last() =~= items@.take(i as int));
        }
        emit_top_item(&items[i], ctx, ret, out);
        i = i + 1;
    }
    proof {
        assert(items@.take(items@.len() as int) =~= items@);
    }
}

/// `<type> <name>, ...` of the arguments.
fn emit_args(args: &Vec<FunctionArg>) -> (r: String)
    ensures
        r@ == args_text(args@),
{
    let no_params: Vec<ParamDecl> = Vec::new();
    let mut s = String::new();
    let mut i: usize = 0;
    while i < args.len()
        invariant
            i <= args@.len(),
            no_params@ == Seq::<ParamDecl>::empty(),
            s@ == args_text(args@.take(i as int)),
        decreases args@.len() - i,
    {
        proof {
            assert(args@.take(i + 1).drop_last() =~= args@.take(i as int));
        }
        if i > 0 {
            push_str(&mut s, ", ");
        }
        push_str(&mut s, cpp_port_type_with_params(&args[i].ty, no_params.as_slice()).as_str());
        push_str(&mut s, " ");
        push_str(&mut s, args[i].name.name.as_str());
        i = i + 1;
    }
    proof {
        assert(args@.take(args@.len() as int) =~= args@);
    }
    s
}

/// The locals view and float formats of a function.
fn function_locals(f: &FunctionDecl) -> (r: (NameSet, NameMap<u32>, NameSet, NameMap<FpFmt>))
    ensures
        locals_fold(f.body@, args_fold(f.args@)) == (LocalsView {
            names: r.0@,
            widths: r.1@,
            signed: r.2@,
        }),
        r.3@ == float_lets(f.body@, float_args(f.args@)),
{
    let mut names = NameSet::new();
    let mut widths: NameMap<u32> = NameMap::new();
    let mut signed = NameSet::new();
    let mut floats: NameMap<FpFmt> = NameMap::new();
    let mut i: usize = 0;
    while i < f.args.len()
        invariant
            i <= f.args@.len(),
            args_fold(f.args@.take(i as int)) == (LocalsView {
                names: names@,
                widths: widths@,
                signed: signed@,
            }),
            floats@ == float_args(f.args@.take(i as int)),
        decreases f.args@.len() - i,
    {
        proof {
            assert(f.args@.take(i + 1).drop_last() =~= f.args@.take(i as int));
        }
        let a = &f.args[i];
        names.insert(a.name.name.clone());
        let w = local_width_exec(Some(&a.ty));
        widths.insert(a.name.name.clone(), w);
        if type_is_signed_scalar(&a.ty) {
            signed.insert(a.name.name.clone());
        }
        if let Some(fmt) = type_float_fmt(&a.ty) {
            floats.insert(a.name.name.clone(), fmt);
        }
        i = i + 1;
    }
    proof {
        assert(f.args@.take(f.args@.len() as int) =~= f.args@);
    }
    collect_fn_float_lets(&f.body, &mut floats);
    collect_function_locals(&f.body, &mut names, &mut widths, &mut signed);
    (names, widths, signed, floats)
}

/// The inline C++ function of an HDL function.
fn function_cpp(f: &FunctionDecl, em: &NameMap<Vec<(String, u64)>>) -> (r: String)
    requires
        function_ok(*f, enum_map_view(em)),
    ensures
        r@ == function_text(*f, enum_map_view(em)),
{
    let no_params: Vec<ParamDecl> = Vec::new();
    let ret_ty = cpp_port_type_with_params(&f.ret_ty, no_params.as_slice());
    let mut h = own("inline ");
    push_str(&mut h, ret_ty.as_str());
    push_str(&mut h, " ");
    push_str(&mut h, f.name.name.as_str());
    push_str(&mut h, "(");
    push_str(&mut h, emit_args(&f.args).as_str());
    push_str(&mut h, ") {\n");
    let (names, widths, signed, floats) = function_locals(f);
    let empty = NameSet::new();
    let no_subst: NameMap<u32> = NameMap::new();
    let ctx = Ctx::new(
        &empty,
        &names,
        &empty,
        &empty,
        &empty,
        &widths,
        em,
        &empty,
        no_params.as_slice(),
    ).with_signed_names(&signed).with_float_names(&floats);
    let ctx = Ctx { loop_var_subst: Some(&no_subst), ..ctx };
    proof {
        assert(ctx.view() == fn_cv(*f, enum_map_view(em)));
    }
    emit_top_items(&f.body, &ctx, ret_ty.as_str(), &mut h);
    push_str(&mut h, "}\n\n");
    h
}

pub(crate) fn is_float_param(p: &ParamDecl) -> (r: bool)
    ensures
        r == param_is_float(*p),
{
    match &p.kind {
        ParamKind::Logic(t) => matches!(
            t,
            TypeExpr::BF16 | TypeExpr::FP32 | TypeExpr::FP8E4M3 | TypeExpr::FP8E5M2
        ),
        _ => false,
    }
}

/// Value of a parameter's `#define` (see [`define_value`]).
fn define_value_exec(p: &ParamDecl, params: &[ParamDecl], fp: &NameMap<Option<u64>>) -> (r: Option<
    u64,
>)
    ensures
        r == define_value(*p, params@, fp@),
{
    match &p.kind {
        ParamKind::Const | ParamKind::WidthConst(_, _) | ParamKind::Logic(_) => match &p.default {
            None => None,
            Some(_) => {
                if is_float_param(p) {
                    match fp.get(p.name.name.as_str()) {
                        Some(v) => *v,
                        None => None,
                    }
                } else {
                    crate::const_eval::eval_param_const_value(p, params)
                }
            },
        },
        _ => None,
    }
}

/// The `#define` block of the constant parameters of packages and modules
/// and the names it defines.
fn param_defines(items: &Vec<Item>, fp: &NameMap<Option<u64>>) -> (r: (String, Vec<String>))
    ensures
        r.0@ == defines(define_candidates(items@), fp@).0,
        strs_view(r.1@) == defines(define_candidates(items@), fp@).2,
{
    let mut h = String::new();
    let mut seen = NameSet::new();
    let mut macros: Vec<String> = Vec::new();
    let mut i: usize = 0;
    while i < items.len()
        invariant
            i <= items@.len(),
            defines(define_candidates(items@.take(i as int)), fp@) == (h@, seen@, strs_view(
                macros@,
            )),
        decreases items@.len() - i,
    {
        proof {
            assert(items@.take(i + 1).drop_last() =~= items@.take(i as int));
        }
        let params: Option<&Vec<ParamDecl>> = match &items[i] {
            Item::Package(pkg) => Some(&pkg.params),
            Item::Module(m) => Some(&m.params),
            _ => None,
        };
        if let Some(params) = params {
            let ghost base = define_candidates(items@.take(i as int));
            let mut j: usize = 0;
            proof {
                assert(base + with_ctx(params@).take(0) =~= base);
            }
            while j < params.len()
                invariant
                    j <= params@.len(),
                    defines(base + with_ctx(params@).take(j as int), fp@) == (h@, seen@, strs_view(
                        macros@,
                    )),
                decreases params@.len() - j,
            {
                let p = &params[j];
                proof {
                    let pre = base + with_ctx(params@).take(j as int);
                    let post = base + with_ctx(params@).take(j + 1);
                    assert(post.drop_last() =~= pre);
                    assert(post.last() == (params@[j as int], params@));
                }
                let name = p.name.name.as_str();
                if !seen.contains(name) {
                    seen.insert(p.name.name.clone());
                    if let Some(v) = define_value_exec(p, params.as_slice(), fp) {
                        let ghost mv = macros@;
                        macros.push(p.name.name.clone());
                        push_str(&mut h, "#ifndef ");
                        push_str(&mut h, name);
                        push_str(&mut h, "\n#define ");
                        push_str(&mut h, name);
                        push_str(&mut h, " ");
                        push_str(&mut h, fmt_dec(v).as_str());
                        push_str(&mut h, "ULL\n#define ARCH_SIM_VFUNCTIONS_DEFINED_");
                        push_str(&mut h, name);
                        push_str(&mut h, "\n#endif\n");
                        proof {
                            assert(strs_view(macros@) =~= strs_view(mv).push(
                                p.name.name@,
                            ));
                        }
                    }
                }
                j = j + 1;
            }
            proof {
                assert(with_ctx(params@).take(params@.len() as int) =~= with_ctx(params@));
                assert(define_candidates(items@.take(i + 1)) == base + with_ctx(params@));
            }
        }
        i = i + 1;
    }
    proof {
        assert(items@.take(items@.len() as int) =~= items@);
    }
    (h, macros)
}

/// The `function` items of a module body, in order.
pub open spec fn body_functions(body: Seq<ModuleBodyItem>) -> Seq<FunctionDecl>
    decreases body.len(),
{
    if body.len() == 0 {
        Seq::empty()
    } else {
        let rest = body_functions(body.drop_last());
        match body.last() {
            ModuleBodyItem::Function(f) => rest.push(f),
            _ => rest,
        }
    }
}

/// The functions an item contributes to `VFunctions.h`: a top-level
/// function, a package's functions, a module's internal functions.
pub open spec fn item_functions(it: Item) -> Seq<FunctionDecl> {
    match it {
        Item::Function(f) => seq![f],
        Item::Package(p) => p.functions@,
        Item::Module(m) => body_functions(m.body@),
        _ => Seq::empty(),
    }
}

pub open spec fn all_functions(items: Seq<Item>) -> Seq<FunctionDecl>
    decreases items.len(),
{
    if items.len() == 0 {
        Seq::empty()
    } else {
        all_functions(items.drop_last()) + item_functions(items.last())
    }
}

/// The functions with the first of each name kept, and the names seen.
pub open spec fn dedup_functions(fs: Seq<FunctionDecl>) -> (Seq<FunctionDecl>, Set<Seq<char>>)
    decreases fs.len(),
{
    if fs.len() == 0 {
        (Seq::empty(), Set::empty())
    } else {
        let (kept, seen) = dedup_functions(fs.drop_last());
        let n = fs.last().name.name@;
        if seen.contains(n) {
            (kept, seen)
        } else {
            (kept.push(fs.last()), seen.insert(n))
        }
    }
}

/// The functions of `VFunctions.h`: every function of the file, the first
/// of each name.
pub open spec fn emitted_functions(items: Seq<Item>) -> Seq<FunctionDecl> {
    dedup_functions(all_functions(items)).0
}

/// Add `f` unless a function of its name was added before.
fn add_function<'b>(f: &'b FunctionDecl, kept: &mut Vec<&'b FunctionDecl>, seen: &mut NameSet)
    ensures
        (decls_view(final(kept)@), final(seen)@) == (if old(seen)@.contains(f.name.name@) {
            (decls_view(old(kept)@), old(seen)@)
        } else {
            (decls_view(old(kept)@).push(*f), old(seen)@.insert(f.name.name@))
        }),
{
    if !seen.contains(f.name.name.as_str()) {
        seen.insert(f.name.name.clone());
        let ghost kv = kept@;
        kept.push(f);
        proof {
            assert(decls_view(kept@) =~= decls_view(kv).push(*f));
        }
    }
}

/// The functions of `VFunctions.h` (see [`emitted_functions`]).
pub fn collect_functions<'b>(items: &'b Vec<Item>) -> (r: Vec<&'b FunctionDecl>)
    ensures
        decls_view(r@) == emitted_functions(items@),
{
    let mut kept: Vec<&'b FunctionDecl> = Vec::new();
    let mut seen = NameSet::new();
    let mut i: usize = 0;
    proof {
        assert(decls_view(kept@) =~= Seq::<FunctionDecl>::empty());
    }
    while i < items.len()
        invariant
            i <= items@.len(),
            dedup_functions(all_functions(items@.take(i as int))) == (decls_view(kept@), seen@),
        decreases items@.len() - i,
    {
        proof {
            assert(items@.take(i + 1).drop_last() =~= items@.take(i as int));
        }
        let ghost before = all_functions(items@.take(i as int));
        match &items[i] {
            Item::Function(f) => {
                proof {
                    assert((before + seq![*f]).drop_last() =~= before);
                }
                add_function(f, &mut kept, &mut seen);
            },
            Item::Package(p) => {
                let mut j: usize = 0;
                proof {
                    assert(before + p.functions@.take(0) =~= before);
                }
                while j < p.functions.len()
                    invariant
                        j <= p.functions@.len(),
                        dedup_functions(before + p.functions@.take(j as int)) == (decls_view(
                            kept@,
                        ), seen@),
                    decreases p.functions@.len() - j,
                {
                    proof {
                        assert((before + p.functions@.take(j + 1)).drop_last() =~= before
                            + p.functions@.take(j as int));
                    }
                    add_function(&p.functions[j], &mut kept, &mut seen);
                    j = j + 1;
                }
                proof {
                    assert(p.functions@.take(p.functions@.len() as int) =~= p.functions@);
                }
            },
            Item::Module(m) => {
                let mut j: usize = 0;
                proof {
                    assert(m.body@.take(0) =~= Seq::<ModuleBodyItem>::empty());
                    assert(before + body_functions(m.body@.take(0)) =~= before);
                }
                while j < m.body.len()
                    invariant
                        j <= m.body@.len(),
                        dedup_functions(before + body_functions(m.body@.take(j as int))) == (
                        decls_view(kept@), seen@),
                    decreases m.body@.len() - j,
                {
                    proof {
                        assert(m.body@.take(j + 1).drop_last() =~= m.body@.take(j as int));
                    }
                    if let ModuleBodyItem::Function(f) = &m.body[j] {
                        proof {
                            assert((before + body_functions(m.body@.take(j + 1))).drop_last()
                                =~= before + body_functions(m.body@.take(j as int)));
                        }
                        add_function(f, &mut kept, &mut seen);
                    }
                    j = j + 1;
                }
                proof {
                    assert(m.body@.take(m.body@.len() as int) =~= m.body@);
                }
            },
            _ => {
                proof {
                    assert(before + Seq::<FunctionDecl>::empty() =~= before);
                }
            },
        }
        i = i + 1;
    }
    proof {
        assert(items@.take(items@.len() as int) =~= items@);
    }
    kept
}

impl<'a> crate::sim::SimCodegen<'a> {
    /// `VFunctions.h`: the constant-parameter `#define`s, then each
    /// function as an inline C++ function, then the `#undef`s.
    pub fn gen_functions(&self, fns: &Vec<&FunctionDecl>, em: &NameMap<Vec<(String, u64)>>) -> (r:
        SimModel)
        requires
            forall|i: int|
                0 <= i < fns@.len() ==> function_ok(*#[trigger] fns@[i], enum_map_view(em)),
        ensures
            r.class_name@ == "VFunctions"@,
            r.header@ == vfunctions_header(
                self.source.items@,
                decls_view(fns@),
                enum_map_view(em),
                self.float_param_bits@,
            ),
            r.impl_@ == Seq::<char>::empty(),
    {
        let (defs, macros) = param_defines(&self.source.items, &self.float_param_bits);
        let mut h = own("#pragma once\n#include \"verilated.h\"\n\n");
        push_str(&mut h, defs.as_str());
        push_str(&mut h, "\n");
        let ghost pre = h@;
        let mut i: usize = 0;
        while i < fns.len()
            invariant
                i <= fns@.len(),
                forall|k: int|
                    0 <= k < fns@.len() ==> function_ok(*#[trigger] fns@[k], enum_map_view(em)),
                h@ == pre + functions_text(decls_view(fns@).take(i as int), enum_map_view(em)),
            decreases fns@.len() - i,
        {
            proof {
                assert(decls_view(fns@).take(i + 1).drop_last() =~= decls_view(fns@).take(
                    i as int,
                ));
            }
            let t = function_cpp(fns[i], em);
            push_str(&mut h, t.as_str());
            i = i + 1;
        }
        proof {
            assert(decls_view(fns@).take(fns@.len() as int) =~= decls_view(fns@));
        }
        let ghost pre2 = h@;
        let mut k: usize = 0;
        while k < macros.len()
            invariant
                k <= macros@.len(),
                h@ == pre2 + undefs_text(strs_view(macros@).take(k as int)),
            decreases macros@.len() - k,
        {
            proof {
                assert(strs_view(macros@).take(k + 1).drop_last() =~= strs_view(macros@).take(
                    k as int,
                ));
            }
            let name = macros[k].as_str();
            push_str(&mut h, "#ifdef ARCH_SIM_VFUNCTIONS_DEFINED_");
            push_str(&mut h, name);
            push_str(&mut h, "\n#undef ");
            push_str(&mut h, name);
            push_str(&mut h, "\n#undef ARCH_SIM_VFUNCTIONS_DEFINED_");
            push_str(&mut h, name);
            push_str(&mut h, "\n#endif\n");
            k = k + 1;
        }
        proof {
            assert(strs_view(macros@).take(macros@.len() as int) =~= strs_view(macros@));
        }
        SimModel { class_name: own("VFunctions"), header: h, impl_: String::new() }
    }
}

} // verus!
