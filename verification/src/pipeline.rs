//! Lowering of pipeline stage logic: expressions and statements of a stage
//! read other stages' registers through their prefixes, and stages with
//! `wait until` / `do ... until` run as a small state machine.
use vstd::prelude::*;
use crate::ast::{BinOp, Expr, ExprKind, LitKind, ParamDecl, UnaryOp};
use crate::const_eval::eval_const_expr_with_params;
use crate::cpp_expr::cpp_expr;
use crate::cpp_fmt::{cpp_uint, cpp_uint_spec, mask_of, mask_u64};
use crate::cpp_text::{dec32, op_str, own};
use crate::ctx::{Ctx, CtxView, enum_map_view};
use crate::lowering::lower_ok;
use crate::lowering::{cpp_spec, op_text};
use crate::names::{NameMap, NameSet};
use crate::pybind::fold_value;
use crate::sim::SimCodegen;
use crate::text::{dec_str, fmt_dec, fmt_hex_upper, hex_upper, push_str, str_eq};

verus! {

/// The lowercase of a text, as `str::to_lowercase` computes it.
pub uninterp spec fn lowercase(s: Seq<char>) -> Seq<char>;

/// `str::to_lowercase`. The contract claims only that the result is the
/// lowercase of the argument, a function of the argument alone; the
/// Unicode case mapping it applies is left unsaid.
#[verifier::external_body]
fn to_lowercase(s: &str) -> (r: String)
    ensures
        r@ == lowercase(s@),
{
    s.to_lowercase()
}

/// What the expressions of one pipeline stage are lowered against.
pub struct PipeScope<'a> {
    /// This stage's register prefix.
    pub prefix: &'a str,
    /// This stage's index.
    pub stage: usize,
    /// Every stage's name, in order.
    pub stage_names: &'a [String],
    /// Every stage's register prefix, in order.
    pub stage_prefixes: &'a [String],
    /// Every stage's register names (unprefixed), in order.
    pub stage_regs: &'a [NameSet],
    pub ports: &'a NameSet,
    /// Prefixed stage registers.
    pub regs: &'a NameSet,
    /// Prefixed stage `let`s.
    pub lets: &'a NameSet,
    pub widths: &'a NameMap<u32>,
    pub enum_map: &'a NameMap<Vec<(String, u64)>>,
    pub params: &'a [ParamDecl],
}

pub struct PipeView {
    pub prefix: Seq<char>,
    pub stage: int,
    pub stage_names: Seq<Seq<char>>,
    pub stage_prefixes: Seq<Seq<char>>,
    pub stage_regs: Seq<Set<Seq<char>>>,
    pub ports: Set<Seq<char>>,
    pub regs: Set<Seq<char>>,
    pub lets: Set<Seq<char>>,
    pub widths: Map<Seq<char>, u32>,
    pub enum_map: Map<Seq<char>, Seq<(Seq<char>, u64)>>,
    pub params: Seq<ParamDecl>,
}

impl<'a> PipeScope<'a> {
    pub open spec fn view(self) -> PipeView {
        PipeView {
            prefix: self.prefix@,
            stage: self.stage as int,
            stage_names: self.stage_names@.map_values(|s: String| s@),
            stage_prefixes: self.stage_prefixes@.map_values(|s: String| s@),
            stage_regs: self.stage_regs@.map_values(|s: NameSet| s@),
            ports: self.ports@,
            regs: self.regs@,
            lets: self.lets@,
            widths: self.widths@,
            enum_map: enum_map_view(self.enum_map),
            params: self.params@,
        }
    }
}

/// The expression context of a stage: its registers, ports and `let`s,
/// and nothing else.
pub open spec fn pipe_ctx(v: PipeView) -> CtxView {
    CtxView {
        reg_names: v.regs,
        port_names: v.ports,
        let_names: v.lets,
        let_values: None,
        inst_names: Set::empty(),
        wide_names: Set::empty(),
        widths: v.widths,
        signed_names: Set::empty(),
        float_names: Map::empty(),
        posedge_lhs: false,
        fsm_mode: false,
        enum_map: v.enum_map,
        bus_ports: Set::empty(),
        reset_levels: Map::empty(),
        vec_names: None,
        vec_2d_names: None,
        vec_sizes: None,
        fsm_vec_port_regs: None,
        ident_subst: None,
        loop_var_subst: None,
        vec_of_bus_port_count: None,
        vec_of_bus_wire_count: None,
        params: v.params,
        decl_types: None,
        struct_defs: None,
        vinit_regs: None,
    }
}

/// The first index of `n` in `ns`.
pub open spec fn first_index(ns: Seq<Seq<char>>, n: Seq<char>) -> Option<int>
    decreases ns.len(),
{
    if ns.len() == 0 {
        None
    } else {
        match first_index(ns.drop_last(), n) {
            Some(i) => Some(i),
            None => if ns.last() == n {
                Some(ns.len() - 1)
            } else {
                None
            },
        }
    }
}

/// The width of `k`, 8 when unknown.
pub open spec fn wget(w: Map<Seq<char>, u32>, k: Seq<char>) -> u32 {
    if w.contains_key(k) {
        w[k]
    } else {
        8
    }
}

/// `n` is a register of the current stage.
pub open spec fn in_stage_regs(v: PipeView, n: Seq<char>) -> bool {
    0 <= v.stage < v.stage_regs.len() && v.stage_regs[v.stage].contains(n)
}

/// The methods that give their result the width of their first argument.
pub open spec fn is_width_method(m: Seq<char>) -> bool {
    m == "trunc"@ || m == "zext"@ || m == "sext"@ || m == "resize"@
}

/// The width a stage assumes for an expression (8 when it cannot tell).
pub open spec fn pipe_width(e: Expr, v: PipeView) -> u32 {
    match e.kind {
        ExprKind::Ident(n) => if v.ports.contains(n@) {
            wget(v.widths, n@)
        } else if in_stage_regs(v, n@) {
            wget(v.widths, v.prefix + "_"@ + n@)
        } else {
            wget(v.widths, n@)
        },
        ExprKind::FieldAccess(b, f) => match b.kind {
            ExprKind::Ident(bn) => wget(v.widths, lowercase(bn@) + "_"@ + f.name@),
            _ => 8,
        },
        ExprKind::MethodCall(_, m, args) => if is_width_method(m.name@) && args@.len() > 0 {
            fold_value(args@[0], v.params) as u32
        } else {
            8
        },
        ExprKind::BitSlice(_, hi, lo) => (fold_value(*hi, v.params) - fold_value(*lo, v.params)
            + 1) as u32,
        ExprKind::Literal(LitKind::Sized(w, _)) => w,
        _ => 8,
    }
}

/// The width of `e` is computed without overflow.
pub open spec fn pipe_width_ok(e: Expr, v: PipeView) -> bool {
    match e.kind {
        ExprKind::BitSlice(_, hi, lo) => fold_value(*lo, v.params) <= fold_value(*hi, v.params)
            && fold_value(*hi, v.params) - fold_value(*lo, v.params) < u64::MAX,
        _ => true,
    }
}

/// The summed widths of `parts`.
pub open spec fn pipe_wsum(parts: Seq<Expr>, v: PipeView) -> int
    decreases parts.len(),
{
    if parts.len() == 0 {
        0
    } else {
        pipe_wsum(parts.drop_last(), v) + pipe_width(parts.last(), v)
    }
}

/// A concatenation part widened to 64 bits and placed at bit `pos`.
pub open spec fn shifted_part(val: Seq<char>, pos: int) -> Seq<char> {
    if pos > 0 {
        "((uint64_t)("@ + val + ") << "@ + dec_str(pos as nat) + ")"@
    } else {
        "(uint64_t)("@ + val + ")"@
    }
}

/// `sext` of `b` from `src` to `dst` bits.
pub open spec fn pipe_sext(b: Seq<char>, dst: u32, src: u32) -> Seq<char> {
    let t = cpp_uint_spec(dst);
    if src >= dst || src == 0 {
        "("@ + t + ")("@ + b + ")"@
    } else {
        "((("@ + b + " >> "@ + dec_str((src - 1) as nat) + ") & 1) ? ("@ + t + ")("@ + b + ") | ("@
            + t + ")(~(("@ + t + ")0) << "@ + dec_str(src as nat) + ") : ("@ + t + ")("@ + b + "))"@
    }
}

/// A stage-relative name for `base.field` where `base` names a stage.
pub open spec fn stage_field(v: PipeView, p: Seq<char>, f: Seq<char>) -> Seq<char> {
    let prefixed = p + "_"@ + f;
    if v.regs.contains(prefixed) {
        "_"@ + prefixed
    } else if v.lets.contains(prefixed) {
        prefixed
    } else if f == "valid_r"@ {
        "_"@ + p + "_valid_r"@
    } else {
        "_"@ + prefixed
    }
}

/// How an identifier of stage logic reads, where the stage decides it.
pub open spec fn stage_ident(v: PipeView, n: Seq<char>) -> Option<Seq<char>> {
    if v.ports.contains(n) {
        Some(n)
    } else if n == "valid_r"@ && v.prefix.len() > 0 {
        Some("_"@ + v.prefix + "_valid_r"@)
    } else if in_stage_regs(v, n) && v.regs.contains(v.prefix + "_"@ + n) {
        Some("_"@ + v.prefix + "_"@ + n)
    } else if in_stage_regs(v, n) && v.lets.contains(v.prefix + "_"@ + n) {
        Some(v.prefix + "_"@ + n)
    } else {
        None
    }
}

/// The C++ text of an expression of stage logic.
pub open spec fn pipe_text(e: Expr, v: PipeView) -> Seq<char>
    decreases e, 0int, 0int,
{
    match e.kind {
        ExprKind::FieldAccess(b, f) => match b.kind {
            ExprKind::Ident(bn) => match first_index(v.stage_names, bn@) {
                Some(i) => stage_field(v, v.stage_prefixes[i], f.name@),
                None => cpp_spec(e, pipe_ctx(v), false),
            },
            _ => cpp_spec(e, pipe_ctx(v), false),
        },
        ExprKind::Ident(n) => match stage_ident(v, n@) {
            Some(t) => t,
            None => cpp_spec(e, pipe_ctx(v), false),
        },
        ExprKind::Concat(parts) => "("@ + pipe_terms(parts@, v, parts@.len() as int) + ")"@,
        ExprKind::Binary(op, l, r) => if op is Implies || op is ImpliesNext {
            "(!"@ + pipe_text(*l, v) + " || "@ + pipe_text(*r, v) + ")"@
        } else {
            "("@ + pipe_text(*l, v) + " "@ + op_text(op) + " "@ + pipe_text(*r, v) + ")"@
        },
        ExprKind::Unary(op, a) => match op {
            UnaryOp::Not => "(!"@ + pipe_text(*a, v) + ")"@,
            UnaryOp::BitNot => "(~"@ + pipe_text(*a, v) + ")"@,
            UnaryOp::Neg => "(-"@ + pipe_text(*a, v) + ")"@,
            _ => "("@ + pipe_text(*a, v) + ")"@,
        },
        ExprKind::MethodCall(b, m, args) => {
            let bt = pipe_text(*b, v);
            if m.name@ == "trunc"@ && args@.len() > 0 {
                let bits = fold_value(args@[0], v.params);
                if bits < 64 {
                    "("@ + bt + " & 0x"@ + hex_upper(mask_of(bits as nat) as nat) + "ULL)"@
                } else {
                    bt
                }
            } else if m.name@ == "zext"@ {
                "(uint64_t)("@ + bt + ")"@
            } else if m.name@ == "sext"@ && args@.len() > 0 {
                pipe_sext(bt, fold_value(args@[0], v.params) as u32, pipe_width(*b, v))
            } else {
                bt
            }
        },
        ExprKind::BitSlice(b, hi, lo) => {
            let lv = fold_value(*lo, v.params);
            let width = fold_value(*hi, v.params) - lv + 1;
            if width < 64 {
                "(("@ + pipe_text(*b, v) + " >> "@ + dec_str(lv as nat) + ") & 0x"@ + hex_upper(
                    mask_of(width as nat) as nat,
                ) + "ULL)"@
            } else {
                "("@ + pipe_text(*b, v) + " >> "@ + dec_str(lv as nat) + ")"@
            }
        },
        ExprKind::Index(b, i) => "(("@ + pipe_text(*b, v) + " >> "@ + pipe_text(*i, v) + ") & 1)"@,
        ExprKind::Literal(l) => match l {
            LitKind::Dec(x) => dec_str(x as nat),
            LitKind::Hex(x) => "0x"@ + hex_upper(x as nat),
            LitKind::Bin(x) => "0x"@ + hex_upper(x as nat),
            LitKind::Sized(_, x) => dec_str(x as nat),
            _ => cpp_spec(e, pipe_ctx(v), false),
        },
        ExprKind::Bool(b) => if b {
            "1"@
        } else {
            "0"@
        },
        ExprKind::Ternary(c, t, f) => "(("@ + pipe_text(*c, v) + ") ? ("@ + pipe_text(*t, v) + ") : ("@
            + pipe_text(*f, v) + "))"@,
        ExprKind::Signed(a) => pipe_text(*a, v),
        ExprKind::Unsigned(a) => pipe_text(*a, v),
        ExprKind::Cast(a, _) => pipe_text(*a, v),
        ExprKind::Clog2(a) => "_arch_clog2("@ + pipe_text(*a, v) + ")"@,
        _ => cpp_spec(e, pipe_ctx(v), false),
    }
}

/// The first `k` parts of a stage concatenation, most significant first,
/// joined by ` | `.
pub open spec fn pipe_terms(parts: Seq<Expr>, v: PipeView, k: int) -> Seq<char>
    decreases parts, 0int, k,
{
    if k <= 0 || k > parts.len() {
        Seq::empty()
    } else {
        pipe_terms(parts, v, k - 1) + (if k > 1 {
            " | "@
        } else {
            Seq::empty()
        }) + shifted_part(
            pipe_text(parts[k - 1], v),
            pipe_wsum(parts, v) - pipe_wsum(parts.take(k), v),
        )
    }
}

/// Stage logic of `e` lowers without overflow, and the parts that fall
/// back to the general lowering meet its conditions.
pub open spec fn pipe_ok(e: Expr, v: PipeView) -> bool
    decreases e, 0int, 0int,
{
    match e.kind {
        ExprKind::FieldAccess(b, f) => match b.kind {
            ExprKind::Ident(bn) => match first_index(v.stage_names, bn@) {
                Some(i) => i < v.stage_prefixes.len(),
                None => lower_ok(e, pipe_ctx(v), false),
            },
            _ => lower_ok(e, pipe_ctx(v), false),
        },
        ExprKind::Ident(n) => stage_ident(v, n@) is Some || lower_ok(e, pipe_ctx(v), false),
        ExprKind::Concat(parts) => pipe_parts_ok(parts@, v, parts@.len() as int) && pipe_wsum(
            parts@,
            v,
        ) <= u32::MAX,
        ExprKind::Binary(_, l, r) => pipe_ok(*l, v) && pipe_ok(*r, v),
        ExprKind::Unary(_, a) => pipe_ok(*a, v),
        ExprKind::MethodCall(b, m, args) => pipe_ok(*b, v) && (m.name@ == "sext"@ && args@.len()
            > 0 ==> pipe_width_ok(*b, v)),
        ExprKind::BitSlice(b, hi, lo) => pipe_ok(*b, v) && fold_value(*lo, v.params) <= fold_value(
            *hi,
            v.params,
        ) && fold_value(*hi, v.params) - fold_value(*lo, v.params) < u64::MAX,
        ExprKind::Index(b, i) => pipe_ok(*b, v) && pipe_ok(*i, v),
        ExprKind::Literal(l) => match l {
            LitKind::TypedFloat(_, _) => lower_ok(e, pipe_ctx(v), false),
            _ => true,
        },
        ExprKind::Bool(_) => true,
        ExprKind::Ternary(c, t, f) => pipe_ok(*c, v) && pipe_ok(*t, v) && pipe_ok(*f, v),
        ExprKind::Signed(a) => pipe_ok(*a, v),
        ExprKind::Unsigned(a) => pipe_ok(*a, v),
        ExprKind::Cast(a, _) => pipe_ok(*a, v),
        ExprKind::Clog2(a) => pipe_ok(*a, v),
        _ => lower_ok(e, pipe_ctx(v), false),
    }
}

/// The first `k` parts lower, and their widths are computed without
/// overflow.
pub open spec fn pipe_parts_ok(parts: Seq<Expr>, v: PipeView, k: int) -> bool
    decreases parts, 0int, k,
{
    if k <= 0 || k > parts.len() {
        true
    } else {
        pipe_parts_ok(parts, v, k - 1) && pipe_ok(parts[k - 1], v) && pipe_width_ok(parts[k - 1], v)
    }
}

fn wget_exec(w: &NameMap<u32>, k: &str) -> (r: u32)
    ensures
        r == wget(w@, k@),
{
    match w.get(k) {
        Some(x) => *x,
        None => 8,
    }
}

fn first_index_exec(ns: &[String], n: &str) -> (r: Option<usize>)
    ensures
        match r {
            Some(i) => first_index(ns@.map_values(|s: String| s@), n@) == Some(i as int),
            None => first_index(ns@.map_values(|s: String| s@), n@) is None,
        },
{
    let ghost vs = ns@.map_values(|s: String| s@);
    let mut i: usize = 0;
    while i < ns.len()
        invariant
            i <= ns@.len(),
            vs == ns@.map_values(|s: String| s@),
            first_index(vs.take(i as int), n@) is None,
        decreases ns@.len() - i,
    {
        proof {
            assert(vs.take(i + 1).drop_last() =~= vs.take(i as int));
        }
        if str_eq(ns[i].as_str(), n) {
            proof {
                lemma_first_index_prefix(vs, n@, i + 1);
            }
            return Some(i);
        }
        i = i + 1;
    }
    proof {
        assert(vs.take(ns@.len() as int) =~= vs);
    }
    None
}

/// An index found in a prefix is the first index in the whole sequence.
proof fn lemma_first_index_prefix(ns: Seq<Seq<char>>, n: Seq<char>, k: int)
    requires
        0 <= k <= ns.len(),
        first_index(ns.take(k), n) is Some,
    ensures
        first_index(ns, n) == first_index(ns.take(k), n),
    decreases ns.len() - k,
{
    if k < ns.len() {
        assert(ns.take(k + 1).drop_last() =~= ns.take(k));
        lemma_first_index_prefix(ns, n, k + 1);
    } else {
        assert(ns.take(k) =~= ns);
    }
}

/// The first index lies within the sequence.
proof fn lemma_first_index_bound(ns: Seq<Seq<char>>, n: Seq<char>)
    ensures
        first_index(ns, n) matches Some(i) ==> 0 <= i < ns.len(),
    decreases ns.len(),
{
    if ns.len() > 0 {
        lemma_first_index_bound(ns.drop_last(), n);
    }
}

/// `a` followed by `b`.
fn cat2(a: &str, b: &str) -> (r: String)
    ensures
        r@ == a@ + b@,
{
    let mut s = own(a);
    push_str(&mut s, b);
    s
}

/// `a` followed by `b` and `c`.
fn cat3(a: &str, b: &str, c: &str) -> (r: String)
    ensures
        r@ == a@ + b@ + c@,
{
    let mut s = own(a);
    push_str(&mut s, b);
    push_str(&mut s, c);
    s
}

impl<'a> SimCodegen<'a> {
    /// The width a stage assumes for an expression: ports and registers by
    /// their recorded width, `stage.field` by the lowercased stage name,
    /// width-taking methods by their argument, slices by their bounds,
    /// sized literals by their size, and 8 otherwise.
    pub fn pipeline_sim_expr_width(&self, expr: &Expr, s: &PipeScope) -> (r: u32)
        requires
            pipe_width_ok(*expr, s@),
        ensures
            r == pipe_width(*expr, s@),
    {
        match &expr.kind {
            ExprKind::Ident(name) => {
                if s.ports.contains(name.as_str()) {
                    return wget_exec(s.widths, name.as_str());
                }
                proof {
                    if s.stage < s.stage_regs@.len() {
                        assert(s@.stage_regs[s.stage as int] == s.stage_regs@[s.stage as int]@);
                    }
                }
                if s.stage < s.stage_regs.len() && s.stage_regs[s.stage].contains(name.as_str()) {
                    let k = cat3(s.prefix, "_", name.as_str());
                    return wget_exec(s.widths, k.as_str());
                }
                wget_exec(s.widths, name.as_str())
            },
            ExprKind::FieldAccess(base, field) => {
                if let ExprKind::Ident(bn) = &base.kind {
                    let low = to_lowercase(bn.as_str());
                    let k = cat3(low.as_str(), "_", field.name.as_str());
                    wget_exec(s.widths, k.as_str())
                } else {
                    8
                }
            },
            ExprKind::MethodCall(_, method, args) => {
                let m = method.name.as_str();
                if str_eq(m, "trunc") || str_eq(m, "zext") || str_eq(m, "sext") || str_eq(m, "resize") {
                    if args.len() > 0 {
                        eval_const_expr_with_params(&args[0], s.params) as u32
                    } else {
                        8
                    }
                } else {
                    8
                }
            },
            ExprKind::BitSlice(_, hi, lo) => {
                let h = eval_const_expr_with_params(hi, s.params);
                let l = eval_const_expr_with_params(lo, s.params);
                (h - l + 1) as u32
            },
            ExprKind::Literal(LitKind::Sized(w, _)) => *w,
            _ => 8,
        }
    }

    /// The general lowering of `e` in the stage's context.
    fn pipe_fallback(&self, e: &Expr, s: &PipeScope) -> (r: String)
        requires
            lower_ok(*e, pipe_ctx(s@), false),
        ensures
            r@ == cpp_spec(*e, pipe_ctx(s@), false),
    {
        let empty = NameSet::new();
        let ctx = Ctx::new(s.regs, s.ports, s.lets, &empty, &empty, s.widths, s.enum_map, &empty, s.params);
        proof {
            assert(ctx.view() =~= pipe_ctx(s@));
        }
        cpp_expr(e, &ctx)
    }
}


/// The summed widths of a prefix never exceed those of the whole.
proof fn lemma_wsum_prefix(parts: Seq<Expr>, v: PipeView, i: int)
    requires
        0 <= i <= parts.len(),
    ensures
        pipe_wsum(parts.take(i), v) <= pipe_wsum(parts, v),
        pipe_wsum(parts.take(i), v) >= 0,
    decreases parts.len(),
{
    if i == parts.len() {
        assert(parts.take(i) =~= parts);
        lemma_wsum_nonneg(parts, v);
    } else {
        assert(parts.take(i) =~= parts.drop_last().take(i));
        lemma_wsum_prefix(parts.drop_last(), v, i);
    }
}

proof fn lemma_wsum_nonneg(parts: Seq<Expr>, v: PipeView)
    ensures
        pipe_wsum(parts, v) >= 0,
    decreases parts.len(),
{
    if parts.len() > 0 {
        lemma_wsum_nonneg(parts.drop_last(), v);
    }
}

/// The parts of an accepted concatenation are accepted one by one.
proof fn lemma_parts_ok(parts: Seq<Expr>, v: PipeView, k: int, i: int)
    requires
        pipe_parts_ok(parts, v, k),
        0 <= i < k <= parts.len(),
    ensures
        pipe_ok(parts[i], v),
        pipe_width_ok(parts[i], v),
    decreases k,
{
    if i < k - 1 {
        lemma_parts_ok(parts, v, k - 1, i);
    }
}

fn stage_field_exec(s: &PipeScope, p: &str, f: &str) -> (r: String)
    ensures
        r@ == stage_field(s@, p@, f@),
{
    let prefixed = cat3(p, "_", f);
    if s.regs.contains(prefixed.as_str()) {
        cat2("_", prefixed.as_str())
    } else if s.lets.contains(prefixed.as_str()) {
        prefixed
    } else if str_eq(f, "valid_r") {
        cat3("_", p, "_valid_r")
    } else {
        cat2("_", prefixed.as_str())
    }
}

fn stage_ident_exec(s: &PipeScope, n: &str) -> (r: Option<String>)
    ensures
        match r {
            Some(t) => stage_ident(s@, n@) == Some(t@),
            None => stage_ident(s@, n@) is None,
        },
{
    if s.ports.contains(n) {
        return Some(own(n));
    }
    if str_eq(n, "valid_r") && !s.prefix.is_empty() {
        return Some(cat3("_", s.prefix, "_valid_r"));
    }
    proof {
        if s.stage < s.stage_regs@.len() {
            assert(s@.stage_regs[s.stage as int] == s.stage_regs@[s.stage as int]@);
        }
    }
    if s.stage < s.stage_regs.len() && s.stage_regs[s.stage].contains(n) {
        let prefixed = cat3(s.prefix, "_", n);
        if s.regs.contains(prefixed.as_str()) {
            return Some(cat2("_", prefixed.as_str()));
        }
        if s.lets.contains(prefixed.as_str()) {
            return Some(prefixed);
        }
    }
    None
}

fn pipe_sext_exec(b: &str, dst: u32, src: u32) -> (r: String)
    ensures
        r@ == pipe_sext(b@, dst, src),
{
    let t = cpp_uint(dst);
    if src >= dst || src == 0 {
        let mut r = cat3("(", t, ")(");
        push_str(&mut r, b);
        push_str(&mut r, ")");
        r
    } else {
        let mut r = cat3("(((", b, " >> ");
        push_str(&mut r, dec32(src - 1).as_str());
        push_str(&mut r, ") & 1) ? (");
        push_str(&mut r, t);
        push_str(&mut r, ")(");
        push_str(&mut r, b);
        push_str(&mut r, ") | (");
        push_str(&mut r, t);
        push_str(&mut r, ")(~((");
        push_str(&mut r, t);
        push_str(&mut r, ")0) << ");
        push_str(&mut r, dec32(src).as_str());
        push_str(&mut r, ") : (");
        push_str(&mut r, t);
        push_str(&mut r, ")(");
        push_str(&mut r, b);
        push_str(&mut r, "))");
        r
    }
}

fn shifted_part_exec(val: &str, pos: u32) -> (r: String)
    ensures
        r@ == shifted_part(val@, pos as int),
{
    if pos > 0 {
        let mut r = cat3("((uint64_t)(", val, ") << ");
        push_str(&mut r, dec32(pos).as_str());
        push_str(&mut r, ")");
        r
    } else {
        cat3("(uint64_t)(", val, ")")
    }
}

impl<'a> SimCodegen<'a> {
    /// The C++ text of an expression of stage logic: names of this and
    /// other stages resolve to their prefixed registers and `let`s,
    /// operators, slices, concatenations and width methods lower to
    /// 64-bit arithmetic, and everything else to the general lowering.
    pub fn pipeline_sim_expr(&self, expr: &Expr, s: &PipeScope) -> (r: String)
        requires
            pipe_ok(*expr, s@),
        ensures
            r@ == pipe_text(*expr, s@),
        decreases expr, 1int,
    {
        match &expr.kind {
            ExprKind::FieldAccess(base, field) => {
                if let ExprKind::Ident(bn) = &base.kind {
                    match first_index_exec(s.stage_names, bn.as_str()) {
                        Some(idx) => {
                            proof {
                                lemma_first_index_bound(s@.stage_names, bn@);
                            }
                            stage_field_exec(s, s.stage_prefixes[idx].as_str(), field.name.as_str())
                        },
                        None => self.pipe_fallback(expr, s),
                    }
                } else {
                    self.pipe_fallback(expr, s)
                }
            },
            ExprKind::Ident(name) => match stage_ident_exec(s, name.as_str()) {
                Some(t) => t,
                None => self.pipe_fallback(expr, s),
            },
            ExprKind::Concat(parts) => self.pipe_concat(parts, s),
            ExprKind::Binary(op, l, r) => {
                let lt = self.pipeline_sim_expr(l, s);
                let rt = self.pipeline_sim_expr(r, s);
                match op {
                    BinOp::Implies | BinOp::ImpliesNext => {
                        let mut o = cat3("(!", lt.as_str(), " || ");
                        push_str(&mut o, rt.as_str());
                        push_str(&mut o, ")");
                        o
                    },
                    _ => {
                        let mut o = cat3("(", lt.as_str(), " ");
                        push_str(&mut o, op_str(*op));
                        push_str(&mut o, " ");
                        push_str(&mut o, rt.as_str());
                        push_str(&mut o, ")");
                        o
                    },
                }
            },
            ExprKind::Unary(op, a) => {
                let at = self.pipeline_sim_expr(a, s);
                match op {
                    UnaryOp::Not => cat3("(!", at.as_str(), ")"),
                    UnaryOp::BitNot => cat3("(~", at.as_str(), ")"),
                    UnaryOp::Neg => cat3("(-", at.as_str(), ")"),
                    _ => cat3("(", at.as_str(), ")"),
                }
            },
            ExprKind::MethodCall(b, method, args) => {
                let bt = self.pipeline_sim_expr(b, s);
                let m = method.name.as_str();
                if str_eq(m, "trunc") && args.len() > 0 {
                    let bits = eval_const_expr_with_params(&args[0], s.params);
                    if bits < 64 {
                        let mut o = cat3("(", bt.as_str(), " & 0x");
                        push_str(&mut o, fmt_hex_upper(mask_u64(bits as u32)).as_str());
                        push_str(&mut o, "ULL)");
                        o
                    } else {
                        bt
                    }
                } else if str_eq(m, "zext") {
                    cat3("(uint64_t)(", bt.as_str(), ")")
                } else if str_eq(m, "sext") && args.len() > 0 {
                    let dst = eval_const_expr_with_params(&args[0], s.params) as u32;
                    let src = self.pipeline_sim_expr_width(b, s);
                    pipe_sext_exec(bt.as_str(), dst, src)
                } else {
                    bt
                }
            },
            ExprKind::BitSlice(b, hi, lo) => {
                let bt = self.pipeline_sim_expr(b, s);
                let hv = eval_const_expr_with_params(hi, s.params);
                let lv = eval_const_expr_with_params(lo, s.params);
                let width = hv - lv + 1;
                let mut o = cat3("((", bt.as_str(), " >> ");
                if width < 64 {
                    push_str(&mut o, fmt_dec(lv).as_str());
                    push_str(&mut o, ") & 0x");
                    push_str(&mut o, fmt_hex_upper(mask_u64(width as u32)).as_str());
                    push_str(&mut o, "ULL)");
                    o
                } else {
                    let mut o2 = cat3("(", bt.as_str(), " >> ");
                    push_str(&mut o2, fmt_dec(lv).as_str());
                    push_str(&mut o2, ")");
                    o2
                }
            },
            ExprKind::Index(b, i) => {
                let bt = self.pipeline_sim_expr(b, s);
                let it = self.pipeline_sim_expr(i, s);
                let mut o = cat3("((", bt.as_str(), " >> ");
                push_str(&mut o, it.as_str());
                push_str(&mut o, ") & 1)");
                o
            },
            ExprKind::Literal(l) => match l {
                LitKind::Dec(x) => fmt_dec(*x),
                LitKind::Hex(x) => cat2("0x", fmt_hex_upper(*x).as_str()),
                LitKind::Bin(x) => cat2("0x", fmt_hex_upper(*x).as_str()),
                LitKind::Sized(_, x) => fmt_dec(*x),
                _ => self.pipe_fallback(expr, s),
            },
            ExprKind::Bool(b) => if *b {
                own("1")
            } else {
                own("0")
            },
            ExprKind::Ternary(c, t, f) => {
                let ct = self.pipeline_sim_expr(c, s);
                let tt = self.pipeline_sim_expr(t, s);
                let ft = self.pipeline_sim_expr(f, s);
                let mut o = cat3("((", ct.as_str(), ") ? (");
                push_str(&mut o, tt.as_str());
                push_str(&mut o, ") : (");
                push_str(&mut o, ft.as_str());
                push_str(&mut o, "))");
                o
            },
            ExprKind::Signed(a) => self.pipeline_sim_expr(a, s),
            ExprKind::Unsigned(a) => self.pipeline_sim_expr(a, s),
            ExprKind::Cast(a, _) => self.pipeline_sim_expr(a, s),
            ExprKind::Clog2(a) => {
                let at = self.pipeline_sim_expr(a, s);
                cat3("_arch_clog2(", at.as_str(), ")")
            },
            _ => self.pipe_fallback(expr, s),
        }
    }

    /// A stage concatenation: each part widened to 64 bits and shifted to
    /// its place, most significant first.
    fn pipe_concat(&self, parts: &Vec<Expr>, s: &PipeScope) -> (r: String)
        requires
            pipe_parts_ok(parts@, s@, parts@.len() as int),
            pipe_wsum(parts@, s@) <= u32::MAX,
        ensures
            r@ == "("@ + pipe_terms(parts@, s@, parts@.len() as int) + ")"@,
        decreases parts, 2int,
    {
        let ghost v = s@;
        let n = parts.len();
        let mut ws: Vec<u32> = Vec::new();
        let mut total: u32 = 0;
        let mut i: usize = 0;
        while i < n
            invariant
                n == parts@.len(),
                i <= n,
                v == s@,
                pipe_parts_ok(parts@, v, n as int),
                pipe_wsum(parts@, v) <= u32::MAX,
                ws@.len() == i,
                forall|j: int| 0 <= j < i ==> ws@[j] == pipe_width(#[trigger] parts@[j], v),
                total as int == pipe_wsum(parts@.take(i as int), v),
            decreases n - i,
        {
            proof {
                lemma_parts_ok(parts@, v, n as int, i as int);
                assert(parts@.take(i + 1).drop_last() =~= parts@.take(i as int));
                lemma_wsum_prefix(parts@, v, i + 1);
            }
            let w = self.pipeline_sim_expr_width(&parts[i], s);
            ws.push(w);
            total = total + w;
            i = i + 1;
        }
        proof {
            assert(parts@.take(n as int) =~= parts@);
        }
        let mut out = own("(");
        let mut bit_pos: u32 = total;
        let mut k: usize = 0;
        while k < n
            invariant
                n == parts@.len(),
                k <= n,
                v == s@,
                pipe_parts_ok(parts@, v, n as int),
                ws@.len() == n,
                forall|j: int| 0 <= j < n ==> ws@[j] == pipe_width(#[trigger] parts@[j], v),
                total as int == pipe_wsum(parts@, v),
                bit_pos as int == pipe_wsum(parts@, v) - pipe_wsum(parts@.take(k as int), v),
                out@ == "("@ + pipe_terms(parts@, v, k as int),
            decreases n - k,
        {
            proof {
                lemma_parts_ok(parts@, v, n as int, k as int);
                assert(parts@.take(k + 1).drop_last() =~= parts@.take(k as int));
                lemma_wsum_prefix(parts@, v, k + 1);
                assert(decreases_to!(parts => parts@[k as int]));
            }
            bit_pos = bit_pos - ws[k];
            let val = self.pipeline_sim_expr(&parts[k], s);
            if k > 0 {
                push_str(&mut out, " | ");
            }
            let t = shifted_part_exec(val.as_str(), bit_pos);
            push_str(&mut out, t.as_str());
            proof {
                assert(pipe_terms(parts@, v, k + 1) == pipe_terms(parts@, v, k as int) + (if k + 1 > 1 {
                    " | "@
                } else {
                    Seq::empty()
                }) + shifted_part(
                    pipe_text(parts@[k as int], v),
                    pipe_wsum(parts@, v) - pipe_wsum(parts@.take(k + 1), v),
                ));
            }
            k = k + 1;
        }
        push_str(&mut out, ")");
        out
    }
}

} // verus!
