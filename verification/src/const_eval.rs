//! Folding of constant integer expressions, with parameter identifiers
//! resolved through the defaults of the enclosing construct's parameters.
use vstd::prelude::*;
use vstd::wrapping::u64_specs;
use crate::ast::{
    BinOp, Expr, ExprKind, GenerateDecl, LitKind, ModuleBodyItem, ParamAssign, ParamDecl, ParamKind, UnaryOp,
};
use crate::text::str_eq;

verus! {

broadcast use vstd::seq_lib::seq_to_set_is_finite;

/// The value of an integer literal; typed float literals have none.
pub open spec fn lit_value(l: LitKind) -> Option<u64> {
    match l {
        LitKind::Dec(v) => Some(v),
        LitKind::Hex(v) => Some(v),
        LitKind::Bin(v) => Some(v),
        LitKind::Sized(_, v) => Some(v),
        LitKind::TypedFloat(_, _) => None,
    }
}

/// Number of significant bits of `x`.
pub open spec fn bit_len(x: nat) -> nat
    decreases x,
{
    if x == 0 { 0 } else { 1 + bit_len(x / 2) }
}

/// `$clog2(v)`: 0 for `v <= 1`, else the bit length of `v - 1`.
pub open spec fn clog2(v: u64) -> u64 {
    if v <= 1 { 0 } else { bit_len((v - 1) as nat) as u64 }
}

/// Result of a binary operator on two folded operands, as the generator
/// folds it (wrapping `u64` arithmetic, `None` for a zero divisor and for
/// operators it does not fold).
pub open spec fn bin_eval(op: BinOp, lv: u64, rv: u64) -> Option<u64> {
    match op {
        BinOp::Add => Some(u64_specs::wrapping_add(lv, rv)),
        BinOp::Sub => Some(u64_specs::wrapping_sub(lv, rv)),
        BinOp::Mul => Some(u64_specs::wrapping_mul(lv, rv)),
        BinOp::Div => if rv != 0 { Some(lv / rv) } else { None },
        BinOp::Mod => if rv != 0 { Some(lv % rv) } else { None },
        BinOp::Shl => Some(u64_specs::wrapping_shl(lv, #[verifier::truncate] (rv as u32))),
        BinOp::Shr => Some(u64_specs::wrapping_shr(lv, #[verifier::truncate] (rv as u32))),
        BinOp::BitAnd => Some(lv & rv),
        BinOp::BitOr => Some(lv | rv),
        BinOp::BitXor => Some(lv ^ rv),
        BinOp::Eq => Some(if lv == rv { 1 } else { 0 }),
        BinOp::Neq => Some(if lv != rv { 1 } else { 0 }),
        BinOp::Lt => Some(if lv < rv { 1 } else { 0 }),
        BinOp::Gt => Some(if lv > rv { 1 } else { 0 }),
        BinOp::Lte => Some(if lv <= rv { 1 } else { 0 }),
        BinOp::Gte => Some(if lv >= rv { 1 } else { 0 }),
        BinOp::And => Some(if lv != 0 && rv != 0 { 1 } else { 0 }),
        BinOp::Or => Some(if lv != 0 || rv != 0 { 1 } else { 0 }),
        _ => None,
    }
}

/// Result of a unary operator on a folded operand.
pub open spec fn unary_eval(op: UnaryOp, v: u64) -> Option<u64> {
    match op {
        UnaryOp::Not => Some(!v),
        UnaryOp::Neg => Some(u64_specs::wrapping_sub(0, v)),
        _ => None,
    }
}

/// Names of the parameters.
pub open spec fn param_names(params: Seq<ParamDecl>) -> Set<Seq<char>> {
    params.map_values(|p: ParamDecl| p.name.name@).to_set()
}

/// Position of the first parameter at or after `from` named `n`.
pub open spec fn find_param(params: Seq<ParamDecl>, n: Seq<char>, from: int) -> Option<int>
    decreases params.len() - from,
{
    if from < 0 || from >= params.len() {
        None
    } else if params[from].name.name@ == n {
        Some(from)
    } else {
        find_param(params, n, from + 1)
    }
}

/// A found parameter lies in range and carries the searched name.
pub proof fn lemma_find_param(params: Seq<ParamDecl>, n: Seq<char>, from: int)
    ensures
        find_param(params, n, from) matches Some(i) ==> from <= i < params.len()
            && params[i].name.name@ == n,
    decreases params.len() - from,
{
    if 0 <= from < params.len() && params[from].name.name@ != n {
        lemma_find_param(params, n, from + 1);
    }
}

/// Names held by a stack of visited parameter names.
pub open spec fn name_set(v: Seq<String>) -> Set<Seq<char>> {
    v.map_values(|s: String| s@).to_set()
}

/// The folded value of `e`. A parameter identifier folds to the value of
/// the default of the first parameter of that name; a parameter that is
/// already being folded (`seen`) has no value, so cyclic defaults fold to
/// `None` instead of looping.
pub open spec fn const_eval(e: Expr, params: Seq<ParamDecl>, seen: Set<Seq<char>>) -> Option<u64>
    decreases param_names(params).difference(seen).len(), e,
{
    match e.kind {
        ExprKind::Literal(l) => lit_value(l),
        ExprKind::Ident(n) => {
            match find_param(params, n@, 0) {
                Some(i) => {
                    match params[i].default {
                        Some(d) => {
                            if seen.contains(n@) {
                                None
                            } else {
                                proof {
                                    lemma_find_param(params, n@, 0);
                                    lemma_param_measure_decreases(params, seen, i);
                                }
                                const_eval(d, params, seen.insert(n@))
                            }
                        },
                        None => None,
                    }
                },
                None => None,
            }
        },
        ExprKind::Clog2(a) => {
            match const_eval(*a, params, seen) {
                Some(v) => Some(clog2(v)),
                None => None,
            }
        },
        ExprKind::Unary(op, a) => {
            match const_eval(*a, params, seen) {
                Some(v) => unary_eval(op, v),
                None => None,
            }
        },
        ExprKind::Binary(op, l, r) => {
            match const_eval(*l, params, seen) {
                Some(lv) => match const_eval(*r, params, seen) {
                    Some(rv) => bin_eval(op, lv, rv),
                    None => None,
                },
                None => None,
            }
        },
        ExprKind::Ternary(c, t, f) => {
            match const_eval(*c, params, seen) {
                Some(cv) => if cv != 0 {
                    const_eval(*t, params, seen)
                } else {
                    const_eval(*f, params, seen)
                },
                None => None,
            }
        },
        _ => None,
    }
}

/// Marking a not-yet-visited parameter name as visited shrinks the set of
/// parameter names left to visit.
pub proof fn lemma_param_measure_decreases(params: Seq<ParamDecl>, seen: Set<Seq<char>>, i: int)
    requires
        0 <= i < params.len(),
        !seen.contains(params[i].name.name@),
    ensures
        param_names(params).difference(seen.insert(params[i].name.name@)).len()
            < param_names(params).difference(seen).len(),
{
    let n = params[i].name.name@;
    let a = param_names(params);
    let d = a.difference(seen);
    assert(params.map_values(|p: ParamDecl| p.name.name@)[i] == n);
    assert(a.contains(n));
    assert(d.contains(n));
    assert(a.difference(seen.insert(n)) =~= d.remove(n));
    assert(d.finite());
}

/// The value given to parameter `n` by the last of `assigns` that names it.
pub open spec fn assigned_value(assigns: Seq<ParamAssign>, n: Seq<char>) -> Option<Expr>
    decreases assigns.len(),
{
    if assigns.len() == 0 {
        None
    } else if assigns.last().name.name@ == n {
        Some(assigns.last().value)
    } else {
        assigned_value(assigns.drop_last(), n)
    }
}

/// `params` as an instance sees them: the first parameter of each name
/// that `assigns` names takes the assigned value as its default.
pub open spec fn with_overrides(params: Seq<ParamDecl>, assigns: Seq<ParamAssign>) -> Seq<ParamDecl> {
    Seq::new(
        params.len(),
        |i: int|
            if find_param(params, params[i].name.name@, 0) == Some(i) {
                match assigned_value(assigns, params[i].name.name@) {
                    Some(v) => ParamDecl { name: params[i].name, kind: params[i].kind, default: Some(v) },
                    None => params[i],
                }
            } else {
                params[i]
            },
    )
}

/// Overriding defaults keeps every parameter's name.
proof fn lemma_overrides_keep_names(params: Seq<ParamDecl>, assigns: Seq<ParamAssign>)
    ensures
        with_overrides(params, assigns).len() == params.len(),
        forall|i: int|
            0 <= i < params.len() ==> #[trigger] with_overrides(params, assigns)[i].name == params[i].name,
        param_names(with_overrides(params, assigns)) == param_names(params),
        forall|n: Seq<char>, from: int|
            #[trigger] find_param(with_overrides(params, assigns), n, from) == find_param(params, n, from),
{
    let q = with_overrides(params, assigns);
    assert(q.map_values(|p: ParamDecl| p.name.name@) =~= params.map_values(|p: ParamDecl| p.name.name@));
    assert forall|n: Seq<char>, from: int| #[trigger] find_param(q, n, from) == find_param(params, n, from) by {
        lemma_overrides_find(params, assigns, n, from);
    }
}

proof fn lemma_overrides_find(params: Seq<ParamDecl>, assigns: Seq<ParamAssign>, n: Seq<char>, from: int)
    ensures
        find_param(with_overrides(params, assigns), n, from) == find_param(params, n, from),
    decreases params.len() - from,
{
    if 0 <= from < params.len() {
        lemma_overrides_find(params, assigns, n, from + 1);
    }
}

/// Without assignments the parameters are unchanged.
proof fn lemma_no_overrides(params: Seq<ParamDecl>)
    ensures
        with_overrides(params, Seq::empty()) == params,
{
    assert(with_overrides(params, Seq::empty()) =~= params);
}

/// The last assignment that names `n`.
fn assigned_value_exec<'a>(assigns: &'a [ParamAssign], n: &str) -> (r: Option<&'a Expr>)
    ensures
        match r {
            Some(v) => assigned_value(assigns@, n@) == Some(*v),
            None => assigned_value(assigns@, n@) is None,
        },
{
    let mut i: usize = assigns.len();
    assert(assigns@.take(i as int) =~= assigns@);
    while i > 0
        invariant
            i <= assigns@.len(),
            assigned_value(assigns@, n@) == assigned_value(assigns@.take(i as int), n@),
        decreases i,
    {
        let ghost t = assigns@.take(i as int);
        assert(t.drop_last() =~= assigns@.take(i - 1));
        if str_eq(assigns[i - 1].name.name.as_str(), n) {
            return Some(&assigns[i - 1].value);
        }
        i = i - 1;
    }
    None
}

/// Position of the first parameter named `n`, searching from the start.
fn find_param_exec(params: &[ParamDecl], n: &str) -> (r: Option<usize>)
    ensures
        r matches Some(i) ==> find_param(params@, n@, 0) == Some(i as int),
        r is None ==> find_param(params@, n@, 0) is None,
{
    let mut i: usize = 0;
    while i < params.len()
        invariant
            i <= params@.len(),
            find_param(params@, n@, 0) == find_param(params@, n@, i as int),
        decreases params@.len() - i,
    {
        if str_eq(params[i].name.name.as_str(), n) {
            return Some(i);
        }
        i = i + 1;
    }
    None
}

/// Whether the stack of visited names holds `n`.
fn stack_contains(v: &Vec<String>, n: &str) -> (r: bool)
    ensures
        r == name_set(v@).contains(n@),
{
    let mut i: usize = 0;
    while i < v.len()
        invariant
            i <= v@.len(),
            forall|j: int| 0 <= j < i ==> v@[j]@ != n@,
        decreases v@.len() - i,
    {
        if str_eq(v[i].as_str(), n) {
            assert(v@.map_values(|s: String| s@)[i as int] == n@);
            return true;
        }
        i = i + 1;
    }
    assert forall|x: Seq<char>| name_set(v@).contains(x) implies x != n@ by {
        let m = v@.map_values(|s: String| s@);
        assert(m.contains(x));
        let j = choose|j: int| 0 <= j < m.len() && #[trigger] m[j] == x;
        assert(v@[j]@ == x);
    }
    false
}

/// `$clog2(v)` computed by counting the bits of `v - 1`.
pub fn clog2_exec(v: u64) -> (r: u64)
    ensures
        r == clog2(v),
{
    if v <= 1 {
        return 0;
    }
    let mut x: u64 = v - 1;
    let mut k: u64 = 0;
    proof {
        lemma_bit_len_le(x as nat);
    }
    while x > 0
        invariant
            k + bit_len(x as nat) == bit_len((v - 1) as nat),
            bit_len((v - 1) as nat) <= 64,
        decreases x,
    {
        x = x / 2;
        k = k + 1;
    }
    k
}

/// A `u64` has at most 64 significant bits.
proof fn lemma_bit_len_le(x: nat)
    requires
        x < 0x1_0000_0000_0000_0000,
    ensures
        bit_len(x) <= 64,
{
    vstd::arithmetic::power2::lemma2_to64_rest();
    lemma_bit_len_bound(x, 64);
}

proof fn lemma_bit_len_bound(x: nat, k: nat)
    requires
        x < vstd::arithmetic::power2::pow2(k),
    ensures
        bit_len(x) <= k,
    decreases k,
{
    if x == 0 {
    } else if k == 0 {
        vstd::arithmetic::power2::lemma2_to64();
    } else {
        vstd::arithmetic::power2::lemma_pow2_unfold(k);
        lemma_bit_len_bound(x / 2, (k - 1) as nat);
    }
}

/// Fold `expr` against `params` with the defaults that `assigns` gives,
/// with the parameter names on `seen` already being folded. `seen` is left
/// as it was found.
fn eval_overridden_seen(
    expr: &Expr,
    params: &[ParamDecl],
    assigns: &[ParamAssign],
    seen: &mut Vec<String>,
) -> (r: Option<u64>)
    ensures
        r == const_eval(*expr, with_overrides(params@, assigns@), name_set(old(seen)@)),
        final(seen)@ == old(seen)@,
    decreases param_names(with_overrides(params@, assigns@)).difference(name_set(old(seen)@)).len(), *expr,
{
    match &expr.kind {
        ExprKind::Literal(LitKind::Dec(v)) => Some(*v),
        ExprKind::Literal(LitKind::Hex(v)) => Some(*v),
        ExprKind::Literal(LitKind::Bin(v)) => Some(*v),
        ExprKind::Literal(LitKind::Sized(_, v)) => Some(*v),
        ExprKind::Ident(name) => {
            let found = find_param_exec(params, name.as_str());
            proof {
                lemma_find_param(params@, name@, 0);
                lemma_overrides_keep_names(params@, assigns@);
            }
            match found {
                Some(i) => {
                    let assigned = assigned_value_exec(assigns, name.as_str());
                    let value: Option<&Expr> = match assigned {
                        Some(v) => Some(v),
                        None => match &params[i].default {
                            Some(d) => Some(d),
                            None => None,
                        },
                    };
                    assert(value matches Some(v) ==> with_overrides(params@, assigns@)[i as int].default
                        == Some(*v));
                    assert(value is None ==> with_overrides(params@, assigns@)[i as int].default is None);
                    match value {
                        Some(d) => {
                            if stack_contains(seen, name.as_str()) {
                                return None;
                            }
                            let ghost s0 = seen@;
                            proof {
                                lemma_param_measure_decreases(with_overrides(params@, assigns@), name_set(s0), i as int);
                            }
                            seen.push(name.clone());
                            assert(name_set(seen@) =~= name_set(s0).insert(name@)) by {
                                assert(seen@.map_values(|s: String| s@) =~= s0.map_values(
                                    |s: String| s@,
                                ).push(name@));
                                s0.map_values(|s: String| s@).lemma_push_to_set_commute(name@);
                            }
                            let value = eval_overridden_seen(d, params, assigns, seen);
                            seen.pop();
                            assert(seen@ =~= s0);
                            value
                        },
                        None => None,
                    }
                },
                None => None,
            }
        },
        ExprKind::Clog2(a) => {
            let v = eval_overridden_seen(a, params, assigns, seen);
            match v {
                Some(v) => Some(clog2_exec(v)),
                None => None,
            }
        },
        ExprKind::Unary(op, a) => {
            let v = eval_overridden_seen(a, params, assigns, seen);
            match v {
                Some(v) => match op {
                    UnaryOp::Not => Some(!v),
                    UnaryOp::Neg => Some(0u64.wrapping_sub(v)),
                    _ => None,
                },
                None => None,
            }
        },
        ExprKind::Binary(op, l, r) => {
            let lv = match eval_overridden_seen(l, params, assigns, seen) {
                Some(x) => x,
                None => return None,
            };
            let rv = match eval_overridden_seen(r, params, assigns, seen) {
                Some(x) => x,
                None => return None,
            };
            match op {
                BinOp::Add => Some(lv.wrapping_add(rv)),
                BinOp::Sub => Some(lv.wrapping_sub(rv)),
                BinOp::Mul => Some(lv.wrapping_mul(rv)),
                BinOp::Div => if rv != 0 { Some(lv / rv) } else { None },
                BinOp::Mod => if rv != 0 { Some(lv % rv) } else { None },
                BinOp::Shl => Some(lv.wrapping_shl(#[verifier::truncate] (rv as u32))),
                BinOp::Shr => Some(lv.wrapping_shr(#[verifier::truncate] (rv as u32))),
                BinOp::BitAnd => Some(lv & rv),
                BinOp::BitOr => Some(lv | rv),
                BinOp::BitXor => Some(lv ^ rv),
                BinOp::Eq => Some(if lv == rv { 1 } else { 0 }),
                BinOp::Neq => Some(if lv != rv { 1 } else { 0 }),
                BinOp::Lt => Some(if lv < rv { 1 } else { 0 }),
                BinOp::Gt => Some(if lv > rv { 1 } else { 0 }),
                BinOp::Lte => Some(if lv <= rv { 1 } else { 0 }),
                BinOp::Gte => Some(if lv >= rv { 1 } else { 0 }),
                BinOp::And => Some(if lv != 0 && rv != 0 { 1 } else { 0 }),
                BinOp::Or => Some(if lv != 0 || rv != 0 { 1 } else { 0 }),
                _ => None,
            }
        },
        ExprKind::Ternary(cond, then_expr, else_expr) => {
            let c = match eval_overridden_seen(cond, params, assigns, seen) {
                Some(x) => x,
                None => return None,
            };
            if c != 0 {
                eval_overridden_seen(then_expr, params, assigns, seen)
            } else {
                eval_overridden_seen(else_expr, params, assigns, seen)
            }
        },
        _ => None,
    }
}

/// Fold `expr` with the parameter names on `seen` already being folded.
/// `seen` is left as it was found.
pub fn try_eval_const_expr_with_params_seen(
    expr: &Expr,
    params: &[ParamDecl],
    seen: &mut Vec<String>,
) -> (r: Option<u64>)
    ensures
        r == const_eval(*expr, params@, name_set(old(seen)@)),
        final(seen)@ == old(seen)@,
{
    let none: Vec<ParamAssign> = Vec::new();
    proof {
        lemma_no_overrides(params@);
        assert(none@ =~= Seq::<ParamAssign>::empty());
    }
    eval_overridden_seen(expr, params, none.as_slice(), seen)
}

/// Fold `expr` against `params` with the defaults that an instance's
/// `assigns` gives them; an expression that does not fold gives 0.
pub fn eval_const_expr_with_overrides(expr: &Expr, params: &[ParamDecl], assigns: &[ParamAssign]) -> (r: u64)
    ensures
        r == match const_eval(*expr, with_overrides(params@, assigns@), Set::empty()) {
            Some(v) => v,
            None => 0,
        },
{
    let mut seen: Vec<String> = Vec::new();
    assert(name_set(seen@) =~= Set::<Seq<char>>::empty());
    match eval_overridden_seen(expr, params, assigns, &mut seen) {
        Some(v) => v,
        None => 0,
    }
}

/// Fold `expr` against `params`; `None` when it is not a foldable constant.
pub fn try_eval_const_expr_with_params(expr: &Expr, params: &[ParamDecl]) -> (r: Option<u64>)
    ensures
        r == const_eval(*expr, params@, Set::empty()),
{
    let mut seen: Vec<String> = Vec::new();
    assert(name_set(seen@) =~= Set::<Seq<char>>::empty());
    try_eval_const_expr_with_params_seen(expr, params, &mut seen)
}

/// Fold `expr` against `params`; an expression that does not fold gives 0.
pub fn eval_const_expr_with_params(expr: &Expr, params: &[ParamDecl]) -> (r: u64)
    ensures
        r == match const_eval(*expr, params@, Set::empty()) {
            Some(v) => v,
            None => 0,
        },
{
    match try_eval_const_expr_with_params(expr, params) {
        Some(v) => v,
        None => 0,
    }
}

/// Fold `expr` with no parameters in scope; an expression that does not
/// fold gives 0.
pub fn eval_const_expr(expr: &Expr) -> (r: u64)
    ensures
        r == match const_eval(*expr, Seq::empty(), Set::empty()) {
            Some(v) => v,
            None => 0,
        },
{
    let empty: Vec<ParamDecl> = Vec::new();
    eval_const_expr_with_params(expr, empty.as_slice())
}

/// Whether `e` is built only from literals with `$clog2`, unary and binary
/// operators (no identifiers).
pub open spec fn const_reducible(e: Expr) -> bool
    decreases e,
{
    match e.kind {
        ExprKind::Literal(_) => true,
        ExprKind::Clog2(a) => const_reducible(*a),
        ExprKind::Binary(_, a, b) => const_reducible(*a) && const_reducible(*b),
        ExprKind::Unary(_, a) => const_reducible(*a),
        _ => false,
    }
}

/// Whether `e` is a compile-time constant that the generator can fold
/// without looking at parameters.
pub fn is_const_reducible(e: &Expr) -> (r: bool)
    ensures
        r == const_reducible(*e),
    decreases *e,
{
    match &e.kind {
        ExprKind::Literal(_) => true,
        ExprKind::Clog2(a) => is_const_reducible(a),
        ExprKind::Binary(_, a, b) => is_const_reducible(a) && is_const_reducible(b),
        ExprKind::Unary(_, a) => is_const_reducible(a),
        _ => false,
    }
}

/// The name of `expr` when it is a bare identifier.
pub fn base_ident_name(expr: &Expr) -> (r: Option<&str>)
    ensures
        match expr.kind {
            ExprKind::Ident(n) => r matches Some(s) && s@ == n@,
            _ => r is None,
        },
{
    if let ExprKind::Ident(n) = &expr.kind {
        Some(n.as_str())
    } else {
        None
    }
}

/// Whether the body holds a `generate for` block that elaboration kept.
pub fn module_body_has_preserved_generate(body: &[ModuleBodyItem]) -> (r: bool)
    ensures
        r == exists|i: int|
            0 <= i < body@.len() && (#[trigger] body@[i] matches ModuleBodyItem::Generate(
                GenerateDecl::For(_),
            )),
{
    let mut i: usize = 0;
    while i < body.len()
        invariant
            i <= body@.len(),
            forall|j: int|
                0 <= j < i ==> !(#[trigger] body@[j] matches ModuleBodyItem::Generate(
                    GenerateDecl::For(_),
                )),
        decreases body@.len() - i,
    {
        if let ModuleBodyItem::Generate(GenerateDecl::For(_)) = &body[i] {
            return true;
        }
        i = i + 1;
    }
    false
}

/// Whether a parameter is declared with a floating-point type.
pub open spec fn param_is_float(p: ParamDecl) -> bool {
    match p.kind {
        ParamKind::Logic(t) => (t is BF16) || (t is FP32) || (t is FP8E4M3) || (t is FP8E5M2),
        _ => false,
    }
}

/// Value of an integer-typed parameter's default for a C++ `#define`:
/// the folded default, `None` without a default or when it does not fold.
pub fn eval_param_const_value(p: &ParamDecl, params: &[ParamDecl]) -> (r: Option<u64>)
    requires
        !param_is_float(*p),
    ensures
        r == match p.default {
            Some(d) => const_eval(d, params@, Set::empty()),
            None => None,
        },
{
    match &p.default {
        Some(d) => try_eval_const_expr_with_params(d, params),
        None => None,
    }
}

} // verus!
