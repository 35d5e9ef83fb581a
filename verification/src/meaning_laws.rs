//! What the emitted C++ means: the operators, loops and clock-gate enables
//! of the generated text carry the meaning of the ARCH constructs they
//! come from.
use vstd::prelude::*;
use vstd::arithmetic::power2::pow2;
use vstd::bits::lemma_u64_shl_is_mul;
use crate::ast::{
    BinOp, ClkGateDecl, ClkGateKind, Direction, Expr, ExprKind, FnFor, ForRange, ForLoop, FunctionBodyItem,
    ParamDecl, Span, Stmt, UnaryOp,
};
use crate::clkgate::{clkgate_impl, clock_or, gate_logic};
use crate::const_eval::{bin_eval, const_eval, const_reducible};
use crate::ctx::CtxView;
use crate::functions::{fn_item_text, fn_items_text};
use crate::infer::{float_spec, or_else};
use crate::lowering::{cpp_spec, float_dispatch, op_text};
use crate::pipe_stage::{pipe_stmt, pipe_stmts, spaces};
use crate::pipeline::{pipe_text, PipeView};
use crate::pybind::has_port;

verus! {

/// The value of the C++ binary operator written `sym` on two `uint64_t`
/// operands: arithmetic modulo 2^64, comparisons and logical operators
/// giving 0 or 1, shifts by less than 64; `None` for a division by zero,
/// a longer shift, or text that is not such an operator.
pub open spec fn c_u64_binop(sym: Seq<char>, a: u64, b: u64) -> Option<u64> {
    let m: int = 0x1_0000_0000_0000_0000;
    if sym.len() == 1 {
        let c = sym[0];
        if c == '+' {
            Some(((a + b) % m) as u64)
        } else if c == '-' {
            Some(((a - b + m) % m) as u64)
        } else if c == '*' {
            Some(((a * b) % m) as u64)
        } else if c == '/' {
            if b == 0 { None } else { Some(a / b) }
        } else if c == '%' {
            if b == 0 { None } else { Some(a % b) }
        } else if c == '<' {
            Some(if a < b { 1 } else { 0 })
        } else if c == '>' {
            Some(if a > b { 1 } else { 0 })
        } else if c == '&' {
            Some(a & b)
        } else if c == '|' {
            Some(a | b)
        } else if c == '^' {
            Some(a ^ b)
        } else {
            None
        }
    } else if sym.len() == 2 {
        let c0 = sym[0];
        let c1 = sym[1];
        if c0 == '=' && c1 == '=' {
            Some(if a == b { 1 } else { 0 })
        } else if c0 == '!' && c1 == '=' {
            Some(if a != b { 1 } else { 0 })
        } else if c0 == '<' && c1 == '=' {
            Some(if a <= b { 1 } else { 0 })
        } else if c0 == '>' && c1 == '=' {
            Some(if a >= b { 1 } else { 0 })
        } else if c0 == '&' && c1 == '&' {
            Some(if a != 0 && b != 0 { 1 } else { 0 })
        } else if c0 == '|' && c1 == '|' {
            Some(if a != 0 || b != 0 { 1 } else { 0 })
        } else if c0 == '<' && c1 == '<' {
            if b < 64 { Some(a << b) } else { None }
        } else if c0 == '>' && c1 == '>' {
            if b < 64 { Some(a >> b) } else { None }
        } else {
            None
        }
    } else {
        None
    }
}

/// Every ARCH binary operator is lowered to the C++ operator that computes
/// the same value: on any two 64-bit operands (shift amounts below 64),
/// the C++ operator that a binary node is written with gives what folding
/// the ARCH operator gives (`^` is xor, `|` is or, `<<` shifts left, ...);
/// the wrapping forms are written with the operator of their plain form.
pub proof fn law_binary_operator_keeps_its_meaning(op: BinOp, a: u64, b: u64)
    requires
        !(op is Implies || op is ImpliesNext || op is AddWrap || op is SubWrap || op is MulWrap),
        (op is Shl || op is Shr) ==> b < 64,
    ensures
        c_u64_binop(op_text(op), a, b) == bin_eval(op, a, b),
        op_text(BinOp::AddWrap) == op_text(BinOp::Add),
        op_text(BinOp::SubWrap) == op_text(BinOp::Sub),
        op_text(BinOp::MulWrap) == op_text(BinOp::Mul),
{
    reveal_strlit("+");
    reveal_strlit("-");
    reveal_strlit("*");
    reveal_strlit("/");
    reveal_strlit("%");
    reveal_strlit("==");
    reveal_strlit("!=");
    reveal_strlit("<");
    reveal_strlit(">");
    reveal_strlit("<=");
    reveal_strlit(">=");
    reveal_strlit("&&");
    reveal_strlit("||");
    reveal_strlit("&");
    reveal_strlit("|");
    reveal_strlit("^");
    reveal_strlit("<<");
    reveal_strlit(">>");
    let m: int = 0x1_0000_0000_0000_0000;
    match op {
        BinOp::Add => {
            assert(vstd::wrapping::u64_specs::wrapping_add(a, b) == ((a + b) % m) as u64);
        },
        BinOp::Sub => {
            assert(vstd::wrapping::u64_specs::wrapping_sub(a, b) == ((a - b + m) % m) as u64);
        },
        BinOp::Mul => {
            assert(vstd::wrapping::u64_specs::wrapping_mul(a, b) == ((a * b) % m) as u64);
        },
        BinOp::Shl => {
            let s: u32 = #[verifier::truncate] (b as u32);
            assert(b < 64 ==> (a << (s % 64)) == (a << b)) by (bit_vector)
                requires
                    s == #[verifier::truncate] (b as u32),
            ;
        },
        BinOp::Shr => {
            let s: u32 = #[verifier::truncate] (b as u32);
            assert(b < 64 ==> (a >> (s % 64)) == (a >> b)) by (bit_vector)
                requires
                    s == #[verifier::truncate] (b as u32),
            ;
        },
        _ => {},
    }
}

/// A binary node that is neither an implication, nor a float operation,
/// nor a product, nor a checked division is written `(l OP r)`: the two
/// operand texts around the operator of `law_binary_operator_keeps_its_meaning`.
pub proof fn law_plain_binary_node_text(op: BinOp, l: Expr, r: Expr, span: Span, cv: CtxView)
    requires
        !(op is Implies || op is ImpliesNext || op is Mul || op is MulWrap),
        !float_dispatch(op, or_else(float_spec(l, cv), float_spec(r, cv))),
        (op is Div || op is Mod) ==> const_reducible(r),
    ensures
        cpp_spec(Expr { kind: ExprKind::Binary(op, Box::new(l), Box::new(r)), span }, cv, false) == "("@
            + cpp_spec(l, cv, false) + " "@ + op_text(op) + " "@ + cpp_spec(r, cv, false) + ")"@,
{
}

/// Folding a binary node computes what its C++ operator computes on the
/// folded operands (shift amounts below 64): constant folding and the
/// emitted C++ agree on the value of every plain operator.
pub proof fn law_fold_agrees_with_cpp_operator(
    op: BinOp,
    l: Expr,
    r: Expr,
    span: Span,
    params: Seq<ParamDecl>,
    seen: Set<Seq<char>>,
    lv: u64,
    rv: u64,
)
    requires
        !(op is Implies || op is ImpliesNext || op is AddWrap || op is SubWrap || op is MulWrap),
        (op is Shl || op is Shr) ==> rv < 64,
        const_eval(l, params, seen) == Some(lv),
        const_eval(r, params, seen) == Some(rv),
    ensures
        const_eval(Expr { kind: ExprKind::Binary(op, Box::new(l), Box::new(r)), span }, params, seen)
            == c_u64_binop(op_text(op), lv, rv),
{
    law_binary_operator_keeps_its_meaning(op, lv, rv);
}

/// In a pipeline stage a binary node is `(l OP r)` with the operator of
/// `law_binary_operator_keeps_its_meaning`, and an implication `l -> r`
/// is `(!l || r)`, true unless `l` holds and `r` does not; general
/// lowering writes implications the same way.
pub proof fn law_stage_binary_node_text(op: BinOp, l: Expr, r: Expr, span: Span, v: PipeView, cv: CtxView)
    ensures
        !(op is Implies || op is ImpliesNext) ==> pipe_text(
            Expr { kind: ExprKind::Binary(op, Box::new(l), Box::new(r)), span },
            v,
        ) == "("@ + pipe_text(l, v) + " "@ + op_text(op) + " "@ + pipe_text(r, v) + ")"@,
        (op is Implies || op is ImpliesNext) ==> pipe_text(
            Expr { kind: ExprKind::Binary(op, Box::new(l), Box::new(r)), span },
            v,
        ) == "(!"@ + pipe_text(l, v) + " || "@ + pipe_text(r, v) + ")"@,
        (op is Implies || op is ImpliesNext) ==> cpp_spec(
            Expr { kind: ExprKind::Binary(op, Box::new(l), Box::new(r)), span },
            cv,
            false,
        ) == "(!"@ + cpp_spec(l, cv, false) + " || "@ + cpp_spec(r, cv, false) + ")"@,
{
}

/// Folding `l << r` shifts left: with the operands folding to `lv` and
/// `rv < 64`, and `lv * 2^rv` fitting in 64 bits, the shift folds to
/// `lv * 2^rv` (so `1 << 4` folds to 16).
pub proof fn law_fold_shift_left_multiplies(
    l: Expr,
    r: Expr,
    span: Span,
    params: Seq<ParamDecl>,
    seen: Set<Seq<char>>,
    lv: u64,
    rv: u64,
)
    requires
        const_eval(l, params, seen) == Some(lv),
        const_eval(r, params, seen) == Some(rv),
        rv < 64,
        lv * pow2(rv as nat) <= u64::MAX,
    ensures
        const_eval(Expr { kind: ExprKind::Binary(BinOp::Shl, Box::new(l), Box::new(r)), span }, params, seen)
            == Some((lv * pow2(rv as nat)) as u64),
{
    let s: u32 = #[verifier::truncate] (rv as u32);
    assert(rv < 64 ==> (lv << (s % 64)) == (lv << rv)) by (bit_vector)
        requires
            s == #[verifier::truncate] (rv as u32),
    ;
    lemma_u64_shl_is_mul(lv, rv);
}

/// Logical not is `(!x)`, 1 exactly when `x` is 0: in a pipeline stage and
/// in general expression lowering alike. In a stage it is never the
/// bitwise complement `(~x)` that a bitwise-not node gets, nor the
/// negation `(-x)`.
pub proof fn law_logical_not(a: Expr, span: Span, v: PipeView, cv: CtxView)
    ensures
        pipe_text(Expr { kind: ExprKind::Unary(UnaryOp::Not, Box::new(a)), span }, v) == "(!"@ + pipe_text(
            a,
            v,
        ) + ")"@,
        pipe_text(Expr { kind: ExprKind::Unary(UnaryOp::BitNot, Box::new(a)), span }, v) == "(~"@
            + pipe_text(a, v) + ")"@,
        pipe_text(Expr { kind: ExprKind::Unary(UnaryOp::Neg, Box::new(a)), span }, v) == "(-"@ + pipe_text(
            a,
            v,
        ) + ")"@,
        pipe_text(Expr { kind: ExprKind::Unary(UnaryOp::Not, Box::new(a)), span }, v) != pipe_text(
            Expr { kind: ExprKind::Unary(UnaryOp::BitNot, Box::new(a)), span },
            v,
        ),
        cpp_spec(Expr { kind: ExprKind::Unary(UnaryOp::Not, Box::new(a)), span }, cv, false) == "(!"@
            + cpp_spec(a, cv, false) + ")"@,
{
    reveal_strlit("(!");
    reveal_strlit("(~");
    let t1 = pipe_text(Expr { kind: ExprKind::Unary(UnaryOp::Not, Box::new(a)), span }, v);
    let t2 = pipe_text(Expr { kind: ExprKind::Unary(UnaryOp::BitNot, Box::new(a)), span }, v);
    assert(t1[1] == '!');
    assert(t2[1] == '~');
}

/// A range loop `for v in lo..hi` runs its body for every value from `lo`
/// to `hi` inclusive: in a function body and in a pipeline stage alike it
/// is written with the bound `v <= hi`.
pub proof fn law_range_loops_include_upper_bound(
    fl: FnFor,
    lo: Expr,
    hi: Expr,
    cv: CtxView,
    indent: Seq<char>,
    st: ForLoop,
    v: PipeView,
    ind: nat,
)
    requires
        fl.range == ForRange::Range(lo, hi),
        st.range == ForRange::Range(lo, hi),
    ensures
        fn_item_text(FunctionBodyItem::For(fl), cv, indent) == indent + "for (int "@ + fl.var.name@ + " = "@
            + cpp_spec(lo, cv, false) + "; "@ + fl.var.name@ + " <= "@ + cpp_spec(hi, cv, false) + "; "@
            + fl.var.name@ + "++) {\n"@ + fn_items_text(fl.body@, cv, indent + "  "@) + indent + "}\n"@,
        pipe_stmt(Stmt::For(st), v, ind) == spaces(ind) + "for (int "@ + st.var.name@ + " = "@ + pipe_text(
            lo,
            v,
        ) + "; "@ + st.var.name@ + " <= "@ + pipe_text(hi, v) + "; "@ + st.var.name@ + "++) {\n"@
            + pipe_stmts(st.body@, v, ind + 2) + spaces(ind) + "}\n"@,
{
}

proof fn lemma_latch_enable_split(cin: Seq<char>, cout: Seq<char>)
    ensures
        "  if (!"@ + cin + ") _en_latched = ("@ + "enable | test_en"@ + ") ? 1 : 0;\n"@ + "  "@ + cout + " = "@
            + cin + " & _en_latched;\n"@ == ("  if (!"@ + cin + ") _en_latched = "@) + "(enable | test_en) ? 1 : 0"@
            + (";\n"@ + "  "@ + cout + " = "@ + cin + " & _en_latched;\n"@),
{
    reveal_strlit("(enable | test_en) ? 1 : 0");
    reveal_strlit("enable | test_en");
    reveal_strlit(") ? 1 : 0;\n");
    reveal_strlit(") _en_latched = (");
    reveal_strlit(") _en_latched = ");
    reveal_strlit(";\n");
    let head = "  if (!"@ + cin;
    let tail = "  "@ + cout + " = "@ + cin + " & _en_latched;\n"@;
    let lhs = head + ") _en_latched = ("@ + "enable | test_en"@ + ") ? 1 : 0;\n"@ + tail;
    let rhs = (head + ") _en_latched = "@) + "(enable | test_en) ? 1 : 0"@ + (";\n"@ + tail);
    assert(lhs.len() == rhs.len());
    assert(lhs =~= rhs);
}

proof fn lemma_and_enable_split(cin: Seq<char>, cout: Seq<char>)
    ensures
        "  "@ + cout + " = "@ + cin + " & (("@ + "enable | test_en"@ + ") ? 1 : 0);\n"@ == ("  "@ + cout + " = "@
            + cin + " & ("@) + "(enable | test_en) ? 1 : 0"@ + ");\n"@,
{
    reveal_strlit("(enable | test_en) ? 1 : 0");
    reveal_strlit("enable | test_en");
    reveal_strlit(") ? 1 : 0);\n");
    reveal_strlit(" & ((");
    reveal_strlit(" & (");
    reveal_strlit(");\n");
    let head = "  "@ + cout + " = "@ + cin;
    let lhs = head + " & (("@ + "enable | test_en"@ + ") ? 1 : 0);\n"@;
    let rhs = (head + " & ("@) + "(enable | test_en) ? 1 : 0"@ + ");\n"@;
    assert(lhs =~= rhs);
}

/// A clock gate with a `test_en` port gates with `enable | test_en`: the
/// gated clock follows the input clock whenever `test_en` is 1, whatever
/// the enable, for a latch gate and an AND gate alike.
pub proof fn law_clock_gate_test_enable(c: ClkGateDecl)
    requires
        has_port(c.ports@, "test_en"@),
    ensures
        exists|x: Seq<char>, y: Seq<char>| gate_logic(c) == x + "(enable | test_en) ? 1 : 0"@ + y,
        exists|x: Seq<char>, y: Seq<char>| clkgate_impl(c) == x + "(enable | test_en) ? 1 : 0"@ + y,
{
    let t = "(enable | test_en) ? 1 : 0"@;
    let cin = clock_or(c.ports@, Direction::In, "clk_in"@);
    let cout = clock_or(c.ports@, Direction::Out, "clk_out"@);
    let g = gate_logic(c);
    let (x, y) = match c.kind {
        ClkGateKind::Latch => {
            lemma_latch_enable_split(cin, cout);
            ("  if (!"@ + cin + ") _en_latched = "@, ";\n"@ + "  "@ + cout + " = "@ + cin + " & _en_latched;\n"@)
        },
        ClkGateKind::And => {
            lemma_and_enable_split(cin, cout);
            ("  "@ + cout + " = "@ + cin + " & ("@, ");\n"@)
        },
    };
    assert(g == x + t + y);
    let class = "V"@ + c.name.name@;
    let pre = "#include \""@ + class + ".h\"\n"@ + "void "@ + class + "::eval_comb() {\n"@;
    let post = "}\n"@ + "void "@ + class + "::eval_posedge() {}\n"@ + "void "@ + class
        + "::eval() { eval_comb(); }\n"@;
    assert(clkgate_impl(c) =~= (pre + x) + t + (y + post));
}

} // verus!
