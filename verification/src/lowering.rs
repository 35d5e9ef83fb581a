//! What the expression lowering produces: the C++ text of an expression,
//! its inferred bit width, and when lowering is defined (no arithmetic
//! overflow, no empty shift or division by zero, products that fit the
//! 128-bit carrier).
use vstd::prelude::*;
use crate::ast::{
    BinOp, Expr, ExprKind, ExprMatchArm, FieldInit, InsideMember, LitKind, ParamDecl, Pattern,
    ResetLevel, TypeExpr, UnaryOp,
};
use crate::collect::enum_variant_value;
use crate::const_eval::{const_eval, const_reducible};
use crate::cpp_fmt::{
    bit_range_spec, bit_range_u128_spec, cast_to_bits_spec, cast_to_signed_bits_spec,
    cpp_bits_spec, cpp_sint_spec, cpp_uint_spec, mask_of, wide_words_spec,
};
use crate::ctx::{
    CtxView, expr_is_vec_spec, expr_vec_size_spec, read_signal_spec, resolve_name_spec, vec_path_spec,
    vget, vset,
};
use crate::expr_codegen::FpFmt;
use crate::infer::{eval_width_in_spec, eval_width_spec, float_spec, is_relational_or_logic, or_else, signed_spec};
use crate::text::{dec_str, hex_lower, hex_upper};
use vstd::arithmetic::power2::pow2;

verus! {

/// `"(" + s + ")"`.
pub open spec fn paren(s: Seq<char>) -> Seq<char> {
    "("@ + s + ")"@
}

/// Text of an integer or typed-float literal.
pub open spec fn lit_text(l: LitKind) -> Seq<char> {
    match l {
        LitKind::Dec(v) => dec_str(v as nat),
        LitKind::Hex(v) => "0x"@ + hex_upper(v as nat),
        LitKind::Bin(v) => dec_str(v as nat),
        LitKind::Sized(_, v) => dec_str(v as nat),
        LitKind::TypedFloat(_, bits) => "0x"@ + hex_upper(bits as nat) + "u"@,
    }
}

/// An identifier: an active predicate binder, then a loop variable bound
/// to a constant, then the signal's C++ name.
pub open spec fn ident_text(cv: CtxView, n: Seq<char>, lhs: bool) -> Seq<char> {
    match vget(cv.ident_subst, n) {
        Some(s) => s,
        None => match vget(cv.loop_var_subst, n) {
            Some(v) => dec_str(v as nat),
            None => if lhs {
                resolve_name_spec(cv, n, true)
            } else {
                read_signal_spec(cv, n)
            },
        },
    }
}

/// C++ operator of a binary operator (implications are lowered apart).
pub open spec fn op_text(op: BinOp) -> Seq<char> {
    match op {
        BinOp::Add | BinOp::AddWrap => "+"@,
        BinOp::Sub | BinOp::SubWrap => "-"@,
        BinOp::Mul | BinOp::MulWrap => "*"@,
        BinOp::Div => "/"@,
        BinOp::Mod => "%"@,
        BinOp::Eq => "=="@,
        BinOp::Neq => "!="@,
        BinOp::Lt => "<"@,
        BinOp::Gt => ">"@,
        BinOp::Lte => "<="@,
        BinOp::Gte => ">="@,
        BinOp::And => "&&"@,
        BinOp::Or => "||"@,
        BinOp::BitAnd => "&"@,
        BinOp::BitOr => "|"@,
        BinOp::BitXor => "^"@,
        BinOp::Shl => "<<"@,
        BinOp::Shr => ">>"@,
        BinOp::Implies | BinOp::ImpliesNext => ""@,
    }
}

/// Name of the floating-point helper of an operator, if it has one.
pub open spec fn float_op(op: BinOp) -> Option<Seq<char>> {
    match op {
        BinOp::Add => Some("add"@),
        BinOp::Sub => Some("sub"@),
        BinOp::Mul => Some("mul"@),
        BinOp::Eq => Some("eq"@),
        BinOp::Neq => Some("ne"@),
        BinOp::Lt => Some("lt"@),
        BinOp::Gt => Some("gt"@),
        BinOp::Lte => Some("le"@),
        BinOp::Gte => Some("ge"@),
        _ => None,
    }
}

/// Whether a binary operator is dispatched to a floating-point helper.
pub open spec fn float_dispatch(op: BinOp, fmt: Option<FpFmt>) -> bool {
    fmt is Some && float_op(op) is Some
}

/// Whether a binary node lowers to a 128-bit product.
pub open spec fn is_product(op: BinOp, fmt: Option<FpFmt>) -> bool {
    !(op is Implies || op is ImpliesNext) && !float_dispatch(op, fmt) && (op is Mul || op is MulWrap)
}

/// Bits a product needs: the sum of the operand widths for `*`, their
/// maximum for the wrapping `*%`.
pub open spec fn product_width(op: BinOp, lw: int, rw: int) -> int {
    if op is MulWrap {
        if lw >= rw { lw } else { rw }
    } else {
        lw + rw
    }
}

/// Text of a binary node from the texts, widths and facts of its operands.
pub open spec fn binary_text(
    op: BinOp,
    l: Seq<char>,
    r: Seq<char>,
    lw: int,
    rw: int,
    signed: bool,
    fmt: Option<FpFmt>,
    rhs_const: bool,
    rhs_name: Option<Seq<char>>,
) -> Seq<char> {
    if op is Implies || op is ImpliesNext {
        "(!"@ + l + " || "@ + r + ")"@
    } else if float_dispatch(op, fmt) {
        "_arch_"@ + fmt.unwrap().helper_tag_spec() + "_"@ + float_op(op).unwrap() + "("@ + l
            + ", "@ + r + ")"@
    } else if op is Mul || op is MulWrap {
        let cast = if signed { "__int128_t"@ } else { "_arch_u128"@ };
        let product = "((("@ + cast + ")("@ + l + ")) * (("@ + cast + ")("@ + r + ")))"@;
        if op is MulWrap {
            let bits = product_width(op, lw, rw) as u32;
            if signed {
                cast_to_signed_bits_spec(product, bits)
            } else {
                cast_to_bits_spec(product, bits)
            }
        } else {
            product
        }
    } else if (op is Div || op is Mod) && !rhs_const {
        let loc = match rhs_name {
            Some(n) => n,
            None => "<div>"@,
        };
        let opn = if op is Div { "/"@ } else { "%"@ };
        "(_ARCH_DCHK(("@ + r + "), \""@ + loc + " "@ + opn + "\"), ("@ + l + " "@ + op_text(op) + " "@
            + r + "))"@
    } else {
        "("@ + l + " "@ + op_text(op) + " "@ + r + ")"@
    }
}

/// The name of a bare identifier.
pub open spec fn ident_of(e: Expr) -> Option<Seq<char>> {
    match e.kind {
        ExprKind::Ident(n) => Some(n@),
        _ => None,
    }
}

/// Whether `e` is an identifier recorded as one bit wide (unknown widths
/// count as 32).
pub open spec fn one_bit(e: Expr, cv: CtxView) -> bool {
    match e.kind {
        ExprKind::Ident(n) => (if cv.widths.contains_key(n@) { cv.widths[n@] } else { 32 }) == 1,
        _ => false,
    }
}

/// Text of a unary node from the operand's text and width.
pub open spec fn unary_text(op: UnaryOp, o: Seq<char>, w: u32, is_one_bit: bool) -> Seq<char> {
    match op {
        UnaryOp::Not => "(!"@ + o + ")"@,
        UnaryOp::BitNot => if is_one_bit {
            "(uint8_t)(!("@ + o + "))"@
        } else {
            "(~("@ + o + "))"@
        },
        UnaryOp::Neg => "(-"@ + o + ")"@,
        UnaryOp::RedAnd => if w > 128 {
            let words = wide_words_spec(w);
            let last_bits = w % 32;
            let last_mask = if last_bits == 0 {
                "0xFFFFFFFFU"@
            } else {
                "0x"@ + hex_upper((pow2(last_bits as nat) - 1) as nat) + "U"@
            };
            "[&](){auto& _v="@ + o + ";for(int _i=0;_i<"@ + dec_str(words as nat)
                + "-1;_i++)if(_v._data[_i]!=0xFFFFFFFFU)return(uint8_t)0;return(uint8_t)(_v._data["@
                + dec_str((words - 1) as nat) + "]=="@ + last_mask + "?1:0);}()"@
        } else if w <= 1 {
            "("@ + o + " & 1)"@
        } else {
            let m = hex_lower(mask_of(w as nat) as nat);
            "(uint8_t)(("@ + o + " & 0x"@ + m + "ULL) == 0x"@ + m + "ULL)"@
        },
        UnaryOp::RedOr => if w > 128 {
            "[&](){auto& _v="@ + o + ";for(int _i=0;_i<"@ + dec_str(wide_words_spec(w) as nat)
                + ";_i++)if(_v._data[_i])return(uint8_t)1;return(uint8_t)0;}()"@
        } else {
            "(uint8_t)(("@ + o + ") != 0)"@
        },
        UnaryOp::RedXor => if w > 128 {
            "[&](){auto& _v="@ + o + ";uint8_t _p=0;for(int _i=0;_i<"@ + dec_str(
                wide_words_spec(w) as nat,
            ) + ";_i++)_p^=(uint8_t)__builtin_parity(_v._data[_i]);return _p;}()"@
        } else {
            "(uint8_t)(__builtin_parityll((uint64_t)("@ + o + ")))"@
        },
    }
}

/// Field access on an identifier that needs no lowering of the base:
/// `rst.asserted`, a flattened bus port field, or an instance output.
pub open spec fn ident_field_text(cv: CtxView, bn: Seq<char>, f: Seq<char>, lhs: bool) -> Option<
    Seq<char>,
> {
    if f == "asserted"@ && cv.reset_levels.contains_key(bn) {
        let resolved = resolve_name_spec(cv, bn, false);
        Some(
            if cv.reset_levels[bn] == ResetLevel::Low {
                "(!"@ + resolved + ")"@
            } else {
                resolved
            },
        )
    } else if cv.bus_ports.contains(bn) {
        Some(resolve_name_spec(cv, bn + "_"@ + f, lhs))
    } else if cv.inst_names.contains(bn) {
        Some("_inst_"@ + bn + "."@ + f)
    } else {
        None
    }
}

/// A constant index: an integer literal or a loop variable bound to one.
pub open spec fn index_literal(idx: Expr, cv: CtxView) -> Option<u64> {
    match idx.kind {
        ExprKind::Literal(LitKind::Dec(i)) => Some(i),
        ExprKind::Literal(LitKind::Hex(i)) => Some(i),
        ExprKind::Literal(LitKind::Bin(i)) => Some(i),
        ExprKind::Literal(LitKind::Sized(_, i)) => Some(i),
        ExprKind::Ident(lv) => match vget(cv.loop_var_subst, lv@) {
            Some(v) => Some(v as u64),
            None => None,
        },
        _ => None,
    }
}

/// Runtime-indexed field of a Vec of bus ports.
pub open spec fn bus_port_lane_text(i: Seq<char>, n: u32, arr: Seq<char>, f: Seq<char>) -> Seq<char> {
    "(_ARCH_BCHK(("@ + i + "), "@ + dec_str(n as nat) + ", \""@ + arr + "[i]."@ + f + "\"), "@ + arr
        + "_"@ + f + "["@ + i + "])"@
}

/// Runtime-indexed field of a Vec of bus wires.
pub open spec fn bus_wire_lane_text(i: Seq<char>, n: u32, arr: Seq<char>, f: Seq<char>) -> Seq<char> {
    "(_ARCH_BCHK(("@ + i + "), "@ + dec_str(n as nat) + ", \""@ + arr + "[i]."@ + f + "\"), _let_"@
        + arr + "["@ + i + "]."@ + f + ")"@
}

/// `(<ty>)_arch_vw_bits(<b>.data(), <hi>, <lo>)`.
pub open spec fn vw_bits_text(ty: Seq<char>, b: Seq<char>, hi: Seq<char>, lo: Seq<char>) -> Seq<char> {
    "("@ + ty + ")_arch_vw_bits("@ + b + ".data(), "@ + hi + ", "@ + lo + ")"@
}

/// `.trunc<bits>()`.
pub open spec fn trunc_text(b: Seq<char>, bits: u32, base_w: u32, signed: bool) -> Seq<char> {
    if base_w > 128 && bits <= 64 {
        vw_bits_text(cpp_uint_spec(bits), b, dec_str((bits - 1) as nat), "0"@)
    } else if signed {
        cast_to_signed_bits_spec(b, bits)
    } else {
        cast_to_bits_spec(b, bits)
    }
}

/// `.zext<bits>()`.
pub open spec fn zext_text(b: Seq<char>, bits: u32, base_w: u32) -> Seq<char> {
    if bits > 128 {
        "VlWide<"@ + dec_str(wide_words_spec(bits) as nat) + ">(static_cast<uint64_t>("@ + b + "))"@
    } else if base_w > 128 && bits <= 64 {
        vw_bits_text(cpp_uint_spec(bits), b, dec_str((bits - 1) as nat), "0"@)
    } else {
        "("@ + cpp_uint_spec(bits) + ")("@ + b + ")"@
    }
}

/// `.sext<dst>()` of a `src`-bit value.
pub open spec fn sext_text(b: Seq<char>, dst: u32, src: u32) -> Seq<char> {
    let t = cpp_uint_spec(dst);
    if src >= dst || src == 0 {
        "("@ + t + ")("@ + b + ")"@
    } else {
        "(("@ + b + " >> "@ + dec_str((src - 1) as nat) + ") & 1 ? ("@ + t + ")("@ + b + ") | ("@ + t
            + ")(~(("@ + t + ")0) << "@ + dec_str(src as nat) + ") : ("@ + t + ")("@ + b + "))"@
    }
}

/// `.resize<dst>()` of a `src`-bit value.
pub open spec fn resize_text(b: Seq<char>, dst: u32, src: u32) -> Seq<char> {
    if src >= dst || src == 0 {
        cast_to_bits_spec(b, dst)
    } else {
        "("@ + cpp_uint_spec(dst) + ")("@ + b + ")"@
    }
}

/// `.reverse<chunk>()` of a `w`-bit value.
pub open spec fn reverse_text(b: Seq<char>, w: u32, chunk: u32) -> Seq<char> {
    let ty = cpp_uint_spec(w);
    let ws = dec_str(w as nat);
    if chunk == 1 {
        if w <= 64 {
            "[&]() { "@ + ty + " v = "@ + b + "; "@ + ty + " r = 0; for (int i = 0; i < "@ + ws
                + "; i++) r |= (("@ + ty + ")((v >> i) & 1)) << ("@ + ws + " - 1 - i); return r; }()"@
        } else {
            "[&]() { auto v = "@ + b + "; "@ + ty + " r{}; for (int i = 0; i < "@ + ws
                + "; i++) { int sw = i / 32; int sb = i % 32; int dw = ("@ + ws
                + " - 1 - i) / 32; int db = ("@ + ws
                + " - 1 - i) % 32; if ((v[sw] >> sb) & 1) r[dw] |= (1u << db); } return r; }()"@
        }
    } else {
        let nc = dec_str((w / chunk) as nat);
        let c = dec_str(chunk as nat);
        if w <= 64 {
            "[&]() { "@ + ty + " v = "@ + b + "; "@ + ty + " r = 0; for (int i = 0; i < "@ + nc
                + "; i++) r |= ((v >> (i * "@ + c + ")) & (("@ + ty + ")((1ULL << "@ + c
                + ") - 1))) << (("@ + nc + " - 1 - i) * "@ + c + "); return r; }()"@
        } else {
            "[&]() { auto v = "@ + b + "; "@ + ty + " r{}; for (int ci = 0; ci < "@ + nc
                + "; ci++) for (int bi = 0; bi < "@ + c + "; bi++) { int si = ci * "@ + c
                + " + bi; int di = ("@ + nc + " - 1 - ci) * "@ + c
                + " + bi; int sw = si / 32; int sb = si % 32; int dw = di / 32; int db = di % 32; if ((v[sw] >> sb) & 1) r[dw] |= (1u << db); } return r; }()"@
        }
    }
}

/// `f(b)`.
pub open spec fn call1(f: Seq<char>, b: Seq<char>) -> Seq<char> {
    f + "("@ + b + ")"@
}

/// Conversion of an integer value to a float format through the helpers.
pub open spec fn int_to_f32(b: Seq<char>, signed: bool) -> Seq<char> {
    if signed {
        "_arch_i_to_f32((int64_t)("@ + b + "))"@
    } else {
        "_arch_u_to_f32((uint64_t)("@ + b + "))"@
    }
}

/// Widening of any float format to f32 bits (f32 itself unchanged).
pub open spec fn to_f32_text(b: Seq<char>, fmt: FpFmt) -> Seq<char> {
    match fmt {
        FpFmt::Fp32 => b,
        FpFmt::Bf16 => call1("_arch_bf16_to_f32"@, b),
        FpFmt::E4m3 => call1("_arch_e4m3_to_f32"@, b),
        FpFmt::E5m2 => call1("_arch_e5m2_to_f32"@, b),
    }
}

/// `.to_fp32()`, `.to_bf16()`, `.to_fp8e4m3()` and `.to_fp8e5m2()`: the
/// value's own format unchanged, other formats through exact widening to
/// f32 and one narrowing, integers through the integer helpers.
pub open spec fn fp_conv_text(target: FpFmt, b: Seq<char>, fmt: Option<FpFmt>, signed: bool) -> Seq<
    char,
> {
    match target {
        FpFmt::Fp32 => match fmt {
            Some(f) => to_f32_text(b, f),
            None => int_to_f32(b, signed),
        },
        FpFmt::Bf16 => match fmt {
            Some(FpFmt::Bf16) => b,
            Some(f) => call1("_arch_f32_to_bf16"@, to_f32_text(b, f)),
            None => if signed {
                "_arch_i_to_bf16((int64_t)("@ + b + "))"@
            } else {
                "_arch_u_to_bf16((uint64_t)("@ + b + "))"@
            },
        },
        FpFmt::E4m3 => match fmt {
            Some(FpFmt::E4m3) => b,
            Some(f) => call1("_arch_f32_to_e4m3"@, to_f32_text(b, f)),
            None => call1("_arch_f32_to_e4m3"@, int_to_f32(b, signed)),
        },
        FpFmt::E5m2 => match fmt {
            Some(FpFmt::E5m2) => b,
            Some(f) => call1("_arch_f32_to_e5m2"@, to_f32_text(b, f)),
            None => call1("_arch_f32_to_e5m2"@, int_to_f32(b, signed)),
        },
    }
}

/// `.to_uint<bits>()` / `.to_sint<bits>()`: saturating conversion of the
/// value's f32 bits.
pub open spec fn to_int_text(b: Seq<char>, bits: u32, fmt: Option<FpFmt>, to_signed: bool) -> Seq<
    char,
> {
    let f32bits = match fmt {
        Some(f) => to_f32_text(b, f),
        None => b,
    };
    let conv = if to_signed {
        "_arch_f32_to_sint("@ + f32bits + ", "@ + dec_str(bits as nat) + ")"@
    } else {
        "_arch_f32_to_uint("@ + f32bits + ", "@ + dec_str(bits as nat) + ")"@
    };
    let cast = if to_signed { cpp_sint_spec(bits) } else { cpp_uint_spec(bits) };
    "(("@ + cast + ")("@ + conv + "))"@
}

/// Target format of a float conversion method.
pub open spec fn conv_target(m: Seq<char>) -> Option<FpFmt> {
    if m == "to_fp32"@ {
        Some(FpFmt::Fp32)
    } else if m == "to_bf16"@ {
        Some(FpFmt::Bf16)
    } else if m == "to_fp8e4m3"@ {
        Some(FpFmt::E4m3)
    } else if m == "to_fp8e5m2"@ {
        Some(FpFmt::E5m2)
    } else {
        None
    }
}

/// The Vec methods lowered by unrolling.
pub open spec fn is_vec_method(m: Seq<char>) -> bool {
    m == "any"@ || m == "all"@ || m == "count"@ || m == "contains"@ || m == "reduce_or"@ || m
        == "reduce_and"@ || m == "reduce_xor"@
}

/// The context of predicate iteration `i` of a Vec method on `recv`:
/// `item` is element `i`, `index` is `i`.
pub open spec fn pred_cv(cv: CtxView, recv: Seq<char>, i: nat) -> CtxView {
    CtxView {
        ident_subst: Some(
            Map::<Seq<char>, Seq<char>>::empty().insert(
                "item"@,
                recv + "["@ + dec_str(i) + "]"@,
            ).insert("index"@, dec_str(i)),
        ),
        ..cv
    }
}

/// `ts` joined with `sep`.
pub open spec fn join(ts: Seq<Seq<char>>, sep: Seq<char>) -> Seq<char>
    decreases ts.len(),
{
    if ts.len() == 0 {
        Seq::empty()
    } else if ts.len() == 1 {
        ts[0]
    } else {
        join(ts.drop_last(), sep) + sep + ts.last()
    }
}

/// `n` copies of text `t`.
pub open spec fn copies(t: Seq<char>, n: nat) -> Seq<Seq<char>> {
    Seq::new(n, |i: int| t)
}

/// `<recv>[0]`, ..., `<recv>[n-1]`.
pub open spec fn elems(recv: Seq<char>, n: nat) -> Seq<Seq<char>> {
    Seq::new(n, |i: int| recv + "["@ + dec_str(i as nat) + "]"@)
}

/// `(<recv>[i] == x)` for every element.
pub open spec fn contains_terms(recv: Seq<char>, x: Seq<char>, n: nat) -> Seq<Seq<char>> {
    Seq::new(n, |i: int| "("@ + recv + "["@ + dec_str(i as nat) + "] == "@ + x + ")"@)
}

/// `(t ? 1u : 0u)` for every term.
pub open spec fn count_terms(ts: Seq<Seq<char>>) -> Seq<Seq<char>> {
    ts.map_values(|t: Seq<char>| "("@ + t + " ? 1u : 0u)"@)
}

/// An unrolled Vec method of `n` elements, from the predicate texts (one
/// per element, empty without a predicate) and the lowered `contains`
/// argument.
pub open spec fn vec_method_text(
    m: Seq<char>,
    recv: Seq<char>,
    n: Option<u64>,
    preds: Seq<Seq<char>>,
    has_arg: bool,
    x: Seq<char>,
) -> Seq<char> {
    match n {
        None => recv + "."@ + m + "()"@,
        Some(n) => if m == "any"@ {
            if n == 0 { "false"@ } else { paren(join(preds, " || "@)) }
        } else if m == "all"@ {
            if n == 0 { "true"@ } else { paren(join(preds, " && "@)) }
        } else if m == "count"@ {
            if n == 0 { "0"@ } else { paren(join(count_terms(preds), " + "@)) }
        } else if m == "contains"@ {
            if !has_arg || n == 0 {
                "false"@
            } else {
                paren(join(contains_terms(recv, x, n as nat), " || "@))
            }
        } else if m == "reduce_or"@ {
            if n == 0 { "0"@ } else { paren(join(elems(recv, n as nat), " | "@)) }
        } else if m == "reduce_and"@ {
            if n == 0 { "0"@ } else { paren(join(elems(recv, n as nat), " & "@)) }
        } else if m == "reduce_xor"@ {
            if n == 0 { "0"@ } else { paren(join(elems(recv, n as nat), " ^ "@)) }
        } else {
            recv + "."@ + m + "()"@
        },
    }
}

/// Element count of a Vec method receiver that is a named Vec.
pub open spec fn recv_size(recv: Expr, cv: CtxView) -> Option<u64> {
    match recv.kind {
        ExprKind::Ident(n) => vget(cv.vec_sizes, n@),
        _ => None,
    }
}

/// The width operand of a width-taking method, folded (32 when it does
/// not fold), or `dflt` without one.
pub open spec fn width_arg(args: Seq<Expr>, cv: CtxView, dflt: u32) -> u32 {
    if args.len() > 0 { eval_width_in_spec(args[0], cv) } else { dflt }
}

/// C++ type of a declared type, with widths folded against `params`.
pub open spec fn port_type_spec(ty: TypeExpr, params: Seq<ParamDecl>) -> Seq<char>
    decreases ty,
{
    match ty {
        TypeExpr::UInt(w) => {
            let bits = match const_eval(*w, params, Set::empty()) {
                Some(v) => #[verifier::truncate] (v as u32),
                None => 32u32,
            };
            if bits > 128 {
                "VlWide<"@ + dec_str(wide_words_spec(bits) as nat) + ">"@
            } else {
                cpp_uint_spec(bits)
            }
        },
        TypeExpr::SInt(w) => {
            let bits = match const_eval(*w, params, Set::empty()) {
                Some(v) => #[verifier::truncate] (v as u32),
                None => 32u32,
            };
            if bits > 128 {
                "VlWide<"@ + dec_str(wide_words_spec(bits) as nat) + ">"@
            } else {
                cpp_sint_spec(bits)
            }
        },
        TypeExpr::Named(n) => n.name@,
        TypeExpr::Vec(elem, _) => port_type_spec(*elem, params),
        TypeExpr::FP32 => "uint32_t"@,
        TypeExpr::BF16 => "uint16_t"@,
        _ => "uint8_t"@,
    }
}

/// A cast: signed casts from a narrower value sign-extend through the
/// carrier's top bit.
pub open spec fn cast_text(t: Seq<char>, e: Seq<char>, sint_width: Option<u32>, inner_w: u32) -> Seq<
    char,
> {
    match sint_width {
        Some(w_hdl) => {
            let w_cpp: u32 = if w_hdl <= 8 {
                8
            } else if w_hdl <= 16 {
                16
            } else if w_hdl <= 32 {
                32
            } else if w_hdl <= 64 {
                64
            } else {
                0
            };
            if w_cpp > 0 && inner_w > 0 && inner_w < w_cpp {
                let shift = dec_str((w_cpp - inner_w) as nat);
                "(("@ + t + ")("@ + e + ") << "@ + shift + ") >> "@ + shift
            } else {
                "("@ + t + ")("@ + e + ")"@
            }
        },
        None => "("@ + t + ")("@ + e + ")"@,
    }
}

/// Subscript of a Vec element or a single bit, bounds-checked at run time
/// unless the index is a literal.
pub open spec fn index_text(
    b: Seq<char>,
    i: Seq<char>,
    is_vec: bool,
    limit: u64,
    vec_loc: Seq<char>,
    base_w: u32,
    bit_loc: Seq<char>,
    idx_const: bool,
) -> Seq<char> {
    if is_vec {
        if limit > 0 && !idx_const {
            "(_ARCH_BCHK(("@ + i + "), "@ + dec_str(limit as nat) + ", \""@ + vec_loc + "\"), "@ + b
                + "["@ + i + "])"@
        } else {
            b + "["@ + i + "]"@
        }
    } else {
        if base_w > 0 && !idx_const {
            "(_ARCH_BCHK(("@ + i + "), "@ + dec_str(base_w as nat) + ", \""@ + bit_loc
                + "[i]\"), ((("@ + b + ") >> ("@ + i + ")) & 1))"@
        } else {
            "((("@ + b + ") >> ("@ + i + ")) & 1)"@
        }
    }
}

/// A constant bit slice `[hi:lo]`.
pub open spec fn bitslice_text(b: Seq<char>, h: u32, l: u32, base_w: u32) -> Seq<char> {
    if base_w > 128 {
        let rw = (h - l + 1) as u32;
        let rt = if rw <= 64 { cpp_uint_spec(rw) } else { "uint64_t"@ };
        vw_bits_text(rt, b, dec_str(h as nat), dec_str(l as nat))
    } else if base_w > 64 {
        bit_range_u128_spec(b, h, l)
    } else {
        bit_range_spec(b, h, l)
    }
}

/// Run-time bounds checks of a variable part select (empty for a literal
/// start or an unknown base width).
pub open spec fn part_select_bchk(
    s: Seq<char>,
    w: u32,
    base_w: u32,
    up: bool,
    loc: Seq<char>,
) -> Seq<char> {
    let ws = dec_str(w as nat);
    let bws = dec_str(base_w as nat);
    if up {
        "_ARCH_BCHK((("@ + s + ") + "@ + ws + " - 1), "@ + bws + ", \""@ + loc + "[+:"@ + ws
            + "]\"), "@
    } else {
        "_ARCH_BCHK(("@ + s + "), "@ + bws + ", \""@ + loc + "[-:"@ + ws
            + "] start\"), _ARCH_BCHK(("@ + ws + " - 1), (("@ + s + ") + 1), \""@ + loc + "[-:"@
            + ws + "] underflow\"), "@
    }
}

/// The bits a part select extracts.
pub open spec fn part_select_core(b: Seq<char>, s: Seq<char>, w: u32, base_w: u32, up: bool) -> Seq<
    char,
> {
    let ws = dec_str(w as nat);
    let rt = cpp_uint_spec(w);
    let mask = "0x"@ + hex_lower(mask_of(w as nat) as nat) + "ULL"@;
    if base_w > 128 {
        let hi = if up { "(("@ + s + ") + "@ + ws + " - 1)"@ } else { "("@ + s + ")"@ };
        let lo = if up { "("@ + s + ")"@ } else { "(("@ + s + ") - "@ + ws + " + 1)"@ };
        vw_bits_text(rt, b, hi, lo)
    } else if base_w > 64 {
        if up {
            "("@ + rt + ")(("@ + b + " >> ("@ + s + ")) & "@ + mask + ")"@
        } else {
            "("@ + rt + ")(("@ + b + " >> (("@ + s + ") - "@ + ws + " + 1)) & "@ + mask + ")"@
        }
    } else {
        if up {
            "("@ + rt + ")((uint64_t)("@ + b + ") >> ("@ + s + ") & "@ + mask + ")"@
        } else {
            "("@ + rt + ")((uint64_t)("@ + b + ") >> (("@ + s + ") - "@ + ws + " + 1) & "@ + mask
                + ")"@
        }
    }
}

/// A variable part select `[start +: w]` (`up`) or `[start -: w]`, with
/// run-time bounds checks unless the start is a literal.
pub open spec fn part_select_text(
    b: Seq<char>,
    s: Seq<char>,
    w: u32,
    base_w: u32,
    up: bool,
    start_const: bool,
    loc: Seq<char>,
) -> Seq<char> {
    let core = part_select_core(b, s, w, base_w, up);
    if base_w > 0 && !start_const {
        "("@ + part_select_bchk(s, w, base_w, up, loc) + core + ")"@
    } else {
        core
    }
}

/// An enum variant: its encoding, or an undeclared token that makes the
/// C++ compiler report an enum missing from the map.
pub open spec fn enum_text(cv: CtxView, en: Seq<char>, vr: Seq<char>) -> Seq<char> {
    if cv.enum_map.contains_key(en) {
        dec_str(
            match enum_variant_value(cv.enum_map, en, vr) {
                Some(v) => v as nat,
                None => 0,
            },
        )
    } else {
        "_ARCH_CODEGEN_ERROR_unknown_enum_"@ + en + "_"@ + vr
    }
}

/// `signed(x)` of a `w`-bit value: a signed cast, sign-extended from bit
/// `w - 1` when the carrier is wider.
pub open spec fn signed_text(ic: Seq<char>, w: u32) -> Seq<char> {
    if w == 0 || w > 64 {
        ic
    } else {
        let w_cpp = cpp_bits_spec(w);
        if w < w_cpp {
            let pad = dec_str((w_cpp - w) as nat);
            "((("@ + cpp_sint_spec(w) + ")("@ + ic + ") << "@ + pad + ") >> "@ + pad + ")"@
        } else {
            "(("@ + cpp_sint_spec(w) + ")("@ + ic + "))"@
        }
    }
}

/// `unsigned(x)` of a `w`-bit value.
pub open spec fn unsigned_text(ic: Seq<char>, w: u32) -> Seq<char> {
    if w == 0 || w > 64 {
        ic
    } else {
        "(("@ + cpp_uint_spec(w) + ")("@ + ic + "))"@
    }
}

/// The text of a statement-less `todo!` at simulation time.
pub open spec fn todo_text() -> Seq<char> {
    "(fprintf(stderr, \"ARCH: todo! reached at sim runtime\\n\"), abort(), 0)"@
}

/// The format of an `fma` call: that of its first float operand, f32 by
/// default.
pub open spec fn fma_fmt(a: Expr, b: Expr, c: Expr, cv: CtxView) -> FpFmt {
    match or_else(float_spec(a, cv), or_else(float_spec(b, cv), float_spec(c, cv))) {
        Some(f) => f,
        None => FpFmt::Fp32,
    }
}

/// The literal a `let` binds, when a match pattern names it.
pub open spec fn folded_let(cv: CtxView, n: Seq<char>) -> Option<LitKind> {
    match vget(cv.let_values, n) {
        Some(e) => match e.kind {
            ExprKind::Literal(l) => Some(l),
            _ => None,
        },
        None => None,
    }
}

/// One arm of a match expression folded into the ternary chain `rest`.
pub open spec fn arm_text(
    cv: CtxView,
    s: Seq<char>,
    p: Pattern,
    val: Seq<char>,
    lit: Seq<char>,
    rest: Seq<char>,
) -> Seq<char> {
    match p {
        Pattern::Wildcard => val,
        Pattern::Ident(id) => match folded_let(cv, id.name@) {
            Some(l) => "(("@ + s + " == "@ + lit_text(l) + ") ? "@ + val + " : "@ + rest + ")"@,
            None => val,
        },
        Pattern::Literal(_) => "(("@ + s + " == "@ + lit + ") ? "@ + val + " : "@ + rest + ")"@,
        Pattern::EnumVariant(en, vr) => {
            let idx = if cv.enum_map.contains_key(en.name@) {
                match enum_variant_value(cv.enum_map, en.name@, vr.name@) {
                    Some(v) => v as nat,
                    None => 0,
                }
            } else {
                0
            };
            "(("@ + s + " == "@ + dec_str(idx) + ") ? "@ + val + " : "@ + rest + ")"@
        },
    }
}

/// `(s == v)` or `(s >= lo && s <= hi)`.
pub open spec fn single_text(s: Seq<char>, v: Seq<char>) -> Seq<char> {
    "("@ + s + " == "@ + v + ")"@
}

pub open spec fn range_text(s: Seq<char>, l: Seq<char>, h: Seq<char>) -> Seq<char> {
    "("@ + s + " >= "@ + l + " && "@ + s + " <= "@ + h + ")"@
}

/// One part of a concatenation placed at bit `off`: into a `VlWide` of
/// `words` words, or into a 128-bit or 64-bit carrier.
pub open spec fn concat_term(val: Seq<char>, off: int, total: int) -> Seq<char> {
    if total > 128 {
        "_r = _r | (VlWide<"@ + dec_str(wide_words_spec(total as u32) as nat)
            + ">(static_cast<uint64_t>("@ + val + ")) << "@ + dec_str(off as nat) + ");"@
    } else if total > 64 {
        "((_arch_u128)(uint64_t)("@ + val + ") << "@ + dec_str(off as nat) + ")"@
    } else {
        "((uint64_t)("@ + val + ") << "@ + dec_str(off as nat) + ")"@
    }
}

/// A concatenation from its placed parts (least significant first).
pub open spec fn concat_text(terms: Seq<Seq<char>>, total: int) -> Seq<char> {
    if total > 128 {
        let words = dec_str(wide_words_spec(total as u32) as nat);
        "[&]() -> VlWide<"@ + words + "> { VlWide<"@ + words + "> _r{}; "@ + join(terms, " "@)
            + " return _r; }()"@
    } else {
        paren(join(terms, " | "@))
    }
}

/// A struct field initialiser inside the struct literal's lambda.
pub open spec fn field_init_text(name: Seq<char>, v: Seq<char>) -> Seq<char> {
    "_t."@ + name + " = "@ + v + "; "@
}

/// The C++ text of an expression, as a value (`lhs` false) or as an
/// assignment target (`lhs` true).
pub open spec fn cpp_spec(e: Expr, cv: CtxView, lhs: bool) -> Seq<char>
    decreases e, 0int, 0int,
{
    match e.kind {
        ExprKind::LatencyAt(i, _) => cpp_spec(*i, cv, lhs),
        ExprKind::SvaNext(_, i) => cpp_spec(*i, cv, lhs),
        ExprKind::SynthIdent(n) => n@,
        ExprKind::Literal(l) => lit_text(l),
        ExprKind::Bool(b) => if b { "1"@ } else { "0"@ },
        ExprKind::Ident(n) => ident_text(cv, n@, lhs),
        ExprKind::Binary(op, l, r) => binary_text(
            op,
            cpp_spec(*l, cv, false),
            cpp_spec(*r, cv, false),
            width_spec(*l, cv),
            width_spec(*r, cv),
            signed_spec(*l, cv) || signed_spec(*r, cv),
            or_else(float_spec(*l, cv), float_spec(*r, cv)),
            const_reducible(*r),
            ident_of(*r),
        ),
        ExprKind::Unary(op, a) => unary_text(
            op,
            cpp_spec(*a, cv, false),
            width_spec(*a, cv) as u32,
            one_bit(*a, cv),
        ),
        ExprKind::FieldAccess(b, f) => {
            let fallback = cpp_spec(*b, cv, lhs) + "."@ + f.name@;
            match b.kind {
                ExprKind::Ident(bn) => match ident_field_text(cv, bn@, f.name@, lhs) {
                    Some(t) => t,
                    None => fallback,
                },
                ExprKind::Index(arr, idx) => match arr.kind {
                    ExprKind::Ident(an) => match index_literal(*idx, cv) {
                        Some(i) => if cv.bus_ports.contains(an@ + "_"@ + dec_str(i as nat)) {
                            an@ + "_"@ + dec_str(i as nat) + "_"@ + f.name@
                        } else {
                            fallback
                        },
                        None => match vget(cv.vec_of_bus_port_count, an@) {
                            Some(n) => bus_port_lane_text(cpp_spec(*idx, cv, false), n, an@, f.name@),
                            None => match vget(cv.vec_of_bus_wire_count, an@) {
                                Some(n) => bus_wire_lane_text(
                                    cpp_spec(*idx, cv, false),
                                    n,
                                    an@,
                                    f.name@,
                                ),
                                None => fallback,
                            },
                        },
                    },
                    _ => fallback,
                },
                _ => fallback,
            }
        },
        ExprKind::MethodCall(base, m, args) => {
            let b = cpp_spec(*base, cv, false);
            let mn = m.name@;
            if mn == "trunc"@ {
                if args@.len() > 0 {
                    trunc_text(
                        b,
                        eval_width_in_spec(args@[0], cv),
                        width_spec(*base, cv) as u32,
                        signed_spec(*base, cv),
                    )
                } else {
                    b
                }
            } else if mn == "zext"@ {
                if args@.len() > 0 {
                    zext_text(b, eval_width_in_spec(args@[0], cv), width_spec(*base, cv) as u32)
                } else {
                    b
                }
            } else if mn == "sext"@ {
                if args@.len() > 0 {
                    sext_text(b, eval_width_in_spec(args@[0], cv), width_spec(*base, cv) as u32)
                } else {
                    b
                }
            } else if mn == "resize"@ {
                if args@.len() > 0 {
                    resize_text(b, eval_width_in_spec(args@[0], cv), width_spec(*base, cv) as u32)
                } else {
                    b
                }
            } else if mn == "reverse"@ {
                reverse_text(b, width_spec(*base, cv) as u32, width_arg(args@, cv, 1))
            } else if is_vec_method(mn) {
                let n = recv_size(*base, cv);
                let k: nat = match n {
                    Some(v) => v as nat,
                    None => 0,
                };
                let preds = if args@.len() > 0 {
                    pred_terms(args@[0], cv, b, k)
                } else {
                    copies(Seq::empty(), k)
                };
                let x = if args@.len() > 0 {
                    cpp_spec(args@[0], cv, false)
                } else {
                    Seq::empty()
                };
                vec_method_text(mn, b, n, preds, args@.len() > 0, x)
            } else if conv_target(mn) is Some {
                fp_conv_text(
                    conv_target(mn).unwrap(),
                    b,
                    float_spec(*base, cv),
                    signed_spec(*base, cv),
                )
            } else if mn == "to_uint"@ || mn == "to_sint"@ {
                to_int_text(b, width_arg(args@, cv, 32), float_spec(*base, cv), mn == "to_sint"@)
            } else {
                b + "."@ + mn + "()"@
            }
        },
        ExprKind::Cast(inner, ty) => cast_text(
            port_type_spec(*ty, cv.params),
            cpp_spec(*inner, cv, false),
            match *ty {
                TypeExpr::SInt(w) => Some(eval_width_in_spec(*w, cv)),
                _ => None,
            },
            width_spec(*inner, cv) as u32,
        ),
        ExprKind::Index(base, idx) => index_text(
            cpp_spec(*base, cv, lhs),
            cpp_spec(*idx, cv, false),
            expr_is_vec_spec(*base, cv),
            match expr_vec_size_spec(*base, cv) {
                Some(v) => v,
                None => 0,
            },
            match vec_path_spec(*base, cv) {
                Some(p) => p,
                None => "<vec>"@,
            },
            width_spec(*base, cv) as u32,
            match ident_of(*base) {
                Some(n) => n,
                None => "<bitsel>"@,
            },
            idx.kind is Literal,
        ),
        ExprKind::BitSlice(base, hi, lo) => bitslice_text(
            cpp_spec(*base, cv, false),
            eval_width_in_spec(*hi, cv),
            eval_width_in_spec(*lo, cv),
            width_spec(*base, cv) as u32,
        ),
        ExprKind::PartSelect(base, start, w, up) => part_select_text(
            cpp_spec(*base, cv, false),
            cpp_spec(*start, cv, false),
            eval_width_in_spec(*w, cv),
            width_spec(*base, cv) as u32,
            up,
            start.kind is Literal,
            match ident_of(*base) {
                Some(n) => n,
                None => "<partsel>"@,
            },
        ),
        ExprKind::EnumVariant(en, vr) => enum_text(cv, en.name@, vr.name@),
        ExprKind::StructLiteral(name, fields) => "[&](){ "@ + name.name@ + " _t; "@ + fields_text(
            fields@,
            cv,
        ) + "return _t; }()"@,
        ExprKind::Todo => todo_text(),
        ExprKind::Concat(parts) => if parts@.len() == 0 {
            "0"@
        } else {
            let total = widths_sum(parts@, cv);
            concat_text(concat_terms(parts@, cv, parts@.len() as int, 0, total), total)
        },
        ExprKind::Repeat(c, v) => "_arch_repeat((uint64_t)("@ + cpp_spec(*v, cv, false) + "), "@
            + cpp_spec(*c, cv, false) + ", "@ + dec_str(width_spec(*v, cv) as nat) + ")"@,
        ExprKind::Clog2(a) => "_arch_clog2("@ + cpp_spec(*a, cv, false) + ")"@,
        ExprKind::Onehot(a) => "(1ULL << "@ + cpp_spec(*a, cv, false) + ")"@,
        ExprKind::Signed(i) => signed_text(cpp_spec(*i, cv, false), width_spec(*i, cv) as u32),
        ExprKind::Unsigned(i) => unsigned_text(cpp_spec(*i, cv, false), width_spec(*i, cv) as u32),
        ExprKind::Ternary(c, t, f) => "(("@ + cpp_spec(*c, cv, false) + ") ? ("@ + cpp_spec(
            *t,
            cv,
            false,
        ) + ") : ("@ + cpp_spec(*f, cv, false) + "))"@,
        ExprKind::FunctionCall(name, args) => call_text(name@, args@, cv),
        ExprKind::ExprMatch(s, arms) => match_chain(arms@, cpp_spec(*s, cv, false), cv),
        ExprKind::Inside(s, ms) => if ms@.len() == 0 {
            "0"@
        } else {
            paren(join(inside_terms(ms@, cpp_spec(*s, cv, false), cv), " || "@))
        },
    }
}

/// Bit width of an expression as the lowering infers it (8 where nothing
/// is known).
pub open spec fn width_spec(e: Expr, cv: CtxView) -> int
    decreases e, 1int, 0int,
{
    match e.kind {
        ExprKind::Ident(n) => if cv.widths.contains_key(n@) {
            cv.widths[n@] as int
        } else {
            8
        },
        ExprKind::LatencyAt(i, _) => width_spec(*i, cv),
        ExprKind::SvaNext(_, i) => width_spec(*i, cv),
        ExprKind::Literal(LitKind::Sized(w, _)) => w as int,
        ExprKind::Literal(_) => 32,
        ExprKind::Bool(_) => 1,
        ExprKind::MethodCall(b, m, args) => if m.name@ == "reverse"@ {
            width_spec(*b, cv)
        } else if m.name@ == "trunc"@ || m.name@ == "zext"@ || m.name@ == "sext"@ || m.name@
            == "resize"@ {
            width_arg(args@, cv, 8) as int
        } else {
            8
        },
        ExprKind::BitSlice(_, hi, lo) => eval_width_in_spec(*hi, cv) - eval_width_in_spec(*lo, cv)
            + 1,
        ExprKind::PartSelect(_, _, w, _) => eval_width_in_spec(*w, cv) as int,
        ExprKind::Cast(_, ty) => match *ty {
            TypeExpr::UInt(w) => eval_width_in_spec(*w, cv) as int,
            TypeExpr::SInt(w) => eval_width_in_spec(*w, cv) as int,
            _ => 8,
        },
        ExprKind::Concat(parts) => widths_sum(parts@, cv),
        ExprKind::Index(b, _) => index_width(*b, cv),
        ExprKind::Repeat(c, v) => eval_width_spec(*c) * width_spec(*v, cv),
        ExprKind::Binary(op, l, r) => if is_relational_or_logic(op) {
            1
        } else if op is Shl || op is Shr {
            width_spec(*l, cv)
        } else {
            let lw = width_spec(*l, cv);
            let rw = width_spec(*r, cv);
            if lw >= rw { lw } else { rw }
        },
        ExprKind::Unary(op, _) => if op is BitNot || op is Neg {
            8
        } else {
            1
        },
        ExprKind::Ternary(_, t, _) => width_spec(*t, cv),
        ExprKind::Signed(i) => width_spec(*i, cv),
        ExprKind::Unsigned(i) => width_spec(*i, cv),
        ExprKind::FieldAccess(b, f) => {
            let key = match field_base_name(*b) {
                Some(n) => n + "."@ + f.name@,
                None => Seq::empty(),
            };
            if field_base_name(*b) is Some && cv.widths.contains_key(key) {
                cv.widths[key] as int
            } else {
                let flat = cpp_spec(e, cv, false);
                if cv.widths.contains_key(flat) {
                    cv.widths[flat] as int
                } else {
                    8
                }
            }
        },
        _ => 8,
    }
}

/// Name whose `<name>.<field>` width key a field access consults: an
/// identifier, or the Vec identifier of an element select.
pub open spec fn field_base_name(b: Expr) -> Option<Seq<char>> {
    match b.kind {
        ExprKind::Ident(n) => Some(n@),
        ExprKind::Index(bb, _) => match bb.kind {
            ExprKind::Ident(n) => Some(n@),
            _ => None,
        },
        _ => None,
    }
}

/// Width of an element select: a Vec element's width (total over count)
/// when both are known, else one bit.
pub open spec fn index_width(b: Expr, cv: CtxView) -> int {
    match vec_path_spec(b, cv) {
        Some(bn) => if vset(cv.vec_names, bn) {
            let total: u32 = if cv.widths.contains_key(bn) { cv.widths[bn] } else { 0 };
            let count: u64 = match vget(cv.vec_sizes, bn) {
                Some(c) => c,
                None => 0,
            };
            if count > 0 && total > 0 {
                (total as u64 / count) as int
            } else {
                1
            }
        } else {
            1
        },
        None => 1,
    }
}

/// A function call: `fma` and `is_nan` through the float helpers of the
/// format of their operands (f32 by default), any other function by name.
pub open spec fn call_text(name: Seq<char>, args: Seq<Expr>, cv: CtxView) -> Seq<char>
    decreases args, 1int, 0int,
{
    if name == "fma"@ && args.len() == 3 {
        "_arch_fma_"@ + fma_fmt(args[0], args[1], args[2], cv).helper_tag_spec() + "("@ + cpp_spec(
            args[0],
            cv,
            false,
        ) + ", "@ + cpp_spec(args[1], cv, false) + ", "@ + cpp_spec(args[2], cv, false) + ")"@
    } else if name == "is_nan"@ && args.len() == 1 {
        let fmt = match float_spec(args[0], cv) {
            Some(f) => f,
            None => FpFmt::Fp32,
        };
        "_arch_"@ + fmt.helper_tag_spec() + "_isnan("@ + cpp_spec(args[0], cv, false) + ")"@
    } else {
        name + "("@ + join(cpps(args, cv), ", "@) + ")"@
    }
}

/// Sum of the widths of `es`.
pub open spec fn widths_sum(es: Seq<Expr>, cv: CtxView) -> int
    decreases es, 0int, 0int,
{
    if es.len() == 0 {
        0
    } else {
        widths_sum(es.drop_last(), cv) + width_spec(es.last(), cv)
    }
}

/// Texts of `es`.
pub open spec fn cpps(es: Seq<Expr>, cv: CtxView) -> Seq<Seq<char>>
    decreases es, 0int, 0int,
{
    if es.len() == 0 {
        Seq::empty()
    } else {
        cpps(es.drop_last(), cv).push(cpp_spec(es.last(), cv, false))
    }
}

/// The first `k` parts of a concatenation placed from part `k - 1` (at
/// bit `off`) back to part 0.
pub open spec fn concat_terms(parts: Seq<Expr>, cv: CtxView, k: int, off: int, total: int) -> Seq<
    Seq<char>,
>
    decreases parts, 0int, k,
{
    if k <= 0 || k > parts.len() {
        Seq::empty()
    } else {
        seq![concat_term(cpp_spec(parts[k - 1], cv, false), off, total)] + concat_terms(
            parts,
            cv,
            k - 1,
            off + width_spec(parts[k - 1], cv),
            total,
        )
    }
}

/// Field initialisers of a struct literal.
pub open spec fn fields_text(fs: Seq<FieldInit>, cv: CtxView) -> Seq<char>
    decreases fs, 0int, 0int,
{
    if fs.len() == 0 {
        Seq::empty()
    } else {
        fields_text(fs.drop_last(), cv) + field_init_text(
            fs.last().name.name@,
            cpp_spec(fs.last().value, cv, false),
        )
    }
}

/// Text of the comparison literal of an arm's pattern, when it has one.
pub open spec fn pattern_lit(p: Pattern, cv: CtxView) -> Seq<char>
    decreases p, 0int, 0int,
{
    match p {
        Pattern::Literal(e) => cpp_spec(e, cv, false),
        _ => Seq::empty(),
    }
}

/// The ternary chain of match arms over the scrutinee text `s`; the last
/// default is `0`.
pub open spec fn match_chain(arms: Seq<ExprMatchArm>, s: Seq<char>, cv: CtxView) -> Seq<char>
    decreases arms, 0int, 0int,
{
    if arms.len() == 0 {
        "0"@
    } else {
        arm_text(
            cv,
            s,
            arms[0].pattern,
            cpp_spec(arms[0].value, cv, false),
            pattern_lit(arms[0].pattern, cv),
            match_chain(arms.subrange(1, arms.len() as int), s, cv),
        )
    }
}

/// Membership tests of `inside` over the scrutinee text `s`.
pub open spec fn inside_terms(ms: Seq<InsideMember>, s: Seq<char>, cv: CtxView) -> Seq<Seq<char>>
    decreases ms, 0int, 0int,
{
    if ms.len() == 0 {
        Seq::empty()
    } else {
        inside_terms(ms.drop_last(), s, cv).push(
            match ms.last() {
                InsideMember::Single(v) => single_text(s, cpp_spec(v, cv, false)),
                InsideMember::Range(l, h) => range_text(
                    s,
                    cpp_spec(l, cv, false),
                    cpp_spec(h, cv, false),
                ),
            },
        )
    }
}

/// The predicate lowered for elements `0..k` of the Vec `recv`.
pub open spec fn pred_terms(pred: Expr, cv: CtxView, recv: Seq<char>, k: nat) -> Seq<Seq<char>>
    decreases pred, 2int, k,
{
    if k == 0 {
        Seq::empty()
    } else {
        pred_terms(pred, cv, recv, (k - 1) as nat).push(
            cpp_spec(pred, pred_cv(cv, recv, (k - 1) as nat), false),
        )
    }
}


/// Whether a declared type is a signed integer.
pub open spec fn is_sint(t: TypeExpr) -> bool {
    match t {
        TypeExpr::SInt(_) => true,
        _ => false,
    }
}

/// The folded `[hi:lo]` bounds of a bit slice form a non-empty range whose
/// width fits a `u32`.
pub open spec fn slice_ok(hi: Expr, lo: Expr, cv: CtxView) -> bool {
    eval_width_in_spec(lo, cv) <= eval_width_in_spec(hi, cv) < u32::MAX
}

/// Width inference of `e` is defined: every width it adds, subtracts or
/// multiplies stays within `u32`.
pub open spec fn width_ok(e: Expr, cv: CtxView) -> bool
    decreases e, 1int, 0int,
{
    match e.kind {
        ExprKind::LatencyAt(i, _) => width_ok(*i, cv),
        ExprKind::SvaNext(_, i) => width_ok(*i, cv),
        ExprKind::MethodCall(b, m, _) => m.name@ == "reverse"@ ==> width_ok(*b, cv),
        ExprKind::BitSlice(_, hi, lo) => slice_ok(*hi, *lo, cv),
        ExprKind::Concat(parts) => widths_ok(parts@, cv) && widths_sum(parts@, cv) <= u32::MAX,
        ExprKind::Repeat(c, v) => width_ok(*v, cv) && eval_width_spec(*c) * width_spec(*v, cv)
            <= u32::MAX,
        ExprKind::Binary(op, l, r) => if is_relational_or_logic(op) {
            true
        } else if op is Shl || op is Shr {
            width_ok(*l, cv)
        } else {
            width_ok(*l, cv) && width_ok(*r, cv)
        },
        ExprKind::Ternary(_, t, _) => width_ok(*t, cv),
        ExprKind::Signed(i) => width_ok(*i, cv),
        ExprKind::Unsigned(i) => width_ok(*i, cv),
        ExprKind::FieldAccess(b, f) => {
            let key = match field_base_name(*b) {
                Some(n) => n + "."@ + f.name@,
                None => Seq::empty(),
            };
            (field_base_name(*b) is Some && cv.widths.contains_key(key)) || lower_ok(e, cv, false)
        },
        _ => true,
    }
}

/// Width inference is defined on every expression of `es`.
pub open spec fn widths_ok(es: Seq<Expr>, cv: CtxView) -> bool
    decreases es, 0int, 0int,
{
    es.len() == 0 || (widths_ok(es.drop_last(), cv) && width_ok(es.last(), cv))
}

/// Lowering is defined on every expression of `es`.
pub open spec fn lowers_ok(es: Seq<Expr>, cv: CtxView) -> bool
    decreases es, 0int, 0int,
{
    es.len() == 0 || (lowers_ok(es.drop_last(), cv) && lower_ok(es.last(), cv, false))
}

/// Lowering is defined on every field value of a struct literal.
pub open spec fn fields_ok(fs: Seq<FieldInit>, cv: CtxView) -> bool
    decreases fs, 0int, 0int,
{
    fs.len() == 0 || (fields_ok(fs.drop_last(), cv) && lower_ok(fs.last().value, cv, false))
}

/// Lowering is defined on every arm value and pattern literal.
pub open spec fn arms_ok(arms: Seq<ExprMatchArm>, cv: CtxView) -> bool
    decreases arms, 0int, 0int,
{
    arms.len() == 0 || (arms_ok(arms.drop_last(), cv) && lower_ok(arms.last().value, cv, false)
        && match arms.last().pattern {
        Pattern::Literal(pe) => lower_ok(pe, cv, false),
        _ => true,
    })
}

/// Lowering is defined on every member of an `inside` set.
pub open spec fn members_ok(ms: Seq<InsideMember>, cv: CtxView) -> bool
    decreases ms, 0int, 0int,
{
    ms.len() == 0 || (members_ok(ms.drop_last(), cv) && match ms.last() {
        InsideMember::Single(v) => lower_ok(v, cv, false),
        InsideMember::Range(l, h) => lower_ok(l, cv, false) && lower_ok(h, cv, false),
    })
}

/// Lowering of a Vec method predicate is defined for elements `0..k`.
pub open spec fn preds_ok(pred: Expr, cv: CtxView, recv: Seq<char>, k: nat) -> bool
    decreases pred, 2int, k,
{
    k == 0 || (preds_ok(pred, cv, recv, (k - 1) as nat) && lower_ok(
        pred,
        pred_cv(cv, recv, (k - 1) as nat),
        false,
    ))
}

/// Lowering of `e` is defined: no width arithmetic overflows, no shift
/// by the full carrier width, no division by a zero chunk, no empty
/// width where one bit is taken away, and every product fits the 128-bit
/// carrier (the simulator cannot compute wider products).
pub open spec fn lower_ok(e: Expr, cv: CtxView, lhs: bool) -> bool
    decreases e, 0int, 0int,
{
    match e.kind {
        ExprKind::LatencyAt(i, _) => lower_ok(*i, cv, lhs),
        ExprKind::SvaNext(_, i) => lower_ok(*i, cv, lhs),
        ExprKind::Binary(op, l, r) => lower_ok(*l, cv, false) && lower_ok(*r, cv, false) && (
        is_product(op, or_else(float_spec(*l, cv), float_spec(*r, cv))) ==> width_ok(*l, cv)
            && width_ok(*r, cv) && product_width(op, width_spec(*l, cv), width_spec(*r, cv))
            <= 128),
        ExprKind::Unary(op, a) => lower_ok(*a, cv, false) && ((op is RedAnd || op is RedOr || op
            is RedXor) ==> width_ok(*a, cv)),
        ExprKind::FieldAccess(b, f) => match b.kind {
            ExprKind::Ident(bn) => ident_field_text(cv, bn@, f.name@, lhs) is Some || lower_ok(
                *b,
                cv,
                lhs,
            ),
            ExprKind::Index(arr, idx) => match arr.kind {
                ExprKind::Ident(an) => match index_literal(*idx, cv) {
                    Some(i) => cv.bus_ports.contains(an@ + "_"@ + dec_str(i as nat)) || lower_ok(
                        *b,
                        cv,
                        lhs,
                    ),
                    None => if vget(cv.vec_of_bus_port_count, an@) is Some || vget(
                        cv.vec_of_bus_wire_count,
                        an@,
                    ) is Some {
                        lower_ok(*idx, cv, false)
                    } else {
                        lower_ok(*b, cv, lhs)
                    },
                },
                _ => lower_ok(*b, cv, lhs),
            },
            _ => lower_ok(*b, cv, lhs),
        },
        ExprKind::MethodCall(base, m, args) => {
            let mn = m.name@;
            let bw = width_spec(*base, cv);
            let bits = width_arg(args@, cv, 1);
            lower_ok(*base, cv, false) && if mn == "trunc"@ {
                args@.len() > 0 ==> width_ok(*base, cv) && (bw > 128 && bits <= 64 ==> bits >= 1)
            } else if mn == "zext"@ {
                args@.len() > 0 ==> width_ok(*base, cv) && (bits <= 64 && bw > 128 ==> bits >= 1)
            } else if mn == "sext"@ || mn == "resize"@ {
                args@.len() > 0 ==> width_ok(*base, cv)
            } else if mn == "reverse"@ {
                width_ok(*base, cv) && bits != 0
            } else if is_vec_method(mn) {
                match recv_size(*base, cv) {
                    Some(n) => args@.len() > 0 ==> if mn == "contains"@ {
                        lower_ok(args@[0], cv, false)
                    } else if mn == "any"@ || mn == "all"@ || mn == "count"@ {
                        preds_ok(args@[0], cv, cpp_spec(*base, cv, false), n as nat)
                    } else {
                        true
                    },
                    None => true,
                }
            } else {
                true
            }
        },
        ExprKind::Cast(inner, ty) => lower_ok(*inner, cv, false) && (is_sint(*ty) ==> width_ok(
            *inner,
            cv,
        )),
        ExprKind::Index(b, i) => lower_ok(*b, cv, lhs) && lower_ok(*i, cv, false) && (
        !expr_is_vec_spec(*b, cv) ==> width_ok(*b, cv)),
        ExprKind::BitSlice(b, hi, lo) => lower_ok(*b, cv, false) && width_ok(*b, cv) && slice_ok(
            *hi,
            *lo,
            cv,
        ),
        ExprKind::PartSelect(b, s, w, _) => lower_ok(*b, cv, false) && lower_ok(*s, cv, false)
            && width_ok(*b, cv) && (64 < width_spec(*b, cv) <= 128 ==> eval_width_in_spec(*w, cv)
            < 128),
        ExprKind::Concat(parts) => lowers_ok(parts@, cv) && widths_ok(parts@, cv) && widths_sum(
            parts@,
            cv,
        ) <= u32::MAX,
        ExprKind::Repeat(c, v) => lower_ok(*c, cv, false) && lower_ok(*v, cv, false) && width_ok(
            *v,
            cv,
        ),
        ExprKind::Clog2(a) => lower_ok(*a, cv, false),
        ExprKind::Onehot(a) => lower_ok(*a, cv, false),
        ExprKind::Signed(i) => lower_ok(*i, cv, false) && width_ok(*i, cv),
        ExprKind::Unsigned(i) => lower_ok(*i, cv, false) && width_ok(*i, cv),
        ExprKind::Ternary(c, t, f) => lower_ok(*c, cv, false) && lower_ok(*t, cv, false) && lower_ok(
            *f,
            cv,
            false,
        ),
        ExprKind::FunctionCall(_, args) => lowers_ok(args@, cv),
        ExprKind::StructLiteral(_, fields) => fields_ok(fields@, cv),
        ExprKind::ExprMatch(s, arms) => lower_ok(*s, cv, false) && arms_ok(arms@, cv),
        ExprKind::Inside(s, ms) => lower_ok(*s, cv, false) && members_ok(ms@, cv),
        _ => true,
    }
}

} // verus!
