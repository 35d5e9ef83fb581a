//! The text of each kind of lowered expression, built from the already
//! lowered texts, widths and facts of its parts.
use vstd::prelude::*;
use crate::ast::{BinOp, Expr, ExprKind, LitKind, ParamDecl, TypeExpr, UnaryOp};
use crate::const_eval::try_eval_const_expr_with_params;
use crate::cpp_fmt::{
    bit_range, bit_range_u128, cast_to_bits, cast_to_signed_bits, cpp_sint, cpp_uint, mask_u64,
    wide_words,
};
use crate::ctx::Ctx;
use crate::names::NameMap;
use crate::expr_codegen::FpFmt;
use crate::lowering::{
    binary_text, bitslice_text, bus_port_lane_text, bus_wire_lane_text, call1, cast_text, enum_text,
    float_op, fp_conv_text, ident_field_text, ident_text, index_literal, index_text, int_to_f32,
    lit_text, op_text, part_select_bchk, part_select_core, part_select_text, port_type_spec, resize_text, reverse_text, sext_text,
    signed_text, to_f32_text, to_int_text, todo_text, trunc_text, unary_text, unsigned_text,
    vw_bits_text, zext_text,
};
use crate::ast::ResetLevel;
use crate::collect::{enum_variant_value, find_variant, pairs_view};
use crate::ctx::{entries_view, vget};
use crate::text::{dec_str, fmt_dec, fmt_hex_lower, fmt_hex_upper, push_str};
use vstd::arithmetic::power2::pow2;

verus! {

/// `s` as an owned string.
pub fn own(s: &str) -> (r: String)
    ensures
        r@ == s@,
{
    String::from_str(s)
}

/// Decimal text of a `u32`.
pub fn dec32(n: u32) -> (r: String)
    ensures
        r@ == dec_str(n as nat),
{
    fmt_dec(n as u64)
}

/// Text of a literal.
pub fn lit_cpp(l: &LitKind) -> (r: String)
    ensures
        r@ == lit_text(*l),
{
    match l {
        LitKind::Dec(v) => fmt_dec(*v),
        LitKind::Hex(v) => {
            let mut s = own("0x");
            push_str(&mut s, fmt_hex_upper(*v).as_str());
            s
        },
        LitKind::Bin(v) => fmt_dec(*v),
        LitKind::Sized(_, v) => fmt_dec(*v),
        LitKind::TypedFloat(_, bits) => {
            let mut s = own("0x");
            push_str(&mut s, fmt_hex_upper(*bits).as_str());
            push_str(&mut s, "u");
            s
        },
    }
}

/// Text of an identifier.
pub fn ident_cpp(ctx: &Ctx, n: &str, lhs: bool) -> (r: String)
    ensures
        r@ == ident_text(ctx.view(), n@, lhs),
{
    if let Some(m) = ctx.ident_subst {
        if let Some(s) = m.get(n) {
            return s.clone();
        }
    }
    if let Some(m) = ctx.loop_var_subst {
        if let Some(v) = m.get(n) {
            return dec32(*v);
        }
    }
    if lhs {
        ctx.resolve_name(n, true)
    } else {
        ctx.read_signal(n)
    }
}

pub fn op_str(op: BinOp) -> (r: &'static str)
    ensures
        r@ == op_text(op),
{
    match op {
        BinOp::Add | BinOp::AddWrap => "+",
        BinOp::Sub | BinOp::SubWrap => "-",
        BinOp::Mul | BinOp::MulWrap => "*",
        BinOp::Div => "/",
        BinOp::Mod => "%",
        BinOp::Eq => "==",
        BinOp::Neq => "!=",
        BinOp::Lt => "<",
        BinOp::Gt => ">",
        BinOp::Lte => "<=",
        BinOp::Gte => ">=",
        BinOp::And => "&&",
        BinOp::Or => "||",
        BinOp::BitAnd => "&",
        BinOp::BitOr => "|",
        BinOp::BitXor => "^",
        BinOp::Shl => "<<",
        BinOp::Shr => ">>",
        BinOp::Implies | BinOp::ImpliesNext => "",
    }
}

pub fn float_op_str(op: BinOp) -> (r: Option<&'static str>)
    ensures
        match r {
            Some(s) => float_op(op) == Some(s@),
            None => float_op(op) is None,
        },
{
    match op {
        BinOp::Add => Some("add"),
        BinOp::Sub => Some("sub"),
        BinOp::Mul => Some("mul"),
        BinOp::Eq => Some("eq"),
        BinOp::Neq => Some("ne"),
        BinOp::Lt => Some("lt"),
        BinOp::Gt => Some("gt"),
        BinOp::Lte => Some("le"),
        BinOp::Gte => Some("ge"),
        _ => None,
    }
}

/// Text of a binary node.
pub fn binary_fmt(
    op: BinOp,
    l: &str,
    r: &str,
    lw: u32,
    rw: u32,
    signed: bool,
    fmt: Option<FpFmt>,
    rhs_const: bool,
    rhs_name: Option<&str>,
) -> (res: String)
    ensures
        res@ == binary_text(
            op,
            l@,
            r@,
            lw as int,
            rw as int,
            signed,
            fmt,
            rhs_const,
            match rhs_name {
                Some(n) => Some(n@),
                None => None,
            },
        ),
{
    if matches!(op, BinOp::Implies | BinOp::ImpliesNext) {
        let mut s = own("(!");
        push_str(&mut s, l);
        push_str(&mut s, " || ");
        push_str(&mut s, r);
        push_str(&mut s, ")");
        return s;
    }
    if let Some(f) = fmt {
        if let Some(fop) = float_op_str(op) {
            let mut s = own("_arch_");
            push_str(&mut s, f.helper_tag());
            push_str(&mut s, "_");
            push_str(&mut s, fop);
            push_str(&mut s, "(");
            push_str(&mut s, l);
            push_str(&mut s, ", ");
            push_str(&mut s, r);
            push_str(&mut s, ")");
            return s;
        }
    }
    if matches!(op, BinOp::Mul | BinOp::MulWrap) {
        let cast = if signed { "__int128_t" } else { "_arch_u128" };
        let mut p = own("(((");
        push_str(&mut p, cast);
        push_str(&mut p, ")(");
        push_str(&mut p, l);
        push_str(&mut p, ")) * ((");
        push_str(&mut p, cast);
        push_str(&mut p, ")(");
        push_str(&mut p, r);
        push_str(&mut p, ")))");
        if matches!(op, BinOp::MulWrap) {
            let bits = if lw >= rw { lw } else { rw };
            return if signed {
                cast_to_signed_bits(p.as_str(), bits)
            } else {
                cast_to_bits(p.as_str(), bits)
            };
        }
        return p;
    }
    if matches!(op, BinOp::Div | BinOp::Mod) && !rhs_const {
        let loc = match rhs_name {
            Some(n) => n,
            None => "<div>",
        };
        let opn = if matches!(op, BinOp::Div) { "/" } else { "%" };
        let mut s = own("(_ARCH_DCHK((");
        push_str(&mut s, r);
        push_str(&mut s, "), \"");
        push_str(&mut s, loc);
        push_str(&mut s, " ");
        push_str(&mut s, opn);
        push_str(&mut s, "\"), (");
        push_str(&mut s, l);
        push_str(&mut s, " ");
        push_str(&mut s, op_str(op));
        push_str(&mut s, " ");
        push_str(&mut s, r);
        push_str(&mut s, "))");
        return s;
    }
    let mut s = own("(");
    push_str(&mut s, l);
    push_str(&mut s, " ");
    push_str(&mut s, op_str(op));
    push_str(&mut s, " ");
    push_str(&mut s, r);
    push_str(&mut s, ")");
    s
}

/// `0x...U` mask of the low `b` bits of a 32-bit word.
fn low_bits_mask32(b: u32) -> (r: u32)
    requires
        0 < b < 32,
    ensures
        r as nat == pow2(b as nat) - 1,
{
    proof {
        vstd::bits::lemma_u32_pow2_no_overflow(b as nat);
        vstd::bits::lemma_u32_shl_is_mul(1, b);
        vstd::arithmetic::power2::lemma_pow2_pos(b as nat);
    }
    (1u32 << b) - 1
}

/// Text of a unary node.
pub fn unary_fmt(op: UnaryOp, o: &str, w: u32, is_one_bit: bool) -> (r: String)
    ensures
        r@ == unary_text(op, o@, w, is_one_bit),
{
    match op {
        UnaryOp::Not => {
            let mut s = own("(!");
            push_str(&mut s, o);
            push_str(&mut s, ")");
            s
        },
        UnaryOp::BitNot => {
            let mut s = if is_one_bit { own("(uint8_t)(!(") } else { own("(~(") };
            push_str(&mut s, o);
            push_str(&mut s, "))");
            s
        },
        UnaryOp::Neg => {
            let mut s = own("(-");
            push_str(&mut s, o);
            push_str(&mut s, ")");
            s
        },
        UnaryOp::RedAnd => {
            if w > 128 {
                let words = wide_words(w);
                let last_bits = w % 32;
                let last_mask = if last_bits == 0 {
                    own("0xFFFFFFFFU")
                } else {
                    let mut m = own("0x");
                    push_str(&mut m, fmt_hex_upper(low_bits_mask32(last_bits) as u64).as_str());
                    push_str(&mut m, "U");
                    m
                };
                let mut s = own("[&](){auto& _v=");
                push_str(&mut s, o);
                push_str(&mut s, ";for(int _i=0;_i<");
                push_str(&mut s, dec32(words).as_str());
                push_str(
                    &mut s,
                    "-1;_i++)if(_v._data[_i]!=0xFFFFFFFFU)return(uint8_t)0;return(uint8_t)(_v._data[",
                );
                push_str(&mut s, dec32(words - 1).as_str());
                push_str(&mut s, "]==");
                push_str(&mut s, last_mask.as_str());
                push_str(&mut s, "?1:0);}()");
                s
            } else if w <= 1 {
                let mut s = own("(");
                push_str(&mut s, o);
                push_str(&mut s, " & 1)");
                s
            } else {
                let m = fmt_hex_lower(mask_u64(w));
                let mut s = own("(uint8_t)((");
                push_str(&mut s, o);
                push_str(&mut s, " & 0x");
                push_str(&mut s, m.as_str());
                push_str(&mut s, "ULL) == 0x");
                push_str(&mut s, m.as_str());
                push_str(&mut s, "ULL)");
                s
            }
        },
        UnaryOp::RedOr => {
            if w > 128 {
                let mut s = own("[&](){auto& _v=");
                push_str(&mut s, o);
                push_str(&mut s, ";for(int _i=0;_i<");
                push_str(&mut s, dec32(wide_words(w)).as_str());
                push_str(&mut s, ";_i++)if(_v._data[_i])return(uint8_t)1;return(uint8_t)0;}()");
                s
            } else {
                let mut s = own("(uint8_t)((");
                push_str(&mut s, o);
                push_str(&mut s, ") != 0)");
                s
            }
        },
        UnaryOp::RedXor => {
            if w > 128 {
                let mut s = own("[&](){auto& _v=");
                push_str(&mut s, o);
                push_str(&mut s, ";uint8_t _p=0;for(int _i=0;_i<");
                push_str(&mut s, dec32(wide_words(w)).as_str());
                push_str(
                    &mut s,
                    ";_i++)_p^=(uint8_t)__builtin_parity(_v._data[_i]);return _p;}()",
                );
                s
            } else {
                let mut s = own("(uint8_t)(__builtin_parityll((uint64_t)(");
                push_str(&mut s, o);
                push_str(&mut s, ")))");
                s
            }
        },
    }
}


/// Field access on an identifier that needs no lowering of the base.
pub fn ident_field_cpp(ctx: &Ctx, bn: &str, f: &str, lhs: bool) -> (r: Option<String>)
    ensures
        match r {
            Some(t) => ident_field_text(ctx.view(), bn@, f@, lhs) == Some(t@),
            None => ident_field_text(ctx.view(), bn@, f@, lhs) is None,
        },
{
    if crate::text::str_eq(f, "asserted") {
        if let Some(levels) = ctx.reset_levels {
            if let Some(level) = levels.get(bn) {
                let resolved = ctx.resolve_name(bn, false);
                return if matches!(level, ResetLevel::Low) {
                    let mut s = own("(!");
                    push_str(&mut s, resolved.as_str());
                    push_str(&mut s, ")");
                    Some(s)
                } else {
                    Some(resolved)
                };
            }
        }
    }
    if ctx.bus_ports.contains(bn) {
        let mut flat = own(bn);
        push_str(&mut flat, "_");
        push_str(&mut flat, f);
        return Some(ctx.resolve_name(flat.as_str(), lhs));
    }
    if ctx.inst_names.contains(bn) {
        let mut s = own("_inst_");
        push_str(&mut s, bn);
        push_str(&mut s, ".");
        push_str(&mut s, f);
        return Some(s);
    }
    None
}

/// A constant index of an element select, if it has one.
pub fn index_literal_exec(idx: &Expr, ctx: &Ctx) -> (r: Option<u64>)
    ensures
        r == index_literal(*idx, ctx.view()),
{
    match &idx.kind {
        ExprKind::Literal(LitKind::Dec(i)) => Some(*i),
        ExprKind::Literal(LitKind::Hex(i)) => Some(*i),
        ExprKind::Literal(LitKind::Bin(i)) => Some(*i),
        ExprKind::Literal(LitKind::Sized(_, i)) => Some(*i),
        ExprKind::Ident(lv) => match ctx.loop_var_subst {
            Some(m) => match m.get(lv.as_str()) {
                Some(v) => Some(*v as u64),
                None => None,
            },
            None => None,
        },
        _ => None,
    }
}

pub fn bus_port_lane(i: &str, n: u32, arr: &str, f: &str) -> (r: String)
    ensures
        r@ == bus_port_lane_text(i@, n, arr@, f@),
{
    let mut s = own("(_ARCH_BCHK((");
    push_str(&mut s, i);
    push_str(&mut s, "), ");
    push_str(&mut s, dec32(n).as_str());
    push_str(&mut s, ", \"");
    push_str(&mut s, arr);
    push_str(&mut s, "[i].");
    push_str(&mut s, f);
    push_str(&mut s, "\"), ");
    push_str(&mut s, arr);
    push_str(&mut s, "_");
    push_str(&mut s, f);
    push_str(&mut s, "[");
    push_str(&mut s, i);
    push_str(&mut s, "])");
    s
}

pub fn bus_wire_lane(i: &str, n: u32, arr: &str, f: &str) -> (r: String)
    ensures
        r@ == bus_wire_lane_text(i@, n, arr@, f@),
{
    let mut s = own("(_ARCH_BCHK((");
    push_str(&mut s, i);
    push_str(&mut s, "), ");
    push_str(&mut s, dec32(n).as_str());
    push_str(&mut s, ", \"");
    push_str(&mut s, arr);
    push_str(&mut s, "[i].");
    push_str(&mut s, f);
    push_str(&mut s, "\"), _let_");
    push_str(&mut s, arr);
    push_str(&mut s, "[");
    push_str(&mut s, i);
    push_str(&mut s, "].");
    push_str(&mut s, f);
    push_str(&mut s, ")");
    s
}

pub fn vw_bits(ty: &str, b: &str, hi: &str, lo: &str) -> (r: String)
    ensures
        r@ == vw_bits_text(ty@, b@, hi@, lo@),
{
    let mut s = own("(");
    push_str(&mut s, ty);
    push_str(&mut s, ")_arch_vw_bits(");
    push_str(&mut s, b);
    push_str(&mut s, ".data(), ");
    push_str(&mut s, hi);
    push_str(&mut s, ", ");
    push_str(&mut s, lo);
    push_str(&mut s, ")");
    s
}

/// `(<t>)(<b>)`.
fn cast_paren(t: &str, b: &str) -> (r: String)
    ensures
        r@ == "("@ + t@ + ")("@ + b@ + ")"@,
{
    let mut s = own("(");
    push_str(&mut s, t);
    push_str(&mut s, ")(");
    push_str(&mut s, b);
    push_str(&mut s, ")");
    s
}

pub fn trunc_fmt(b: &str, bits: u32, base_w: u32, signed: bool) -> (r: String)
    requires
        base_w > 128 && bits <= 64 ==> bits >= 1,
    ensures
        r@ == trunc_text(b@, bits, base_w, signed),
{
    if base_w > 128 && bits <= 64 {
        vw_bits(cpp_uint(bits), b, dec32(bits - 1).as_str(), "0")
    } else if signed {
        cast_to_signed_bits(b, bits)
    } else {
        cast_to_bits(b, bits)
    }
}

pub fn zext_fmt(b: &str, bits: u32, base_w: u32) -> (r: String)
    requires
        bits <= 64 && base_w > 128 ==> bits >= 1,
    ensures
        r@ == zext_text(b@, bits, base_w),
{
    if bits > 128 {
        let mut s = own("VlWide<");
        push_str(&mut s, dec32(wide_words(bits)).as_str());
        push_str(&mut s, ">(static_cast<uint64_t>(");
        push_str(&mut s, b);
        push_str(&mut s, "))");
        s
    } else if base_w > 128 && bits <= 64 {
        vw_bits(cpp_uint(bits), b, dec32(bits - 1).as_str(), "0")
    } else {
        cast_paren(cpp_uint(bits), b)
    }
}

pub fn sext_fmt(b: &str, dst: u32, src: u32) -> (r: String)
    ensures
        r@ == sext_text(b@, dst, src),
{
    let t = cpp_uint(dst);
    if src >= dst || src == 0 {
        cast_paren(t, b)
    } else {
        let mut s = own("((");
        push_str(&mut s, b);
        push_str(&mut s, " >> ");
        push_str(&mut s, dec32(src - 1).as_str());
        push_str(&mut s, ") & 1 ? (");
        push_str(&mut s, t);
        push_str(&mut s, ")(");
        push_str(&mut s, b);
        push_str(&mut s, ") | (");
        push_str(&mut s, t);
        push_str(&mut s, ")(~((");
        push_str(&mut s, t);
        push_str(&mut s, ")0) << ");
        push_str(&mut s, dec32(src).as_str());
        push_str(&mut s, ") : (");
        push_str(&mut s, t);
        push_str(&mut s, ")(");
        push_str(&mut s, b);
        push_str(&mut s, "))");
        s
    }
}

pub fn resize_fmt(b: &str, dst: u32, src: u32) -> (r: String)
    ensures
        r@ == resize_text(b@, dst, src),
{
    if src >= dst || src == 0 {
        cast_to_bits(b, dst)
    } else {
        cast_paren(cpp_uint(dst), b)
    }
}

pub fn reverse_fmt(b: &str, w: u32, chunk: u32) -> (r: String)
    requires
        chunk != 0,
    ensures
        r@ == reverse_text(b@, w, chunk),
{
    let ty = cpp_uint(w);
    let ws = dec32(w);
    let ws = ws.as_str();
    if chunk == 1 {
        if w <= 64 {
            let mut s = own("[&]() { ");
            push_str(&mut s, ty);
            push_str(&mut s, " v = ");
            push_str(&mut s, b);
            push_str(&mut s, "; ");
            push_str(&mut s, ty);
            push_str(&mut s, " r = 0; for (int i = 0; i < ");
            push_str(&mut s, ws);
            push_str(&mut s, "; i++) r |= ((");
            push_str(&mut s, ty);
            push_str(&mut s, ")((v >> i) & 1)) << (");
            push_str(&mut s, ws);
            push_str(&mut s, " - 1 - i); return r; }()");
            s
        } else {
            let mut s = own("[&]() { auto v = ");
            push_str(&mut s, b);
            push_str(&mut s, "; ");
            push_str(&mut s, ty);
            push_str(&mut s, " r{}; for (int i = 0; i < ");
            push_str(&mut s, ws);
            push_str(&mut s, "; i++) { int sw = i / 32; int sb = i % 32; int dw = (");
            push_str(&mut s, ws);
            push_str(&mut s, " - 1 - i) / 32; int db = (");
            push_str(&mut s, ws);
            push_str(
                &mut s,
                " - 1 - i) % 32; if ((v[sw] >> sb) & 1) r[dw] |= (1u << db); } return r; }()",
            );
            s
        }
    } else {
        let nc = dec32(w / chunk);
        let nc = nc.as_str();
        let c = dec32(chunk);
        let c = c.as_str();
        if w <= 64 {
            let mut s = own("[&]() { ");
            push_str(&mut s, ty);
            push_str(&mut s, " v = ");
            push_str(&mut s, b);
            push_str(&mut s, "; ");
            push_str(&mut s, ty);
            push_str(&mut s, " r = 0; for (int i = 0; i < ");
            push_str(&mut s, nc);
            push_str(&mut s, "; i++) r |= ((v >> (i * ");
            push_str(&mut s, c);
            push_str(&mut s, ")) & ((");
            push_str(&mut s, ty);
            push_str(&mut s, ")((1ULL << ");
            push_str(&mut s, c);
            push_str(&mut s, ") - 1))) << ((");
            push_str(&mut s, nc);
            push_str(&mut s, " - 1 - i) * ");
            push_str(&mut s, c);
            push_str(&mut s, "); return r; }()");
            s
        } else {
            let mut s = own("[&]() { auto v = ");
            push_str(&mut s, b);
            push_str(&mut s, "; ");
            push_str(&mut s, ty);
            push_str(&mut s, " r{}; for (int ci = 0; ci < ");
            push_str(&mut s, nc);
            push_str(&mut s, "; ci++) for (int bi = 0; bi < ");
            push_str(&mut s, c);
            push_str(&mut s, "; bi++) { int si = ci * ");
            push_str(&mut s, c);
            push_str(&mut s, " + bi; int di = (");
            push_str(&mut s, nc);
            push_str(&mut s, " - 1 - ci) * ");
            push_str(&mut s, c);
            push_str(
                &mut s,
                " + bi; int sw = si / 32; int sb = si % 32; int dw = di / 32; int db = di % 32; if ((v[sw] >> sb) & 1) r[dw] |= (1u << db); } return r; }()",
            );
            s
        }
    }
}

fn call1_fmt(f: &str, b: &str) -> (r: String)
    ensures
        r@ == call1(f@, b@),
{
    let mut s = own(f);
    push_str(&mut s, "(");
    push_str(&mut s, b);
    push_str(&mut s, ")");
    s
}

fn int_to_f32_fmt(b: &str, signed: bool) -> (r: String)
    ensures
        r@ == int_to_f32(b@, signed),
{
    let mut s = if signed { own("_arch_i_to_f32((int64_t)(") } else { own("_arch_u_to_f32((uint64_t)(") };
    push_str(&mut s, b);
    push_str(&mut s, "))");
    s
}

fn to_f32_fmt(b: &str, fmt: FpFmt) -> (r: String)
    ensures
        r@ == to_f32_text(b@, fmt),
{
    match fmt {
        FpFmt::Fp32 => own(b),
        FpFmt::Bf16 => call1_fmt("_arch_bf16_to_f32", b),
        FpFmt::E4m3 => call1_fmt("_arch_e4m3_to_f32", b),
        FpFmt::E5m2 => call1_fmt("_arch_e5m2_to_f32", b),
    }
}

pub fn fp_conv_fmt(target: FpFmt, b: &str, fmt: Option<FpFmt>, signed: bool) -> (r: String)
    ensures
        r@ == fp_conv_text(target, b@, fmt, signed),
{
    match target {
        FpFmt::Fp32 => match fmt {
            Some(f) => to_f32_fmt(b, f),
            None => int_to_f32_fmt(b, signed),
        },
        FpFmt::Bf16 => match fmt {
            Some(FpFmt::Bf16) => own(b),
            Some(f) => call1_fmt("_arch_f32_to_bf16", to_f32_fmt(b, f).as_str()),
            None => {
                let mut s = if signed {
                    own("_arch_i_to_bf16((int64_t)(")
                } else {
                    own("_arch_u_to_bf16((uint64_t)(")
                };
                push_str(&mut s, b);
                push_str(&mut s, "))");
                s
            },
        },
        FpFmt::E4m3 => match fmt {
            Some(FpFmt::E4m3) => own(b),
            Some(f) => call1_fmt("_arch_f32_to_e4m3", to_f32_fmt(b, f).as_str()),
            None => call1_fmt("_arch_f32_to_e4m3", int_to_f32_fmt(b, signed).as_str()),
        },
        FpFmt::E5m2 => match fmt {
            Some(FpFmt::E5m2) => own(b),
            Some(f) => call1_fmt("_arch_f32_to_e5m2", to_f32_fmt(b, f).as_str()),
            None => call1_fmt("_arch_f32_to_e5m2", int_to_f32_fmt(b, signed).as_str()),
        },
    }
}

pub fn to_int_fmt(b: &str, bits: u32, fmt: Option<FpFmt>, to_signed: bool) -> (r: String)
    ensures
        r@ == to_int_text(b@, bits, fmt, to_signed),
{
    let f32bits = match fmt {
        Some(f) => to_f32_fmt(b, f),
        None => own(b),
    };
    let mut conv = if to_signed { own("_arch_f32_to_sint(") } else { own("_arch_f32_to_uint(") };
    push_str(&mut conv, f32bits.as_str());
    push_str(&mut conv, ", ");
    push_str(&mut conv, dec32(bits).as_str());
    push_str(&mut conv, ")");
    let cast = if to_signed { cpp_sint(bits) } else { cpp_uint(bits) };
    let mut s = own("((");
    push_str(&mut s, cast);
    push_str(&mut s, ")(");
    push_str(&mut s, conv.as_str());
    push_str(&mut s, "))");
    s
}

/// A width folded against `params` (32 when it does not fold).
fn fold_width(w: &Expr, params: &[ParamDecl]) -> (r: u32)
    ensures
        r == match crate::const_eval::const_eval(*w, params@, Set::empty()) {
            Some(v) => #[verifier::truncate] (v as u32),
            None => 32u32,
        },
{
    match try_eval_const_expr_with_params(w, params) {
        Some(v) => #[verifier::truncate] (v as u32),
        None => 32,
    }
}

fn wide_type(bits: u32) -> (r: String)
    ensures
        r@ == "VlWide<"@ + dec_str(crate::cpp_fmt::wide_words_spec(bits) as nat) + ">"@,
{
    let mut s = own("VlWide<");
    push_str(&mut s, dec32(wide_words(bits)).as_str());
    push_str(&mut s, ">");
    s
}

/// C++ type of a declared type, with widths folded against `params`.
pub fn cpp_port_type_with_params(ty: &TypeExpr, params: &[ParamDecl]) -> (r: String)
    ensures
        r@ == port_type_spec(*ty, params@),
    decreases ty,
{
    match ty {
        TypeExpr::UInt(w) => {
            let bits = fold_width(w, params);
            if bits > 128 { wide_type(bits) } else { own(cpp_uint(bits)) }
        },
        TypeExpr::SInt(w) => {
            let bits = fold_width(w, params);
            if bits > 128 { wide_type(bits) } else { own(cpp_sint(bits)) }
        },
        TypeExpr::Named(n) => n.name.clone(),
        TypeExpr::Vec(elem, _) => cpp_port_type_with_params(elem, params),
        TypeExpr::FP32 => own("uint32_t"),
        TypeExpr::BF16 => own("uint16_t"),
        _ => own("uint8_t"),
    }
}

pub fn cast_fmt(t: &str, e: &str, sint_width: Option<u32>, inner_w: u32) -> (r: String)
    ensures
        r@ == cast_text(t@, e@, sint_width, inner_w),
{
    if let Some(w_hdl) = sint_width {
        let w_cpp: u32 = if w_hdl <= 8 {
            8
        } else if w_hdl <= 16 {
            16
        } else if w_hdl <= 32 {
            32
        } else if w_hdl <= 64 {
            64
        } else {
            0
        };
        if w_cpp > 0 && inner_w > 0 && inner_w < w_cpp {
            let shift = dec32(w_cpp - inner_w);
            let mut s = own("((");
            push_str(&mut s, t);
            push_str(&mut s, ")(");
            push_str(&mut s, e);
            push_str(&mut s, ") << ");
            push_str(&mut s, shift.as_str());
            push_str(&mut s, ") >> ");
            push_str(&mut s, shift.as_str());
            return s;
        }
    }
    cast_paren(t, e)
}

pub fn index_fmt(
    b: &str,
    i: &str,
    is_vec: bool,
    limit: u64,
    vec_loc: &str,
    base_w: u32,
    bit_loc: &str,
    idx_const: bool,
) -> (r: String)
    ensures
        r@ == index_text(b@, i@, is_vec, limit, vec_loc@, base_w, bit_loc@, idx_const),
{
    if is_vec {
        if limit > 0 && !idx_const {
            let mut s = own("(_ARCH_BCHK((");
            push_str(&mut s, i);
            push_str(&mut s, "), ");
            push_str(&mut s, fmt_dec(limit).as_str());
            push_str(&mut s, ", \"");
            push_str(&mut s, vec_loc);
            push_str(&mut s, "\"), ");
            push_str(&mut s, b);
            push_str(&mut s, "[");
            push_str(&mut s, i);
            push_str(&mut s, "])");
            s
        } else {
            let mut s = own(b);
            push_str(&mut s, "[");
            push_str(&mut s, i);
            push_str(&mut s, "]");
            s
        }
    } else {
        if base_w > 0 && !idx_const {
            let mut s = own("(_ARCH_BCHK((");
            push_str(&mut s, i);
            push_str(&mut s, "), ");
            push_str(&mut s, dec32(base_w).as_str());
            push_str(&mut s, ", \"");
            push_str(&mut s, bit_loc);
            push_str(&mut s, "[i]\"), (((");
            push_str(&mut s, b);
            push_str(&mut s, ") >> (");
            push_str(&mut s, i);
            push_str(&mut s, ")) & 1))");
            s
        } else {
            let mut s = own("(((");
            push_str(&mut s, b);
            push_str(&mut s, ") >> (");
            push_str(&mut s, i);
            push_str(&mut s, ")) & 1)");
            s
        }
    }
}

pub fn bitslice_fmt(b: &str, h: u32, l: u32, base_w: u32) -> (r: String)
    requires
        l <= h < u32::MAX,
    ensures
        r@ == bitslice_text(b@, h, l, base_w),
{
    if base_w > 128 {
        let rw = h - l + 1;
        let rt = if rw <= 64 { cpp_uint(rw) } else { "uint64_t" };
        vw_bits(rt, b, dec32(h).as_str(), dec32(l).as_str())
    } else if base_w > 64 {
        bit_range_u128(b, h, l)
    } else {
        bit_range(b, h, l)
    }
}

fn part_select_bchk_fmt(s: &str, w: u32, base_w: u32, up: bool, loc: &str) -> (r: String)
    ensures
        r@ == part_select_bchk(s@, w, base_w, up, loc@),
{
    let ws = dec32(w);
    let ws = ws.as_str();
    let bws = dec32(base_w);
    if up {
        let mut t = own("_ARCH_BCHK(((");
        push_str(&mut t, s);
        push_str(&mut t, ") + ");
        push_str(&mut t, ws);
        push_str(&mut t, " - 1), ");
        push_str(&mut t, bws.as_str());
        push_str(&mut t, ", \"");
        push_str(&mut t, loc);
        push_str(&mut t, "[+:");
        push_str(&mut t, ws);
        push_str(&mut t, "]\"), ");
        t
    } else {
        let mut t = own("_ARCH_BCHK((");
        push_str(&mut t, s);
        push_str(&mut t, "), ");
        push_str(&mut t, bws.as_str());
        push_str(&mut t, ", \"");
        push_str(&mut t, loc);
        push_str(&mut t, "[-:");
        push_str(&mut t, ws);
        push_str(&mut t, "] start\"), _ARCH_BCHK((");
        push_str(&mut t, ws);
        push_str(&mut t, " - 1), ((");
        push_str(&mut t, s);
        push_str(&mut t, ") + 1), \"");
        push_str(&mut t, loc);
        push_str(&mut t, "[-:");
        push_str(&mut t, ws);
        push_str(&mut t, "] underflow\"), ");
        t
    }
}

/// `((s) + w - 1)` / `(s)` / `((s) - w + 1)`.
fn paren_offset(s: &str, ws: &str, plus: bool) -> (r: String)
    ensures
        r@ == if plus { "(("@ + s@ + ") + "@ + ws@ + " - 1)"@ } else { "(("@ + s@ + ") - "@ + ws@
            + " + 1)"@ },
{
    let mut t = own("((");
    push_str(&mut t, s);
    if plus {
        push_str(&mut t, ") + ");
        push_str(&mut t, ws);
        push_str(&mut t, " - 1)");
    } else {
        push_str(&mut t, ") - ");
        push_str(&mut t, ws);
        push_str(&mut t, " + 1)");
    }
    t
}

fn part_select_core_fmt(b: &str, s: &str, w: u32, base_w: u32, up: bool) -> (r: String)
    ensures
        r@ == part_select_core(b@, s@, w, base_w, up),
{
    let ws = dec32(w);
    let ws = ws.as_str();
    let rt = cpp_uint(w);
    let mut mask = own("0x");
    push_str(&mut mask, fmt_hex_lower(mask_u64(w)).as_str());
    push_str(&mut mask, "ULL");
    if base_w > 128 {
        let plain = {
            let mut t = own("(");
            push_str(&mut t, s);
            push_str(&mut t, ")");
            t
        };
        if up {
            vw_bits(rt, b, paren_offset(s, ws, true).as_str(), plain.as_str())
        } else {
            vw_bits(rt, b, plain.as_str(), paren_offset(s, ws, false).as_str())
        }
    } else if base_w > 64 {
        let mut t = own("(");
        push_str(&mut t, rt);
        push_str(&mut t, ")((");
        push_str(&mut t, b);
        if up {
            push_str(&mut t, " >> (");
            push_str(&mut t, s);
            push_str(&mut t, ")) & ");
        } else {
            push_str(&mut t, " >> ((");
            push_str(&mut t, s);
            push_str(&mut t, ") - ");
            push_str(&mut t, ws);
            push_str(&mut t, " + 1)) & ");
        }
        push_str(&mut t, mask.as_str());
        push_str(&mut t, ")");
        t
    } else {
        let mut t = own("(");
        push_str(&mut t, rt);
        push_str(&mut t, ")((uint64_t)(");
        push_str(&mut t, b);
        if up {
            push_str(&mut t, ") >> (");
            push_str(&mut t, s);
            push_str(&mut t, ") & ");
        } else {
            push_str(&mut t, ") >> ((");
            push_str(&mut t, s);
            push_str(&mut t, ") - ");
            push_str(&mut t, ws);
            push_str(&mut t, " + 1) & ");
        }
        push_str(&mut t, mask.as_str());
        push_str(&mut t, ")");
        t
    }
}

pub fn part_select_fmt(
    b: &str,
    s: &str,
    w: u32,
    base_w: u32,
    up: bool,
    start_const: bool,
    loc: &str,
) -> (r: String)
    ensures
        r@ == part_select_text(b@, s@, w, base_w, up, start_const, loc@),
{
    let core = part_select_core_fmt(b, s, w, base_w, up);
    if base_w > 0 && !start_const {
        let mut t = own("(");
        push_str(&mut t, part_select_bchk_fmt(s, w, base_w, up, loc).as_str());
        push_str(&mut t, core.as_str());
        push_str(&mut t, ")");
        t
    } else {
        core
    }
}

/// Encoding of a variant of an enum in the context's enum map.
pub fn enum_index(ctx: &Ctx, en: &str, vr: &str) -> (r: Option<u64>)
    ensures
        match r {
            Some(v) => ctx.view().enum_map.contains_key(en@) && v == match enum_variant_value(
                ctx.view().enum_map,
                en@,
                vr@,
            ) {
                Some(x) => x,
                None => 0,
            },
            None => !ctx.view().enum_map.contains_key(en@),
        },
{
    match ctx.enum_map.get(en) {
        Some(es) => {
            proof {
                assert(pairs_view(es@) =~= entries_view(*es));
            }
            match find_variant(es, vr) {
                Some(v) => Some(v),
                None => Some(0),
            }
        },
        None => None,
    }
}

pub fn enum_cpp(ctx: &Ctx, en: &str, vr: &str) -> (r: String)
    ensures
        r@ == enum_text(ctx.view(), en@, vr@),
{
    match enum_index(ctx, en, vr) {
        Some(v) => fmt_dec(v),
        None => {
            let mut s = own("_ARCH_CODEGEN_ERROR_unknown_enum_");
            push_str(&mut s, en);
            push_str(&mut s, "_");
            push_str(&mut s, vr);
            s
        },
    }
}

pub fn signed_fmt(ic: &str, w: u32) -> (r: String)
    ensures
        r@ == signed_text(ic@, w),
{
    if w == 0 || w > 64 {
        own(ic)
    } else {
        let w_cpp: u32 = if w <= 8 { 8 } else if w <= 16 { 16 } else if w <= 32 { 32 } else { 64 };
        if w < w_cpp {
            let pad = dec32(w_cpp - w);
            let mut s = own("(((");
            push_str(&mut s, cpp_sint(w));
            push_str(&mut s, ")(");
            push_str(&mut s, ic);
            push_str(&mut s, ") << ");
            push_str(&mut s, pad.as_str());
            push_str(&mut s, ") >> ");
            push_str(&mut s, pad.as_str());
            push_str(&mut s, ")");
            s
        } else {
            let mut s = own("((");
            push_str(&mut s, cpp_sint(w));
            push_str(&mut s, ")(");
            push_str(&mut s, ic);
            push_str(&mut s, "))");
            s
        }
    }
}

pub fn unsigned_fmt(ic: &str, w: u32) -> (r: String)
    ensures
        r@ == unsigned_text(ic@, w),
{
    if w == 0 || w > 64 {
        own(ic)
    } else {
        let mut s = own("((");
        push_str(&mut s, cpp_uint(w));
        push_str(&mut s, ")(");
        push_str(&mut s, ic);
        push_str(&mut s, "))");
        s
    }
}

pub fn todo_cpp() -> (r: String)
    ensures
        r@ == todo_text(),
{
    own("(fprintf(stderr, \"ARCH: todo! reached at sim runtime\\n\"), abort(), 0)")
}

/// Encoding of a variant of an enum of the map, if both exist.
pub fn enum_index_opt(em: &NameMap<Vec<(String, u64)>>, en: &str, vr: &str) -> (r: Option<u64>)
    ensures
        r == (if crate::ctx::enum_map_view(em).contains_key(en@) {
            enum_variant_value(crate::ctx::enum_map_view(em), en@, vr@)
        } else {
            None
        }),
{
    match em.get(en) {
        Some(es) => {
            proof {
                assert(pairs_view(es@) =~= entries_view(*es));
            }
            find_variant(es, vr)
        },
        None => None,
    }
}

} // verus!
