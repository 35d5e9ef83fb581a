//! C++ carrier types for HDL widths, and the width-masking casts and bit
//! extractions that the generator wraps around C++ expressions.
use vstd::prelude::*;
use vstd::arithmetic::power2::pow2;
use crate::text::{dec_str, fmt_dec, fmt_hex_upper, hex_upper, push_str};

verus! {

/// Smallest C++ unsigned carrier of a `bits`-wide value; widths past 64
/// bits use the 128-bit carrier.
pub open spec fn cpp_uint_spec(bits: u32) -> Seq<char> {
    if bits <= 8 { "uint8_t"@ }
    else if bits <= 16 { "uint16_t"@ }
    else if bits <= 32 { "uint32_t"@ }
    else if bits <= 64 { "uint64_t"@ }
    else { "_arch_u128"@ }
}

/// Smallest C++ signed carrier of a `bits`-wide value.
pub open spec fn cpp_sint_spec(bits: u32) -> Seq<char> {
    if bits <= 8 { "int8_t"@ }
    else if bits <= 16 { "int16_t"@ }
    else if bits <= 32 { "int32_t"@ }
    else if bits <= 64 { "int64_t"@ }
    else { "__int128_t"@ }
}

pub fn cpp_uint(bits: u32) -> (r: &'static str)
    ensures
        r@ == cpp_uint_spec(bits),
{
    if bits <= 8 { "uint8_t" }
    else if bits <= 16 { "uint16_t" }
    else if bits <= 32 { "uint32_t" }
    else if bits <= 64 { "uint64_t" }
    else { "_arch_u128" }
}

pub fn cpp_sint(bits: u32) -> (r: &'static str)
    ensures
        r@ == cpp_sint_spec(bits),
{
    if bits <= 8 { "int8_t" }
    else if bits <= 16 { "int16_t" }
    else if bits <= 32 { "int32_t" }
    else if bits <= 64 { "int64_t" }
    else { "__int128_t" }
}

/// Number of 32-bit words of a `bits`-wide value.
pub open spec fn wide_words_spec(bits: u32) -> u32 {
    ((bits as nat + 31) / 32) as u32
}

pub fn wide_words(bits: u32) -> (r: u32)
    ensures
        r == wide_words_spec(bits),
        r as nat * 32 >= bits,
{
    bits / 32 + if bits % 32 == 0 { 0 } else { 1 }
}

/// Width of the C++ integer that carries a `bits`-wide scalar (8, 16, 32
/// or 64).
pub open spec fn cpp_bits_spec(bits: u32) -> u32 {
    if bits <= 8 { 8 } else if bits <= 16 { 16 } else if bits <= 32 { 32 } else { 64 }
}

/// All-ones mask of `width` bits, saturating at 64 bits.
pub open spec fn mask_of(width: nat) -> u64 {
    if width >= 64 { u64::MAX } else { (pow2(width) - 1) as u64 }
}

/// `(1 << width) - 1`, or all ones from 64 bits up.
pub fn mask_u64(width: u32) -> (r: u64)
    ensures
        r == mask_of(width as nat),
{
    if width >= 64 {
        u64::MAX
    } else {
        proof {
            vstd::bits::lemma_u64_pow2_no_overflow(width as nat);
            vstd::bits::lemma_u64_shl_is_mul(1, width as u64);
        }
        let p: u64 = 1u64 << (width as u64);
        p - 1
    }
}

/// Text of `cast_to_bits`.
pub open spec fn cast_to_bits_spec(expr: Seq<char>, bits: u32) -> Seq<char> {
    if bits >= 64 {
        "("@ + cpp_uint_spec(bits) + ")("@ + expr + ")"@
    } else {
        "("@ + cpp_uint_spec(bits) + ")((("@ + expr + ") & 0x"@ + hex_upper(
            mask_of(bits as nat) as nat,
        ) + "ULL))"@
    }
}

/// Cast `expr` to the carrier of a `bits`-wide unsigned value, masking it
/// to exactly `bits` bits below 64.
pub fn cast_to_bits(expr: &str, bits: u32) -> (r: String)
    ensures
        r@ == cast_to_bits_spec(expr@, bits),
{
    let mut out = String::from_str("(");
    push_str(&mut out, cpp_uint(bits));
    if bits >= 64 {
        push_str(&mut out, ")(");
        push_str(&mut out, expr);
        push_str(&mut out, ")");
    } else {
        let mask = mask_u64(bits);
        let m = fmt_hex_upper(mask);
        push_str(&mut out, ")(((");
        push_str(&mut out, expr);
        push_str(&mut out, ") & 0x");
        push_str(&mut out, m.as_str());
        push_str(&mut out, "ULL))");
    }
    out
}

/// Text of `cast_to_signed_bits`.
pub open spec fn cast_to_signed_bits_spec(expr: Seq<char>, bits: u32) -> Seq<char> {
    if bits >= 64 {
        "("@ + cpp_sint_spec(bits) + ")("@ + expr + ")"@
    } else {
        let shift = (cpp_bits_spec(bits) - bits) as nat;
        "(("@ + cpp_sint_spec(bits) + ")(((uint64_t)("@ + expr + ") & 0x"@ + hex_upper(
            mask_of(bits as nat) as nat,
        ) + "ULL) << "@ + dec_str(shift) + ") >> "@ + dec_str(shift) + ")"@
    }
}

/// Cast `expr` to a signed `bits`-wide value: truncate to `bits` bits and
/// sign-extend into the signed carrier (shift the HDL sign bit up to the
/// carrier's top bit, then arithmetic-shift back).
pub fn cast_to_signed_bits(expr: &str, bits: u32) -> (r: String)
    ensures
        r@ == cast_to_signed_bits_spec(expr@, bits),
{
    if bits >= 64 {
        let mut out = String::from_str("(");
        push_str(&mut out, cpp_sint(bits));
        push_str(&mut out, ")(");
        push_str(&mut out, expr);
        push_str(&mut out, ")");
        out
    } else {
        let mask = mask_u64(bits);
        let cpp_bits: u32 = if bits <= 8 { 8 } else if bits <= 16 { 16 } else if bits <= 32 {
            32
        } else {
            64
        };
        let shift = cpp_bits - bits;
        let sh = fmt_dec(shift as u64);
        let m = fmt_hex_upper(mask);
        let mut out = String::from_str("((");
        push_str(&mut out, cpp_sint(bits));
        push_str(&mut out, ")(((uint64_t)(");
        push_str(&mut out, expr);
        push_str(&mut out, ") & 0x");
        push_str(&mut out, m.as_str());
        push_str(&mut out, "ULL) << ");
        push_str(&mut out, sh.as_str());
        push_str(&mut out, ") >> ");
        push_str(&mut out, sh.as_str());
        push_str(&mut out, ")");
        out
    }
}

/// Text of `bit_range`.
pub open spec fn bit_range_spec(expr: Seq<char>, hi: u32, lo: u32) -> Seq<char> {
    "(("@ + expr + " >> "@ + dec_str(lo as nat) + ") & 0x"@ + hex_upper(
        mask_of((hi - lo + 1) as nat) as nat,
    ) + "ULL)"@
}

/// Bits `hi..=lo` of a value of at most 64 bits: `(expr >> lo) & mask`.
pub fn bit_range(expr: &str, hi: u32, lo: u32) -> (r: String)
    requires
        lo <= hi < u32::MAX,
    ensures
        r@ == bit_range_spec(expr@, hi, lo),
{
    let width = hi - lo + 1;
    let mask = mask_u64(width);
    let l = fmt_dec(lo as u64);
    let m = fmt_hex_upper(mask);
    let mut out = String::from_str("((");
    push_str(&mut out, expr);
    push_str(&mut out, " >> ");
    push_str(&mut out, l.as_str());
    push_str(&mut out, ") & 0x");
    push_str(&mut out, m.as_str());
    push_str(&mut out, "ULL)");
    out
}

/// The 128-bit mask of the low `width` bits: a 64-bit literal up to 64
/// bits, `(1 << width) - 1` in the 128-bit carrier past that, all ones
/// from 128 bits.
pub open spec fn mask128_text(width: u32) -> Seq<char> {
    if width <= 64 {
        "(_arch_u128)0x"@ + hex_upper(mask_of(width as nat) as nat) + "ULL"@
    } else if width < 128 {
        "((((_arch_u128)1) << "@ + dec_str(width as nat) + ") - 1)"@
    } else {
        "(~(_arch_u128)0)"@
    }
}

/// Text of `bit_range_u128`.
pub open spec fn bit_range_u128_spec(expr: Seq<char>, hi: u32, lo: u32) -> Seq<char> {
    let width = (hi - lo + 1) as u32;
    let rt = cpp_uint_spec(width);
    if lo == 0 && width >= 128 {
        "("@ + rt + ")("@ + expr + ")"@
    } else if lo == 0 {
        "("@ + rt + ")(((_arch_u128)("@ + expr + ") & "@ + mask128_text(width) + "))"@
    } else {
        "("@ + rt + ")(((_arch_u128)("@ + expr + ") >> "@ + dec_str(lo as nat) + ") & "@
            + mask128_text(width) + ")"@
    }
}

fn mask128(width: u32) -> (r: String)
    ensures
        r@ == mask128_text(width),
{
    if width <= 64 {
        let mut o = String::from_str("(_arch_u128)0x");
        push_str(&mut o, fmt_hex_upper(mask_u64(width)).as_str());
        push_str(&mut o, "ULL");
        o
    } else if width < 128 {
        let mut o = String::from_str("((((_arch_u128)1) << ");
        push_str(&mut o, fmt_dec(width as u64).as_str());
        push_str(&mut o, ") - 1)");
        o
    } else {
        String::from_str("(~(_arch_u128)0)")
    }
}

/// Bits `hi..=lo` of a 128-bit carrier value: every bit of the range is
/// kept, however wide it is.
pub fn bit_range_u128(expr: &str, hi: u32, lo: u32) -> (r: String)
    requires
        lo <= hi < u32::MAX,
    ensures
        r@ == bit_range_u128_spec(expr@, hi, lo),
{
    let width = hi - lo + 1;
    let rt = cpp_uint(width);
    let mut out = String::from_str("(");
    push_str(&mut out, rt);
    if lo == 0 && width >= 128 {
        push_str(&mut out, ")(");
        push_str(&mut out, expr);
        push_str(&mut out, ")");
    } else if lo == 0 {
        let m = mask128(width);
        push_str(&mut out, ")(((_arch_u128)(");
        push_str(&mut out, expr);
        push_str(&mut out, ") & ");
        push_str(&mut out, m.as_str());
        push_str(&mut out, "))");
    } else {
        let m = mask128(width);
        let l = fmt_dec(lo as u64);
        push_str(&mut out, ")(((_arch_u128)(");
        push_str(&mut out, expr);
        push_str(&mut out, ") >> ");
        push_str(&mut out, l.as_str());
        push_str(&mut out, ") & ");
        push_str(&mut out, m.as_str());
        push_str(&mut out, ")");
    }
    out
}

} // verus!
