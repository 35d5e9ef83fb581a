//! Classification of declared types that the generator needs: signedness
//! and floating-point format of scalars.
use vstd::prelude::*;
use crate::ast::TypeExpr;
use crate::expr_codegen::FpFmt;

verus! {

/// Whether a declared type is a signed integer scalar.
pub open spec fn signed_scalar(t: TypeExpr) -> bool {
    t is SInt
}

pub fn type_is_signed_scalar(t: &TypeExpr) -> (r: bool)
    ensures
        r == signed_scalar(*t),
{
    matches!(t, TypeExpr::SInt(_))
}

/// Floating-point format of a declared scalar type.
pub open spec fn float_fmt(t: TypeExpr) -> Option<FpFmt> {
    match t {
        TypeExpr::FP32 => Some(FpFmt::Fp32),
        TypeExpr::BF16 => Some(FpFmt::Bf16),
        TypeExpr::FP8E4M3 => Some(FpFmt::E4m3),
        TypeExpr::FP8E5M2 => Some(FpFmt::E5m2),
        _ => None,
    }
}

pub fn type_float_fmt(t: &TypeExpr) -> (r: Option<FpFmt>)
    ensures
        r == float_fmt(*t),
{
    match t {
        TypeExpr::FP32 => Some(FpFmt::Fp32),
        TypeExpr::BF16 => Some(FpFmt::Bf16),
        TypeExpr::FP8E4M3 => Some(FpFmt::E4m3),
        TypeExpr::FP8E5M2 => Some(FpFmt::E5m2),
        _ => None,
    }
}

} // verus!
