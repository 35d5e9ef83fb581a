//! Custom-policy arbiters: the grant mask comes from the user's hook
//! function, called with the request vector, the last grant, ports and
//! folded params, each argument truncated to the callee's declared width.
use vstd::prelude::*;
use crate::ast::{ArbiterDecl, ArbiterHook, FunctionDecl, Ident, ParamDecl, TypeExpr};
use crate::const_eval::{eval_const_expr_with_params, param_is_float};
use crate::cpp_fmt::{mask_of, mask_u64};
use crate::cpp_text::own;
use crate::infer::{eval_width, eval_width_spec};
use crate::lookup::{find_fn, find_function_decl};
use crate::lowering::join;
use crate::names::NameMap;
use crate::pybind::{fold_value, join_strings};
use crate::functions::{is_float_param, strs_view};
use crate::sim::SimCodegen;
use crate::text::{dec_str, fmt_dec, fmt_hex_upper, hex_upper, push_str, str_eq};

verus! {

/// All-ones literal of the low `bits` bits, saturating at 64.
pub open spec fn mask_literal_text(bits: u64) -> Seq<char> {
    if bits >= 64 {
        "~0ULL"@
    } else {
        "0x"@ + hex_upper(mask_of(bits as nat) as nat) + "ULL"@
    }
}

/// The truncation mask of a hook argument of type `ty`: none for signed
/// and non-integer types and from 64 bits up.
pub open spec fn arg_mask(ty: TypeExpr) -> Option<Seq<char>> {
    let bits: Option<u32> = match ty {
        TypeExpr::Bool => Some(1u32),
        TypeExpr::Bit => Some(1u32),
        TypeExpr::UInt(w) => Some(eval_width_spec(*w)),
        _ => None,
    };
    match bits {
        Some(b) => if b == 0 || b >= 64 {
            None
        } else {
            Some(mask_literal_text(b as u64))
        },
        None => None,
    }
}

/// The first param named `n`, from index `i` on.
pub open spec fn param_named(ps: Seq<ParamDecl>, n: Seq<char>, i: int) -> Option<ParamDecl>
    decreases ps.len() - i,
{
    if i < 0 || i >= ps.len() {
        None
    } else if ps[i].name.name@ == n {
        Some(ps[i])
    } else {
        param_named(ps, n, i + 1)
    }
}

/// The constant value of a param: its folded default (none where it does
/// not fold), or for a
/// float-typed param the bit pattern recorded in `fp`.
pub open spec fn param_value(p: ParamDecl, params: Seq<ParamDecl>, fp: Map<Seq<char>, Option<u64>>) -> Option<u64> {
    match p.default {
        None => None,
        Some(d) => if param_is_float(p) {
            if fp.contains_key(p.name.name@) {
                fp[p.name.name@]
            } else {
                None
            }
        } else {
            crate::const_eval::const_eval(d, params, Set::empty())
        },
    }
}

/// The declared type of the `i`-th hook argument: the callee's, else the
/// hook signature's.
pub open spec fn declared_arg(f: Option<FunctionDecl>, hook: ArbiterHook, i: int) -> Option<TypeExpr> {
    match f {
        Some(fd) if 0 <= i < fd.args@.len() => Some(fd.args@[i].ty),
        _ => if 0 <= i < hook.params@.len() {
            Some(hook.params@[i].ty)
        } else {
            None
        },
    }
}

/// `base`, masked to the declared width where that truncates.
pub open spec fn masked_arg(base: Seq<char>, declared: Option<TypeExpr>) -> Seq<char> {
    match declared {
        Some(t) => match arg_mask(t) {
            Some(m) => "("@ + base + " & "@ + m + ")"@,
            None => base,
        },
        None => base,
    }
}

/// The C++ of the `i`-th hook argument `arg`.
pub open spec fn hook_arg(
    arg: Seq<char>,
    i: int,
    a: ArbiterDecl,
    f: Option<FunctionDecl>,
    hook: ArbiterHook,
    req: Seq<char>,
    fp: Map<Seq<char>, Option<u64>>,
) -> Seq<char> {
    if arg == "req_mask"@ {
        masked_arg(req + "_valid"@, declared_arg(f, hook, i))
    } else if arg == "last_grant"@ {
        masked_arg("_last_grant_onehot"@, declared_arg(f, hook, i))
    } else {
        match param_named(a.params@, arg, 0) {
            Some(p) => match param_value(p, a.params@, fp) {
                Some(v) => dec_str(v as nat) + "ULL"@,
                None => masked_arg(arg, declared_arg(f, hook, i)),
            },
            None => masked_arg(arg, declared_arg(f, hook, i)),
        }
    }
}

/// The C++ of the first `k` hook arguments.
pub open spec fn hook_args(
    a: ArbiterDecl,
    f: Option<FunctionDecl>,
    hook: ArbiterHook,
    req: Seq<char>,
    fp: Map<Seq<char>, Option<u64>>,
    k: int,
) -> Seq<Seq<char>>
    decreases k,
{
    if k <= 0 {
        Seq::empty()
    } else {
        hook_args(a, f, hook, req, fp, k - 1).push(
            hook_arg(hook.fn_args@[k - 1].name@, k - 1, a, f, hook, req, fp),
        )
    }
}

/// The grant logic of a custom-policy arbiter: the hook's result masked
/// to `num_req` bits (unless the lock-holding owner still requests),
/// `grant_valid`, the ready vector, and the highest granted index.
pub open spec fn custom_comb_text(
    a: ArbiterDecl,
    fn_name: Seq<char>,
    args: Seq<char>,
    num_req: u64,
    req: Seq<char>,
) -> Seq<char> {
    let mask = mask_literal_text(num_req);
    let call = "(uint64_t)"@ + fn_name + "("@ + args + ") & "@ + mask + ";\n"@;
    (if a.lock_hold {
        "  if (_hold_valid && (("@ + req + "_valid >> _hold_owner) & 1) && !(("@ + req
            + "_release >> _hold_owner) & 1)) {\n"@ + "    _grant_onehot = 1ULL << _hold_owner;\n"@
            + "  } else {\n    _grant_onehot = "@ + call + "  }\n"@
    } else {
        "  _grant_onehot = "@ + call
    }) + "  grant_valid = (_grant_onehot != 0);\n"@ + "  "@ + req + "_ready = _grant_onehot;\n"@
        + "  for (int _ci = 0; _ci < (int)"@ + dec_str(num_req as nat) + "; _ci++) {\n"@
        + "    if ((_grant_onehot >> _ci) & 1) grant_requester = _ci;\n  }\n"@
}

/// The arbiter named `n`, the first in the file, from item `i` on.
pub open spec fn arbiter_named(items: Seq<crate::ast::Item>, n: Seq<char>, i: int) -> Option<ArbiterDecl>
    decreases items.len() - i,
{
    if i < 0 || i >= items.len() {
        None
    } else {
        match items[i] {
            crate::ast::Item::Arbiter(a) => if a.name.name@ == n {
                Some(a)
            } else {
                arbiter_named(items, n, i + 1)
            },
            _ => arbiter_named(items, n, i + 1),
        }
    }
}

/// All-ones literal of the low `bits` bits, saturating at 64 bits (the
/// width of the sim's request and grant vectors).
pub fn mask_literal(bits: u64) -> (r: String)
    ensures
        r@ == mask_literal_text(bits),
{
    if bits >= 64 {
        own("~0ULL")
    } else {
        let mut s = own("0x");
        push_str(&mut s, fmt_hex_upper(mask_u64(bits as u32)).as_str());
        push_str(&mut s, "ULL");
        s
    }
}

/// The mask that truncates a hook argument of type `ty` to its width, or
/// `None` where masking would corrupt the value (signed types) or does
/// nothing (64 bits and more).
pub fn unsigned_arg_mask(ty: &TypeExpr) -> (r: Option<String>)
    ensures
        match r {
            Some(m) => arg_mask(*ty) == Some(m@),
            None => arg_mask(*ty) is None,
        },
{
    let bits: u32 = match ty {
        TypeExpr::Bool | TypeExpr::Bit => 1,
        TypeExpr::UInt(w) => eval_width(w),
        _ => {
            return None;
        },
    };
    if bits == 0 || bits >= 64 {
        None
    } else {
        Some(mask_literal(bits as u64))
    }
}

fn param_named_exec<'b>(ps: &'b Vec<ParamDecl>, n: &str) -> (r: Option<&'b ParamDecl>)
    ensures
        match r {
            Some(p) => param_named(ps@, n@, 0) == Some(*p),
            None => param_named(ps@, n@, 0) is None,
        },
{
    let mut i: usize = 0;
    while i < ps.len()
        invariant
            i <= ps@.len(),
            param_named(ps@, n@, 0) == param_named(ps@, n@, i as int),
        decreases ps@.len() - i,
    {
        if str_eq(ps[i].name.name.as_str(), n) {
            return Some(&ps[i]);
        }
        i = i + 1;
    }
    None
}

fn param_value_exec(p: &ParamDecl, params: &Vec<ParamDecl>, fp: &NameMap<Option<u64>>) -> (r: Option<u64>)
    ensures
        r == param_value(*p, params@, fp@),
{
    match &p.default {
        None => None,
        Some(d) => if is_float_param(p) {
            match fp.get(p.name.name.as_str()) {
                Some(v) => *v,
                None => None,
            }
        } else {
            crate::const_eval::try_eval_const_expr_with_params(d, params.as_slice())
        },
    }
}

fn masked_arg_exec(base: String, declared: Option<&TypeExpr>) -> (r: String)
    ensures
        r@ == masked_arg(base@, match declared {
            Some(t) => Some(*t),
            None => None,
        }),
{
    match declared {
        Some(t) => match unsigned_arg_mask(t) {
            Some(m) => {
                let mut s = own("(");
                push_str(&mut s, base.as_str());
                push_str(&mut s, " & ");
                push_str(&mut s, m.as_str());
                push_str(&mut s, ")");
                s
            },
            None => base,
        },
        None => base,
    }
}

fn declared_arg_exec<'b>(f: Option<&'b FunctionDecl>, hook: &'b ArbiterHook, i: usize) -> (r: Option<
    &'b TypeExpr,
>)
    ensures
        match r {
            Some(t) => declared_arg(
                match f {
                    Some(fd) => Some(*fd),
                    None => None,
                },
                *hook,
                i as int,
            ) == Some(*t),
            None => declared_arg(
                match f {
                    Some(fd) => Some(*fd),
                    None => None,
                },
                *hook,
                i as int,
            ) is None,
        },
{
    if let Some(fd) = f {
        if i < fd.args.len() {
            return Some(&fd.args[i].ty);
        }
    }
    if i < hook.params.len() {
        Some(&hook.params[i].ty)
    } else {
        None
    }
}

impl<'a> SimCodegen<'a> {
    /// The arbiter an instance names: the first arbiter of the file with
    /// that name.
    pub fn lookup_inst_arbiter(&self, module_name: &str) -> (r: Option<&'a ArbiterDecl>)
        ensures
            match r {
                Some(a) => arbiter_named(self.source.items@, module_name@, 0) == Some(*a),
                None => arbiter_named(self.source.items@, module_name@, 0) is None,
            },
    {
        let items = &self.source.items;
        let mut i: usize = 0;
        while i < items.len()
            invariant
                i <= items@.len(),
                items == &self.source.items,
                arbiter_named(items@, module_name@, 0) == arbiter_named(items@, module_name@, i as int),
            decreases items@.len() - i,
        {
            if let crate::ast::Item::Arbiter(a) = &items[i] {
                if str_eq(a.name.name.as_str(), module_name) {
                    return Some(a);
                }
            }
            i = i + 1;
        }
        None
    }

    /// Appends the grant logic of a custom-policy arbiter (see
    /// [`custom_comb_text`]); `fp` holds the bit patterns of the arbiter's
    /// float-typed params.
    pub fn emit_arbiter_custom_comb(
        &self,
        cpp: &mut String,
        a: &ArbiterDecl,
        fn_ident: &Ident,
        num_req: u64,
        req_pa_name: &str,
        fp: &NameMap<Option<u64>>,
    )
        requires
            a.hook is Some,
        ensures
            final(cpp)@ == old(cpp)@ + custom_comb_text(
                *a,
                fn_ident.name@,
                join(
                    hook_args(
                        *a,
                        find_fn(self.source.items@, fn_ident.name@, 0),
                        a.hook.unwrap(),
                        req_pa_name@,
                        fp@,
                        a.hook.unwrap().fn_args@.len() as int,
                    ),
                    ", "@,
                ),
                num_req,
                req_pa_name@,
            ),
    {
        let hook = match &a.hook {
            Some(h) => h,
            None => {
                return;
            },
        };
        let fn_name = fn_ident.name.as_str();
        let fn_decl = find_function_decl(self.source, fn_name);
        let ghost fdv = find_fn(self.source.items@, fn_ident.name@, 0);
        let mut args: Vec<String> = Vec::new();
        let mut i: usize = 0;
        while i < hook.fn_args.len()
            invariant
                i <= hook.fn_args@.len(),
                a.hook == Some(*hook),
                fdv == match fn_decl {
                    Some(fd) => Some(*fd),
                    None => None,
                },
                strs_view(args@) == hook_args(*a, fdv, *hook, req_pa_name@, fp@, i as int),
            decreases hook.fn_args@.len() - i,
        {
            let arg = hook.fn_args[i].name.as_str();
            let declared = declared_arg_exec(fn_decl, hook, i);
            let text = if str_eq(arg, "req_mask") {
                let mut b = own(req_pa_name);
                push_str(&mut b, "_valid");
                masked_arg_exec(b, declared)
            } else if str_eq(arg, "last_grant") {
                masked_arg_exec(own("_last_grant_onehot"), declared)
            } else {
                let value = match param_named_exec(&a.params, arg) {
                    Some(p) => param_value_exec(p, &a.params, fp),
                    None => None,
                };
                match value {
                    Some(v) => {
                        let mut t = fmt_dec(v);
                        push_str(&mut t, "ULL");
                        t
                    },
                    None => masked_arg_exec(own(arg), declared),
                }
            };
            args.push(text);
            proof {
                assert(strs_view(args@) =~= hook_args(*a, fdv, *hook, req_pa_name@, fp@, i + 1));
            }
            i = i + 1;
        }
        let args_str = join_strings(&args, ", ");
        let mask = mask_literal(num_req);
        let mut call = own("(uint64_t)");
        push_str(&mut call, fn_name);
        push_str(&mut call, "(");
        push_str(&mut call, args_str.as_str());
        push_str(&mut call, ") & ");
        push_str(&mut call, mask.as_str());
        push_str(&mut call, ";\n");
        let ghost c0 = cpp@;
        if a.lock_hold {
            push_str(cpp, "  if (_hold_valid && ((");
            push_str(cpp, req_pa_name);
            push_str(cpp, "_valid >> _hold_owner) & 1) && !((");
            push_str(cpp, req_pa_name);
            push_str(cpp, "_release >> _hold_owner) & 1)) {\n");
            push_str(cpp, "    _grant_onehot = 1ULL << _hold_owner;\n");
            push_str(cpp, "  } else {\n    _grant_onehot = ");
            push_str(cpp, call.as_str());
            push_str(cpp, "  }\n");
        } else {
            push_str(cpp, "  _grant_onehot = ");
            push_str(cpp, call.as_str());
        }
        push_str(cpp, "  grant_valid = (_grant_onehot != 0);\n");
        push_str(cpp, "  ");
        push_str(cpp, req_pa_name);
        push_str(cpp, "_ready = _grant_onehot;\n");
        push_str(cpp, "  for (int _ci = 0; _ci < (int)");
        push_str(cpp, fmt_dec(num_req).as_str());
        push_str(cpp, "; _ci++) {\n");
        push_str(cpp, "    if ((_grant_onehot >> _ci) & 1) grant_requester = _ci;\n  }\n");
    }
}

} // verus!
