//! The naming context of expression lowering: which declaration kind each
//! name has, widths, signedness, float formats, Vec shapes and active
//! substitutions, and how a name becomes a C++ field.
use vstd::prelude::*;
use crate::ast::{Expr, ExprKind, ParamDecl, ResetLevel, TypeExpr};
use crate::cpp_fmt::wide_words_spec;
use crate::expr_codegen::FpFmt;
use crate::names::{NameMap, NameSet};
use crate::text::{dec_str, fmt_dec, push_str};

verus! {

/// Mathematical view of a [`Ctx`].
pub struct CtxView {
    pub reg_names: Set<Seq<char>>,
    pub port_names: Set<Seq<char>>,
    pub let_names: Set<Seq<char>>,
    pub let_values: Option<Map<Seq<char>, Expr>>,
    pub inst_names: Set<Seq<char>>,
    pub wide_names: Set<Seq<char>>,
    pub widths: Map<Seq<char>, u32>,
    pub signed_names: Set<Seq<char>>,
    pub float_names: Map<Seq<char>, FpFmt>,
    pub posedge_lhs: bool,
    pub fsm_mode: bool,
    pub enum_map: Map<Seq<char>, Seq<(Seq<char>, u64)>>,
    pub bus_ports: Set<Seq<char>>,
    pub reset_levels: Map<Seq<char>, ResetLevel>,
    pub vec_names: Option<Set<Seq<char>>>,
    pub vec_2d_names: Option<Set<Seq<char>>>,
    pub vec_sizes: Option<Map<Seq<char>, u64>>,
    pub fsm_vec_port_regs: Option<Set<Seq<char>>>,
    pub ident_subst: Option<Map<Seq<char>, Seq<char>>>,
    pub loop_var_subst: Option<Map<Seq<char>, u32>>,
    pub vec_of_bus_port_count: Option<Map<Seq<char>, u32>>,
    pub vec_of_bus_wire_count: Option<Map<Seq<char>, u32>>,
    pub params: Seq<ParamDecl>,
    pub decl_types: Option<Map<Seq<char>, TypeExpr>>,
    pub struct_defs: Option<Map<Seq<char>, Seq<(Seq<char>, TypeExpr)>>>,
    pub vinit_regs: Option<Set<Seq<char>>>,
}

/// Names and facts about the signals in scope while lowering expressions.
/// Optional sets and maps that are absent behave as empty.
#[derive(Clone, Copy)]
pub struct Ctx<'a> {
    pub reg_names: &'a NameSet,
    pub port_names: &'a NameSet,
    pub let_names: &'a NameSet,
    /// Module-scope `let` right-hand sides (for folding match patterns).
    pub let_values: Option<&'a NameMap<&'a Expr>>,
    pub inst_names: &'a NameSet,
    /// Signals wider than 64 bits.
    pub wide_names: &'a NameSet,
    /// Bit width of known signals.
    pub widths: &'a NameMap<u32>,
    pub signed_names: Option<&'a NameSet>,
    pub float_names: Option<&'a NameMap<FpFmt>>,
    /// Left-hand sides of clocked assignments write the next-state field.
    pub posedge_lhs: bool,
    /// FSM mode: registers are public members, read without prefix.
    pub fsm_mode: bool,
    pub enum_map: &'a NameMap<Vec<(String, u64)>>,
    /// Bus ports, whose fields are flattened (`itcm.cmd_valid` becomes
    /// `itcm_cmd_valid`).
    pub bus_ports: &'a NameSet,
    /// Reset port → active level, for `.asserted`.
    pub reset_levels: Option<&'a NameMap<ResetLevel>>,
    /// Vec-typed signals (C array subscripts instead of bit extraction).
    pub vec_names: Option<&'a NameSet>,
    pub vec_2d_names: Option<&'a NameSet>,
    /// Element count of Vec signals (for runtime bounds checks).
    pub vec_sizes: Option<&'a NameMap<u64>>,
    pub fsm_vec_port_regs: Option<&'a NameSet>,
    /// Identifier substitutions active in a Vec method predicate.
    pub ident_subst: Option<&'a NameMap<String>>,
    /// Loop variables bound to constants by static unrolling.
    pub loop_var_subst: Option<&'a NameMap<u32>>,
    pub vec_of_bus_port_count: Option<&'a NameMap<u32>>,
    pub vec_of_bus_wire_count: Option<&'a NameMap<u32>>,
    /// Params for folding widths.
    pub params: &'a [ParamDecl],
    /// Declared types of signals in scope.
    pub decl_types: Option<&'a NameMap<&'a TypeExpr>>,
    /// Struct name → fields.
    pub struct_defs: Option<&'a NameMap<Vec<(String, &'a TypeExpr)>>>,
    /// Registers that hold no defined value until first written.
    pub vinit_regs: Option<&'a NameSet>,
}

pub open spec fn oset(o: Option<&NameSet>) -> Option<Set<Seq<char>>> {
    match o {
        Some(s) => Some(s@),
        None => None,
    }
}

pub open spec fn omap<V>(o: Option<&NameMap<V>>) -> Option<Map<Seq<char>, V>> {
    match o {
        Some(m) => Some(m@),
        None => None,
    }
}

/// Whether an optional set holds `n` (an absent set holds nothing).
pub open spec fn vset(o: Option<Set<Seq<char>>>, n: Seq<char>) -> bool {
    match o {
        Some(s) => s.contains(n),
        None => false,
    }
}

/// Value of `k` in an optional map.
pub open spec fn vget<V>(o: Option<Map<Seq<char>, V>>, k: Seq<char>) -> Option<V> {
    match o {
        Some(m) => if m.contains_key(k) { Some(m[k]) } else { None },
        None => None,
    }
}

pub open spec fn entries_view(v: Vec<(String, u64)>) -> Seq<(Seq<char>, u64)> {
    v@.map_values(|p: (String, u64)| (p.0@, p.1))
}

/// The view of an enum map: variant names and encodings of each enum.
pub open spec fn enum_map_view(m: &NameMap<Vec<(String, u64)>>) -> Map<
    Seq<char>,
    Seq<(Seq<char>, u64)>,
> {
    m@.map_values(|v: Vec<(String, u64)>| entries_view(v))
}

pub open spec fn fields_view(v: Vec<(String, &TypeExpr)>) -> Seq<(Seq<char>, TypeExpr)> {
    v@.map_values(|p: (String, &TypeExpr)| (p.0@, *p.1))
}

impl<'a> Ctx<'a> {
    pub open spec fn view(self) -> CtxView {
        CtxView {
            reg_names: self.reg_names@,
            port_names: self.port_names@,
            let_names: self.let_names@,
            let_values: match self.let_values {
                Some(m) => Some(m@.map_values(|e: &Expr| *e)),
                None => None,
            },
            inst_names: self.inst_names@,
            wide_names: self.wide_names@,
            widths: self.widths@,
            signed_names: match self.signed_names {
                Some(s) => s@,
                None => Set::empty(),
            },
            float_names: match self.float_names {
                Some(m) => m@,
                None => Map::empty(),
            },
            posedge_lhs: self.posedge_lhs,
            fsm_mode: self.fsm_mode,
            enum_map: enum_map_view(self.enum_map),
            bus_ports: self.bus_ports@,
            reset_levels: match self.reset_levels {
                Some(m) => m@,
                None => Map::empty(),
            },
            vec_names: oset(self.vec_names),
            vec_2d_names: oset(self.vec_2d_names),
            vec_sizes: omap(self.vec_sizes),
            fsm_vec_port_regs: oset(self.fsm_vec_port_regs),
            ident_subst: match self.ident_subst {
                Some(m) => Some(m@.map_values(|s: String| s@)),
                None => None,
            },
            loop_var_subst: omap(self.loop_var_subst),
            vec_of_bus_port_count: omap(self.vec_of_bus_port_count),
            vec_of_bus_wire_count: omap(self.vec_of_bus_wire_count),
            params: self.params@,
            decl_types: match self.decl_types {
                Some(m) => Some(m@.map_values(|t: &TypeExpr| *t)),
                None => None,
            },
            struct_defs: match self.struct_defs {
                Some(m) => Some(m@.map_values(|v: Vec<(String, &TypeExpr)>| fields_view(v))),
                None => None,
            },
            vinit_regs: oset(self.vinit_regs),
        }
    }

    /// A context with the given names and every optional part absent.
    pub fn new(
        reg_names: &'a NameSet,
        port_names: &'a NameSet,
        let_names: &'a NameSet,
        inst_names: &'a NameSet,
        wide_names: &'a NameSet,
        widths: &'a NameMap<u32>,
        enum_map: &'a NameMap<Vec<(String, u64)>>,
        bus_ports: &'a NameSet,
        params: &'a [ParamDecl],
    ) -> (r: Ctx<'a>)
        ensures
            r == (Ctx {
                reg_names,
                port_names,
                let_names,
                let_values: None,
                inst_names,
                wide_names,
                widths,
                signed_names: None,
                float_names: None,
                posedge_lhs: false,
                fsm_mode: false,
                enum_map,
                bus_ports,
                reset_levels: None,
                vec_names: None,
                vec_2d_names: None,
                vec_sizes: None,
                fsm_vec_port_regs: None,
                ident_subst: None,
                loop_var_subst: None,
                vec_of_bus_port_count: None,
                vec_of_bus_wire_count: None,
                params,
                decl_types: None,
                struct_defs: None,
                vinit_regs: None,
            }),
    {
        Ctx {
            reg_names,
            port_names,
            let_names,
            let_values: None,
            inst_names,
            wide_names,
            widths,
            signed_names: None,
            float_names: None,
            posedge_lhs: false,
            fsm_mode: false,
            enum_map,
            bus_ports,
            reset_levels: None,
            vec_names: None,
            vec_2d_names: None,
            vec_sizes: None,
            fsm_vec_port_regs: None,
            ident_subst: None,
            loop_var_subst: None,
            vec_of_bus_port_count: None,
            vec_of_bus_wire_count: None,
            params,
            decl_types: None,
            struct_defs: None,
            vinit_regs: None,
        }
    }

    pub fn with_vec_of_bus(
        self,
        ports: &'a NameMap<u32>,
        wires: &'a NameMap<u32>,
        subst: &'a NameMap<u32>,
    ) -> (r: Ctx<'a>)
        ensures
            r == (Ctx {
                vec_of_bus_port_count: Some(ports),
                vec_of_bus_wire_count: Some(wires),
                loop_var_subst: Some(subst),
                ..self
            }),
    {
        Ctx {
            vec_of_bus_port_count: Some(ports),
            vec_of_bus_wire_count: Some(wires),
            loop_var_subst: Some(subst),
            ..self
        }
    }

    pub fn with_vinit_regs(self, vinit_regs: &'a NameSet) -> (r: Ctx<'a>)
        ensures
            r == (Ctx { vinit_regs: Some(vinit_regs), ..self }),
    {
        Ctx { vinit_regs: Some(vinit_regs), ..self }
    }

    pub fn with_signed_names(self, signed_names: &'a NameSet) -> (r: Ctx<'a>)
        ensures
            r == (Ctx { signed_names: Some(signed_names), ..self }),
    {
        Ctx { signed_names: Some(signed_names), ..self }
    }

    pub fn with_float_names(self, float_names: &'a NameMap<FpFmt>) -> (r: Ctx<'a>)
        ensures
            r == (Ctx { float_names: Some(float_names), ..self }),
    {
        Ctx { float_names: Some(float_names), ..self }
    }

    pub fn with_params(self, params: &'a [ParamDecl]) -> (r: Ctx<'a>)
        ensures
            r == (Ctx { params, ..self }),
    {
        Ctx { params, ..self }
    }

    pub fn with_let_values(self, let_values: &'a NameMap<&'a Expr>) -> (r: Ctx<'a>)
        ensures
            r == (Ctx { let_values: Some(let_values), ..self }),
    {
        Ctx { let_values: Some(let_values), ..self }
    }

    pub fn with_vec_sizes(self, vec_sizes: &'a NameMap<u64>) -> (r: Ctx<'a>)
        ensures
            r == (Ctx { vec_sizes: Some(vec_sizes), ..self }),
    {
        Ctx { vec_sizes: Some(vec_sizes), ..self }
    }

    pub fn with_reset_levels(self, reset_levels: &'a NameMap<ResetLevel>) -> (r: Ctx<'a>)
        ensures
            r == (Ctx { reset_levels: Some(reset_levels), ..self }),
    {
        Ctx { reset_levels: Some(reset_levels), ..self }
    }

    pub fn with_vec_names(self, vec_names: &'a NameSet) -> (r: Ctx<'a>)
        ensures
            r == (Ctx { vec_names: Some(vec_names), ..self }),
    {
        Ctx { vec_names: Some(vec_names), ..self }
    }

    pub fn with_vec_2d_names(self, vec_2d_names: &'a NameSet) -> (r: Ctx<'a>)
        ensures
            r == (Ctx { vec_2d_names: Some(vec_2d_names), ..self }),
    {
        Ctx { vec_2d_names: Some(vec_2d_names), ..self }
    }

    pub fn with_fsm_vec_port_regs(self, regs: &'a NameSet) -> (r: Ctx<'a>)
        ensures
            r == (Ctx { fsm_vec_port_regs: Some(regs), ..self }),
    {
        Ctx { fsm_vec_port_regs: Some(regs), ..self }
    }

    pub fn with_ident_subst(self, ident_subst: &'a NameMap<String>) -> (r: Ctx<'a>)
        ensures
            r == (Ctx { ident_subst: Some(ident_subst), ..self }),
    {
        Ctx { ident_subst: Some(ident_subst), ..self }
    }

    pub fn with_decl_types(
        self,
        decl_types: &'a NameMap<&'a TypeExpr>,
        struct_defs: &'a NameMap<Vec<(String, &'a TypeExpr)>>,
    ) -> (r: Ctx<'a>)
        ensures
            r == (Ctx { decl_types: Some(decl_types), struct_defs: Some(struct_defs), ..self }),
    {
        Ctx { decl_types: Some(decl_types), struct_defs: Some(struct_defs), ..self }
    }

    /// Left-hand sides of clocked assignments write the next-state field.
    pub fn posedge(self) -> (r: Ctx<'a>)
        ensures
            r == (Ctx { posedge_lhs: true, ..self }),
    {
        Ctx { posedge_lhs: true, ..self }
    }
}

/// C++ name of a signal: FSM Vec port registers and ordinary registers
/// live in `_name` (next state `_n_name` on a clocked left-hand side;
/// public in FSM mode), `let`/`wire` values in `_let_name` (except port
/// drivers and FSM mode), instances in `_inst_name`, Vec ports in their
/// internal `_name` array; anything else keeps its name.
pub open spec fn resolve_name_spec(cv: CtxView, name: Seq<char>, is_lhs: bool) -> Seq<char> {
    if vset(cv.fsm_vec_port_regs, name) {
        "_"@ + name
    } else if cv.reg_names.contains(name) {
        if is_lhs && cv.posedge_lhs {
            "_n_"@ + name
        } else if cv.fsm_mode {
            name
        } else {
            "_"@ + name
        }
    } else if cv.let_names.contains(name) {
        if cv.port_names.contains(name) {
            name
        } else if cv.fsm_mode {
            name
        } else {
            "_let_"@ + name
        }
    } else if cv.inst_names.contains(name) {
        "_inst_"@ + name
    } else if cv.port_names.contains(name) && vset(cv.vec_names, name) {
        "_"@ + name
    } else {
        name
    }
}

/// Width of a signal recorded in the context, 0 when unknown.
pub open spec fn width_or_zero(cv: CtxView, name: Seq<char>) -> u32 {
    if cv.widths.contains_key(name) { cv.widths[name] } else { 0 }
}

/// C++ expression reading a signal: a 65..=128-bit input port is converted
/// from its word array to the 128-bit carrier.
pub open spec fn read_signal_spec(cv: CtxView, name: Seq<char>) -> Seq<char> {
    let base = resolve_name_spec(cv, name, false);
    if cv.wide_names.contains(name) && cv.port_names.contains(name) {
        let bits = width_or_zero(cv, name);
        if bits > 128 {
            base
        } else {
            "_arch_vl_to_u128("@ + base + "._data, "@ + dec_str(wide_words_spec(bits) as nat)
                + ")"@
        }
    } else {
        base
    }
}

/// The name under which Vec facts about an expression are recorded.
pub open spec fn vec_path_spec(e: Expr, cv: CtxView) -> Option<Seq<char>>
    decreases e,
{
    match e.kind {
        ExprKind::Ident(n) => Some(n@),
        ExprKind::FieldAccess(b, f) => match b.kind {
            ExprKind::Ident(bn) => if cv.bus_ports.contains(bn@) {
                Some(bn@ + "_"@ + f.name@)
            } else {
                Some(bn@ + "."@ + f.name@)
            },
            _ => match vec_path_spec(*b, cv) {
                Some(bp) => Some(bp + "."@ + f.name@),
                None => None,
            },
        },
        ExprKind::Index(b, _) => match b.kind {
            ExprKind::Ident(n) => if vset(cv.vec_2d_names, n@) { Some(n@) } else { None },
            _ => None,
        },
        _ => None,
    }
}

pub open spec fn expr_is_vec_spec(e: Expr, cv: CtxView) -> bool {
    match vec_path_spec(e, cv) {
        Some(n) => vset(cv.vec_names, n),
        None => false,
    }
}

pub open spec fn expr_vec_size_spec(e: Expr, cv: CtxView) -> Option<u64> {
    match vec_path_spec(e, cv) {
        Some(n) => vget(cv.vec_sizes, n),
        None => None,
    }
}

pub fn opt_contains(o: Option<&NameSet>, n: &str) -> (r: bool)
    ensures
        r == vset(oset(o), n@),
{
    match o {
        Some(s) => s.contains(n),
        None => false,
    }
}

fn cat2(a: &str, b: &str) -> (r: String)
    ensures
        r@ == a@ + b@,
{
    let mut s = String::from_str(a);
    push_str(&mut s, b);
    s
}

fn cat3(a: &str, b: &str, c: &str) -> (r: String)
    ensures
        r@ == a@ + b@ + c@,
{
    let mut s = String::from_str(a);
    push_str(&mut s, b);
    push_str(&mut s, c);
    s
}

impl<'a> Ctx<'a> {
    /// C++ field or variable name of `name`.
    pub fn resolve_name(&self, name: &str, is_lhs: bool) -> (r: String)
        ensures
            r@ == resolve_name_spec(self.view(), name@, is_lhs),
    {
        if opt_contains(self.fsm_vec_port_regs, name) {
            return cat2("_", name);
        }
        if self.reg_names.contains(name) {
            if is_lhs && self.posedge_lhs {
                cat2("_n_", name)
            } else if self.fsm_mode {
                String::from_str(name)
            } else {
                cat2("_", name)
            }
        } else if self.let_names.contains(name) {
            if self.port_names.contains(name) {
                String::from_str(name)
            } else if self.fsm_mode {
                String::from_str(name)
            } else {
                cat2("_let_", name)
            }
        } else if self.inst_names.contains(name) {
            cat2("_inst_", name)
        } else if self.port_names.contains(name) && opt_contains(self.vec_names, name) {
            cat2("_", name)
        } else {
            String::from_str(name)
        }
    }

    /// C++ expression reading `name`.
    pub fn read_signal(&self, name: &str) -> (r: String)
        ensures
            r@ == read_signal_spec(self.view(), name@),
    {
        let base = self.resolve_name(name, false);
        if self.wide_names.contains(name) && self.port_names.contains(name) {
            let bits: u32 = match self.widths.get(name) {
                Some(b) => *b,
                None => 0,
            };
            if bits > 128 {
                base
            } else {
                let words = fmt_dec(crate::cpp_fmt::wide_words(bits) as u64);
                let mut s = String::from_str("_arch_vl_to_u128(");
                push_str(&mut s, base.as_str());
                push_str(&mut s, "._data, ");
                push_str(&mut s, words.as_str());
                push_str(&mut s, ")");
                s
            }
        } else {
            base
        }
    }

    /// Name under which Vec facts about `expr` are recorded, if any.
    pub fn vec_path_of_expr(&self, expr: &Expr) -> (r: Option<String>)
        ensures
            match r {
                Some(s) => vec_path_spec(*expr, self.view()) == Some(s@),
                None => vec_path_spec(*expr, self.view()) is None,
            },
        decreases expr,
    {
        match &expr.kind {
            ExprKind::Ident(name) => Some(name.clone()),
            ExprKind::FieldAccess(base, field) => {
                if let ExprKind::Ident(base_name) = &base.kind {
                    if self.bus_ports.contains(base_name.as_str()) {
                        Some(cat3(base_name.as_str(), "_", field.name.as_str()))
                    } else {
                        Some(cat3(base_name.as_str(), ".", field.name.as_str()))
                    }
                } else {
                    match self.vec_path_of_expr(base) {
                        Some(bp) => Some(cat3(bp.as_str(), ".", field.name.as_str())),
                        None => None,
                    }
                }
            },
            ExprKind::Index(base, _) => {
                if let ExprKind::Ident(name) = &base.kind {
                    if opt_contains(self.vec_2d_names, name.as_str()) {
                        return Some(name.clone());
                    }
                }
                None
            },
            _ => None,
        }
    }

    /// Whether `expr` names a Vec (C array subscripts apply).
    pub fn expr_is_vec(&self, expr: &Expr) -> (r: bool)
        ensures
            r == expr_is_vec_spec(*expr, self.view()),
    {
        match self.vec_path_of_expr(expr) {
            Some(name) => opt_contains(self.vec_names, name.as_str()),
            None => false,
        }
    }

    /// Element count of the Vec that `expr` names, if known.
    pub fn expr_vec_size(&self, expr: &Expr) -> (r: Option<u64>)
        ensures
            r == expr_vec_size_spec(*expr, self.view()),
    {
        match self.vec_path_of_expr(expr) {
            Some(name) => match self.vec_sizes {
                Some(m) => match m.get(name.as_str()) {
                    Some(v) => Some(*v),
                    None => None,
                },
                None => None,
            },
            None => None,
        }
    }
}

} // verus!
