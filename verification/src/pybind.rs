//! pybind11 wrappers of the module models, for the Python test adapter:
//! ports, internal registers and parameters as properties, the eval
//! methods, and the bindings of the structs a module uses.
use vstd::prelude::*;
use crate::ast::{
    Direction, ExprKind, Item, ModuleBodyItem, ModuleDecl, ParamDecl, ParamKind, PortDecl,
    StructDecl, TypeExpr,
};
use crate::collect::{enum_variant_value, enum_map_of};
use crate::const_eval::const_eval;
use crate::cpp_fmt::wide_words_spec;
use crate::lowering::{join, port_type_spec};
use crate::sim::{port_width_spec, vec_elem_width_spec, wide_binding_text};
use crate::text::{dec_str, fmt_dec, push_str, str_eq};
use crate::names::{NameMap, NameSet};
use crate::functions::strs_view;
use crate::cpp_text::{cpp_port_type_with_params, dec32, own};
use crate::const_eval::eval_const_expr_with_params;
use crate::sim::{SimCodegen, SimModel, emit_wide_binding, port_width, reg_width, vec_elem_width};

verus! {

/// A width folded against `params`, 32 when it does not fold.
pub open spec fn fold_width(w: crate::ast::Expr, params: Seq<ParamDecl>) -> u32 {
    match const_eval(w, params, Set::empty()) {
        Some(v) => #[verifier::truncate] (v as u32),
        None => 32,
    }
}

/// A constant folded against `params`, 0 when it does not fold.
pub open spec fn fold_value(e: crate::ast::Expr, params: Seq<ParamDecl>) -> u64 {
    match const_eval(e, params, Set::empty()) {
        Some(v) => v,
        None => 0,
    }
}

/// Bit width of a declared type with widths folded against `params`
/// (named and Vec types count as 32 bits).
pub open spec fn type_bits(ty: TypeExpr, params: Seq<ParamDecl>) -> u32 {
    match ty {
        TypeExpr::UInt(w) => fold_width(*w, params),
        TypeExpr::SInt(w) => fold_width(*w, params),
        TypeExpr::Bool | TypeExpr::Bit | TypeExpr::Clock(_) | TypeExpr::Reset(_, _) => 1,
        TypeExpr::FP32 => 32,
        TypeExpr::BF16 => 16,
        TypeExpr::FP8E4M3 | TypeExpr::FP8E5M2 => 8,
        TypeExpr::Named(_) => 32,
        TypeExpr::Vec(_, _) => 32,
    }
}

/// Element type and folded element count of a Vec type.
pub open spec fn vec_info(ty: TypeExpr, params: Seq<ParamDecl>) -> Option<(Seq<char>, u64)> {
    match ty {
        TypeExpr::Vec(elem, n) => Some((port_type_spec(*elem, params), fold_value(*n, params))),
        _ => None,
    }
}

/// Declared width of each port, register and typed `let`, by name.
pub open spec fn signal_widths(
    ports: Seq<PortDecl>,
    body: Seq<ModuleBodyItem>,
    params: Seq<ParamDecl>,
) -> Map<Seq<char>, u32>
    decreases ports.len() + body.len(),
{
    if body.len() > 0 {
        let m = signal_widths(ports, body.drop_last(), params);
        match body.last() {
            ModuleBodyItem::RegDecl(r) => m.insert(r.name.name@, type_bits(r.ty, params)),
            ModuleBodyItem::LetBinding(l) => match l.ty {
                Some(t) => m.insert(l.name.name@, type_bits(t, params)),
                None => m,
            },
            _ => m,
        }
    } else if ports.len() > 0 {
        signal_widths(ports.drop_last(), body, params).insert(
            ports.last().name.name@,
            type_bits(ports.last().ty, params),
        )
    } else {
        Map::empty()
    }
}

/// The stage names of a pipe register of `stages` stages: `<name>_stg1`,
/// ..., and the last stage under the register's own name.
pub open spec fn pipe_stage_set(name: Seq<char>, stages: u32) -> Set<Seq<char>> {
    Set::new(
        |n: Seq<char>|
            (stages > 0 && n == name) || exists|i: int|
                1 <= i < stages && n == name + "_stg"@ + #[trigger] dec_str(i as nat),
    )
}

/// Ports wider than 64 bits.
pub open spec fn wide_ports(ports: Seq<PortDecl>, params: Seq<ParamDecl>) -> Set<Seq<char>>
    decreases ports.len(),
{
    if ports.len() == 0 {
        Set::empty()
    } else {
        let s = wide_ports(ports.drop_last(), params);
        if type_bits(ports.last().ty, params) > 64 {
            s.insert(ports.last().name.name@)
        } else {
            s
        }
    }
}

/// Names a body item declares wider than 64 bits: a register or typed
/// `let`, or every stage of a pipe register whose source is wider.
pub open spec fn item_wide_names(
    it: ModuleBodyItem,
    params: Seq<ParamDecl>,
    widths: Map<Seq<char>, u32>,
) -> Set<Seq<char>> {
    match it {
        ModuleBodyItem::RegDecl(r) => if type_bits(r.ty, params) > 64 {
            set![r.name.name@]
        } else {
            Set::empty()
        },
        ModuleBodyItem::LetBinding(l) => match l.ty {
            Some(t) => if type_bits(t, params) > 64 {
                set![l.name.name@]
            } else {
                Set::empty()
            },
            None => Set::empty(),
        },
        ModuleBodyItem::PipeRegDecl(p) => if (if widths.contains_key(p.source.name@) {
            widths[p.source.name@]
        } else {
            32
        }) > 64 {
            pipe_stage_set(p.name.name@, p.stages)
        } else {
            Set::empty()
        },
        _ => Set::empty(),
    }
}

pub open spec fn wide_items(
    body: Seq<ModuleBodyItem>,
    params: Seq<ParamDecl>,
    widths: Map<Seq<char>, u32>,
) -> Set<Seq<char>>
    decreases body.len(),
{
    if body.len() == 0 {
        Set::empty()
    } else {
        wide_items(body.drop_last(), params, widths).union(
            item_wide_names(body.last(), params, widths),
        )
    }
}

/// Signals wider than 64 bits: ports, registers and typed `let`s, and
/// every stage of a pipe register whose source is wider than 64 bits.
pub open spec fn wide_names_spec(
    ports: Seq<PortDecl>,
    body: Seq<ModuleBodyItem>,
    params: Seq<ParamDecl>,
) -> Set<Seq<char>> {
    wide_ports(ports, params).union(wide_items(body, params, signal_widths(ports, body, params)))
}

/// One `_port_info` entry: name, width, signed, input, parameter,
/// internal register.
pub type InfoView = (Seq<char>, u32, bool, bool, bool, bool);

pub open spec fn bool_text(b: bool) -> Seq<char> {
    if b { "true"@ } else { "false"@ }
}

pub open spec fn info_entry(e: InfoView) -> Seq<char> {
    "            py::make_tuple(\""@ + e.0 + "\", "@ + dec_str(e.1 as nat) + ", "@ + bool_text(e.2)
        + ", "@ + bool_text(e.3) + ", "@ + bool_text(e.4) + ", "@ + bool_text(e.5) + ")"@
}

/// A read-write field binding.
pub open spec fn readwrite_text(class: Seq<char>, field: Seq<char>) -> Seq<char> {
    "        .def_readwrite(\""@ + field + "\", &"@ + class + "::"@ + field + ")"@
}

/// Whether a port is a Vec port.
pub open spec fn is_vec_port(p: PortDecl, params: Seq<ParamDecl>) -> bool {
    vec_info(p.ty, params) is Some
}

/// Bindings and entries of the scalar (non-Vec) ports.
pub open spec fn scalar_ports(
    ports: Seq<PortDecl>,
    class: Seq<char>,
    params: Seq<ParamDecl>,
    wide: Set<Seq<char>>,
) -> (Seq<Seq<char>>, Seq<InfoView>)
    decreases ports.len(),
{
    if ports.len() == 0 {
        (Seq::empty(), Seq::empty())
    } else {
        let (bs, es) = scalar_ports(ports.drop_last(), class, params, wide);
        let p = ports.last();
        if is_vec_port(p, params) {
            (bs, es)
        } else {
            let field = p.name.name@;
            let width = port_width_spec(p.ty);
            let b = if wide.contains(field) {
                wide_binding_text(class, field, width)
            } else {
                readwrite_text(class, field)
            };
            (
                bs.push(b),
                es.push((field, width, p.ty is SInt, p.direction == Direction::In, false, false)),
            )
        }
    }
}

/// `<base>_0`, ..., `<base>_<count-1>` of one Vec port.
pub open spec fn vec_lanes(
    base: Seq<char>,
    count: nat,
    class: Seq<char>,
    width: u32,
    input: bool,
) -> (Seq<Seq<char>>, Seq<InfoView>) {
    (
        Seq::new(count, |i: int| readwrite_text(class, base + "_"@ + dec_str(i as nat))),
        Seq::new(count, |i: int| (base + "_"@ + dec_str(i as nat), width, false, input, false, false)),
    )
}

/// Bindings and entries of the flattened elements of the Vec ports.
pub open spec fn vec_ports(
    ports: Seq<PortDecl>,
    all_ports: Seq<PortDecl>,
    class: Seq<char>,
    params: Seq<ParamDecl>,
) -> (Seq<Seq<char>>, Seq<InfoView>)
    decreases ports.len(),
{
    if ports.len() == 0 {
        (Seq::empty(), Seq::empty())
    } else {
        let (bs, es) = vec_ports(ports.drop_last(), all_ports, class, params);
        let p = ports.last();
        match vec_info(p.ty, params) {
            Some((_, count)) => {
                let (lb, le) = vec_lanes(
                    p.name.name@,
                    count as nat,
                    class,
                    vec_elem_width_spec(all_ports, p.name.name@),
                    p.direction == Direction::In,
                );
                (bs + lb, es + le)
            },
            None => (bs, es),
        }
    }
}

/// The accessor of an internal register that reads either the shadow
/// field or the field itself.
pub open spec fn reg_helper_text(rname: Seq<char>) -> Seq<char> {
    let helper = "read_internal_"@ + rname;
    let field = "_"@ + rname;
    "\ntemplate <typename T>\nauto "@ + helper
        + "(const T& self) {\n    if constexpr (requires(const T& t) { t."@ + field
        + "; }) {\n        return self."@ + field + ";\n    } else {\n        return self."@ + rname
        + ";\n    }\n}\n"@
}

/// Whether some port has the name `n`.
pub open spec fn has_port(ports: Seq<PortDecl>, n: Seq<char>) -> bool {
    exists|i: int| 0 <= i < ports.len() && ports[i].name.name@ == n
}

/// Helpers, bindings and entries of the internal scalar registers (not
/// ports, not Vecs).
pub open spec fn internal_regs(
    body: Seq<ModuleBodyItem>,
    ports: Seq<PortDecl>,
    class: Seq<char>,
    params: Seq<ParamDecl>,
) -> (Seq<char>, Seq<Seq<char>>, Seq<InfoView>)
    decreases body.len(),
{
    if body.len() == 0 {
        (Seq::empty(), Seq::empty(), Seq::empty())
    } else {
        let (hs, bs, es) = internal_regs(body.drop_last(), ports, class, params);
        match body.last() {
            ModuleBodyItem::RegDecl(r) => {
                let rname = r.name.name@;
                if has_port(ports, rname) || vec_info(r.ty, params) is Some {
                    (hs, bs, es)
                } else {
                    (
                        hs + reg_helper_text(rname),
                        bs.push(
                            "        .def_property_readonly(\""@ + rname
                                + "\", &arch_pybind_detail::read_internal_"@ + rname + "<"@ + class
                                + ">)"@,
                        ),
                        es.push((rname, port_width_spec(r.ty), r.ty is SInt, false, false, true)),
                    )
                }
            },
            _ => (hs, bs, es),
        }
    }
}

/// A static read-only parameter property returning `val`.
pub open spec fn param_binding_text(pname: Seq<char>, val: u64) -> Seq<char> {
    "        .def_property_readonly_static(\""@ + pname + "\", [](py::object) { return "@ + dec_str(
        val as nat,
    ) + "ULL; })"@
}

/// Width of a constant parameter's entry.
pub open spec fn param_width(p: ParamDecl, params: Seq<ParamDecl>) -> u32 {
    match p.kind {
        ParamKind::Logic(ty) => type_bits(ty, params),
        ParamKind::WidthConst(hi, lo) => #[verifier::truncate] ((fold_value(hi, params) - fold_value(
            lo,
            params,
        ) + 1) as u32),
        _ => 32,
    }
}

/// Bindings and entries of the parameters: constant ones with their folded
/// defaults, enum ones with their variant's encoding.
pub open spec fn param_bindings(
    ps: Seq<ParamDecl>,
    params: Seq<ParamDecl>,
    em: Map<Seq<char>, Seq<(Seq<char>, u64)>>,
) -> (Seq<Seq<char>>, Seq<InfoView>)
    decreases ps.len(),
{
    if ps.len() == 0 {
        (Seq::empty(), Seq::empty())
    } else {
        let (bs, es) = param_bindings(ps.drop_last(), params, em);
        let p = ps.last();
        let pname = p.name.name@;
        match p.kind {
            ParamKind::Const | ParamKind::WidthConst(_, _) | ParamKind::Logic(_) => match p.default {
                Some(d) => {
                    let val = fold_value(d, params);
                    let signed = match p.kind {
                        ParamKind::Logic(t) => t is SInt,
                        _ => false,
                    };
                    (
                        bs.push(param_binding_text(pname, val)),
                        es.push((pname, param_width(p, params), signed, false, true, false)),
                    )
                },
                None => (bs, es),
            },
            ParamKind::EnumConst(en) => match p.default {
                Some(d) => match d.kind {
                    ExprKind::EnumVariant(_, vr) => match (if em.contains_key(en@) {
                        enum_variant_value(em, en@, vr.name@)
                    } else {
                        None
                    }) {
                        Some(val) => (
                            bs.push(param_binding_text(pname, val)),
                            es.push((pname, 32, false, false, true, false)),
                        ),
                        None => (bs, es),
                    },
                    _ => (bs, es),
                },
                None => (bs, es),
            },
            _ => (bs, es),
        }
    }
}

/// The eval methods, bound through compatibility shims.
pub open spec fn method_bindings(class: Seq<char>) -> Seq<Seq<char>> {
    seq![
        "        .def(\"eval\", &"@ + class + "::eval)"@,
        "        .def(\"eval_comb\", &arch_pybind_detail::eval_comb<"@ + class + ">)"@,
        "        .def(\"eval_posedge\", &arch_pybind_detail::eval_posedge<"@ + class + ">)"@,
        "        .def(\"run_cycles\", &arch_pybind_detail::run_cycles<"@ + class + ">)"@,
    ]
}

/// The struct a type names, through Vecs.
pub open spec fn named_struct(ty: TypeExpr) -> Option<Seq<char>>
    decreases ty,
{
    match ty {
        TypeExpr::Named(id) => Some(id.name@),
        TypeExpr::Vec(inner, _) => named_struct(*inner),
        _ => None,
    }
}

/// The structs of the file (file scope and packages), the last of a name
/// deciding.
pub open spec fn struct_map(items: Seq<Item>) -> Map<Seq<char>, StructDecl>
    decreases items.len(),
{
    if items.len() == 0 {
        Map::empty()
    } else {
        let m = struct_map(items.drop_last());
        match items.last() {
            Item::Struct(s) => m.insert(s.name.name@, s),
            Item::Package(p) => structs_into(m, p.structs@),
            _ => m,
        }
    }
}

pub open spec fn structs_into(m: Map<Seq<char>, StructDecl>, ss: Seq<StructDecl>) -> Map<
    Seq<char>,
    StructDecl,
>
    decreases ss.len(),
{
    if ss.len() == 0 {
        m
    } else {
        structs_into(m, ss.drop_last()).insert(ss.last().name.name@, ss.last())
    }
}

/// The structs of the file in source order.
pub open spec fn ordered_structs(items: Seq<Item>) -> Seq<StructDecl>
    decreases items.len(),
{
    if items.len() == 0 {
        Seq::empty()
    } else {
        let rest = ordered_structs(items.drop_last());
        match items.last() {
            Item::Struct(s) => rest.push(s),
            Item::Package(p) => rest + p.structs@,
            _ => rest,
        }
    }
}

/// The struct names a module refers to directly: those of its port and
/// register types.
pub open spec fn root_structs(m: ModuleDecl) -> Set<Seq<char>> {
    Set::new(
        |n: Seq<char>|
            (exists|i: int|
                0 <= i < m.ports@.len() && #[trigger] named_struct(m.ports@[i].ty) == Some(n)) || (
            exists|i: int| 0 <= i < m.body@.len() && #[trigger] reg_struct(m.body@[i], n)),
    )
}

/// Body item `it` is a register whose type names the struct `n`.
pub open spec fn reg_struct(it: ModuleBodyItem, n: Seq<char>) -> bool {
    match it {
        ModuleBodyItem::RegDecl(r) => named_struct(r.ty) == Some(n),
        _ => false,
    }
}

/// `b` is named by a field of the struct `a` of the map.
pub open spec fn field_edge(structs: Map<Seq<char>, StructDecl>, a: Seq<char>, b: Seq<char>) -> bool {
    structs.contains_key(a) && exists|j: int|
        0 <= j < structs[a].fields@.len() && named_struct(structs[a].fields@[j].ty) == Some(b)
}

/// `n` is reached from the roots through struct fields.
pub open spec fn struct_reachable(
    roots: Set<Seq<char>>,
    structs: Map<Seq<char>, StructDecl>,
    n: Seq<char>,
) -> bool {
    exists|path: Seq<Seq<char>>|
        #![trigger path.last()]
        path.len() > 0 && roots.contains(path[0]) && path.last() == n && forall|k: int|
            0 <= k < path.len() - 1 ==> field_edge(structs, #[trigger] path[k], path[k + 1])
}

/// The `py::class_` binding of a struct.
pub open spec fn struct_binding(s: StructDecl) -> Seq<char> {
    "    py::class_<"@ + s.name.name@ + ">(m, \""@ + s.name.name@
        + "\", py::module_local())\n        .def(py::init<>())\n"@ + struct_fields_text(
        s.name.name@,
        s.fields@,
    ) + "        ;\n"@
}

pub open spec fn struct_fields_text(sname: Seq<char>, fs: Seq<crate::ast::StructField>) -> Seq<char>
    decreases fs.len(),
{
    if fs.len() == 0 {
        Seq::empty()
    } else {
        struct_fields_text(sname, fs.drop_last()) + "        .def_readwrite(\""@
            + fs.last().name.name@ + "\", &"@ + sname + "::"@ + fs.last().name.name@ + ")\n"@
    }
}

/// The bindings of the structs in `used`, in source order.
pub open spec fn struct_bindings(ss: Seq<StructDecl>, used: Set<Seq<char>>) -> Seq<char>
    decreases ss.len(),
{
    if ss.len() == 0 {
        Seq::empty()
    } else {
        struct_bindings(ss.drop_last(), used) + if used.contains(ss.last().name.name@) {
            struct_binding(ss.last())
        } else {
            Seq::empty()
        }
    }
}

/// The wrapper's source from its parts.
pub open spec fn pybind_text(
    class: Seq<char>,
    helpers: Seq<char>,
    structs: Seq<char>,
    bindings: Seq<Seq<char>>,
    infos: Seq<InfoView>,
) -> Seq<char> {
    "// Auto-generated pybind11 wrapper for "@ + class
        + "\n#include <pybind11/pybind11.h>\n#include <pybind11/stl.h>\n#include <cstdint>\n#include \""@
        + class + ".h\"\nnamespace py = pybind11;\n\nnamespace arch_pybind_detail {\n"@
        + pybind_shims() + "\n"@ + helpers + "\n} // namespace arch_pybind_detail\n\nPYBIND11_MODULE("@ + class
        + "_pybind, m) {\n"@ + structs + "    py::class_<"@ + class + ">(m, \""@ + class
        + "\")\n        .def(py::init<>())\n"@ + join(bindings, "\n"@)
        + "\n        .def_static(\"_port_info\", []() {\n            return std::vector<py::tuple>{\n"@
        + join(info_texts(infos), ",\n"@)
        + "\n            };\n        });\n}\n"@
}

/// The tuple text of each port-info entry, in order.
pub open spec fn info_texts(infos: Seq<InfoView>) -> Seq<Seq<char>> {
    infos.map_values(|e: InfoView| info_entry(e))
}

/// The shims that adapt models without `eval_comb`, `eval_posedge` or
/// `run_cycles`.
pub open spec fn pybind_shims() -> Seq<char> {
    "template <typename T>\nvoid eval_comb(T& self) {\n    if constexpr (requires(T& t) { t.eval_comb(); }) {\n        self.eval_comb();\n    } else {\n        self.eval();\n    }\n}\n\ntemplate <typename T>\nvoid eval_posedge(T& self) {\n    if constexpr (requires(T& t) { t.eval_posedge(); }) {\n        self.eval_posedge();\n    } else {\n        self.eval();\n    }\n}\n\ntemplate <typename T>\nvoid run_cycles(T& self, uint64_t cycles) {\n    if constexpr (requires(T& t, uint64_t n) { t.run_cycles(n); }) {\n        self.run_cycles(cycles);\n    } else {\n        for (uint64_t i = 0; i < cycles; ++i) self.eval();\n    }\n}"@
}

// ------------------------------------------------------------- exec

fn fold_width_exec(w: &crate::ast::Expr, params: &[ParamDecl]) -> (r: u32)
    ensures
        r == fold_width(*w, params@),
{
    match crate::const_eval::try_eval_const_expr_with_params(w, params) {
        Some(v) => #[verifier::truncate] (v as u32),
        None => 32,
    }
}

/// Bit width of a declared type (see [`type_bits`]).
pub fn type_bits_te_with_params(ty: &TypeExpr, params: &[ParamDecl]) -> (r: u32)
    ensures
        r == type_bits(*ty, params@),
{
    match ty {
        TypeExpr::UInt(w) => fold_width_exec(w, params),
        TypeExpr::SInt(w) => fold_width_exec(w, params),
        TypeExpr::Bool | TypeExpr::Bit | TypeExpr::Clock(_) | TypeExpr::Reset(_, _) => 1,
        TypeExpr::FP32 => 32,
        TypeExpr::BF16 => 16,
        TypeExpr::FP8E4M3 | TypeExpr::FP8E5M2 => 8,
        TypeExpr::Named(_) => 32,
        TypeExpr::Vec(_, _) => 32,
    }
}

/// Element type and folded element count of a Vec type.
pub fn vec_array_info_with_params(ty: &TypeExpr, params: &[ParamDecl]) -> (r: Option<(String, u64)>)
    ensures
        match r {
            Some((t, n)) => vec_info(*ty, params@) == Some((t@, n)),
            None => vec_info(*ty, params@) is None,
        },
{
    match ty {
        TypeExpr::Vec(elem, n) => Some(
            (cpp_port_type_with_params(elem, params), eval_const_expr_with_params(n, params)),
        ),
        _ => None,
    }
}

/// Declared widths of the ports, registers and typed `let`s.
fn build_widths(ports: &[PortDecl], body: &[ModuleBodyItem], params: &[ParamDecl]) -> (r: NameMap<
    u32,
>)
    ensures
        r@ == signal_widths(ports@, body@, params@),
{
    let mut m: NameMap<u32> = NameMap::new();
    let mut i: usize = 0;
    proof {
        assert(ports@.take(0) =~= Seq::<PortDecl>::empty());
        assert(body@.take(0) =~= Seq::<ModuleBodyItem>::empty());
    }
    while i < ports.len()
        invariant
            i <= ports@.len(),
            m@ == signal_widths(ports@.take(i as int), Seq::empty(), params@),
        decreases ports@.len() - i,
    {
        proof {
            assert(ports@.take(i + 1).drop_last() =~= ports@.take(i as int));
        }
        m.insert(ports[i].name.name.clone(), type_bits_te_with_params(&ports[i].ty, params));
        i = i + 1;
    }
    proof {
        assert(ports@.take(ports@.len() as int) =~= ports@);
    }
    let mut j: usize = 0;
    while j < body.len()
        invariant
            j <= body@.len(),
            m@ == signal_widths(ports@, body@.take(j as int), params@),
        decreases body@.len() - j,
    {
        proof {
            assert(body@.take(j + 1).drop_last() =~= body@.take(j as int));
        }
        match &body[j] {
            ModuleBodyItem::RegDecl(r) => {
                m.insert(r.name.name.clone(), type_bits_te_with_params(&r.ty, params));
            },
            ModuleBodyItem::LetBinding(l) => {
                if let Some(t) = &l.ty {
                    m.insert(l.name.name.clone(), type_bits_te_with_params(t, params));
                }
            },
            _ => {},
        }
        j = j + 1;
    }
    proof {
        assert(body@.take(body@.len() as int) =~= body@);
    }
    m
}

/// `<name>_stg<i>`.
fn stage_name(name: &str, i: u32) -> (r: String)
    ensures
        r@ == name@ + "_stg"@ + dec_str(i as nat),
{
    let mut s = own(name);
    push_str(&mut s, "_stg");
    push_str(&mut s, dec32(i).as_str());
    s
}

/// Add the stage names of a pipe register to `s`.
fn insert_stages(name: &String, stages: u32, s: &mut NameSet)
    ensures
        final(s)@ == old(s)@.union(pipe_stage_set(name@, stages)),
{
    let ghost s0 = s@;
    let mut i: u32 = 0;
    while i < stages
        invariant
            i <= stages,
            s@ == s0.union(
                Set::new(
                    |n: Seq<char>|
                        (i == stages && stages > 0 && n == name@) || exists|k: int|
                            1 <= k < stages && k <= i && n == name@ + "_stg"@ + #[trigger] dec_str(
                                k as nat,
                            ),
                ),
            ),
        decreases stages - i,
    {
        let ghost before = s@;
        if i == stages - 1 {
            s.insert(name.clone());
        } else {
            s.insert(stage_name(name.as_str(), i + 1));
        }
        proof {
            assert(s@ =~= s0.union(
                Set::new(
                    |n: Seq<char>|
                        (i + 1 == stages && stages > 0 && n == name@) || exists|k: int|
                            1 <= k < stages && k <= i + 1 && n == name@ + "_stg"@
                                + #[trigger] dec_str(k as nat),
                ),
            )) by {
                assert forall|n: Seq<char>| #[trigger] s@.contains(n) implies s0.union(
                    Set::new(
                        |n: Seq<char>|
                            (i + 1 == stages && stages > 0 && n == name@) || exists|k: int|
                                1 <= k < stages && k <= i + 1 && n == name@ + "_stg"@
                                    + #[trigger] dec_str(k as nat),
                    ),
                ).contains(n) by {
                    if i != stages - 1 && n == name@ + "_stg"@ + dec_str((i + 1) as nat) {
                        assert(1 <= i + 1 < stages);
                    }
                }
            }
        }
        i = i + 1;
    }
    proof {
        assert(s@ =~= s0.union(pipe_stage_set(name@, stages)));
    }
}

/// Names of the signals wider than 64 bits (see [`wide_names_spec`]).
pub fn collect_wide_names(ports: &[PortDecl], body: &[ModuleBodyItem], params: &[ParamDecl]) -> (r:
    NameSet)
    ensures
        r@ == wide_names_spec(ports@, body@, params@),
{
    let mut s = NameSet::new();
    let mut i: usize = 0;
    while i < ports.len()
        invariant
            i <= ports@.len(),
            s@ == wide_ports(ports@.take(i as int), params@),
        decreases ports@.len() - i,
    {
        proof {
            assert(ports@.take(i + 1).drop_last() =~= ports@.take(i as int));
        }
        if type_bits_te_with_params(&ports[i].ty, params) > 64 {
            s.insert(ports[i].name.name.clone());
        }
        i = i + 1;
    }
    proof {
        assert(ports@.take(ports@.len() as int) =~= ports@);
    }
    let widths = build_widths(ports, body, params);
    let ghost ws = widths@;
    let ghost sp = s@;
    let mut j: usize = 0;
    while j < body.len()
        invariant
            j <= body@.len(),
            ws == widths@,
            s@ == sp.union(wide_items(body@.take(j as int), params@, ws)),
        decreases body@.len() - j,
    {
        proof {
            assert(body@.take(j + 1).drop_last() =~= body@.take(j as int));
        }
        let ghost before = s@;
        match &body[j] {
            ModuleBodyItem::RegDecl(r) => {
                if type_bits_te_with_params(&r.ty, params) > 64 {
                    s.insert(r.name.name.clone());
                }
            },
            ModuleBodyItem::LetBinding(l) => {
                if let Some(t) = &l.ty {
                    if type_bits_te_with_params(t, params) > 64 {
                        s.insert(l.name.name.clone());
                    }
                }
            },
            ModuleBodyItem::PipeRegDecl(p) => {
                let w: u32 = match widths.get(p.source.name.as_str()) {
                    Some(w) => *w,
                    None => 32,
                };
                if w > 64 {
                    insert_stages(&p.name.name, p.stages, &mut s);
                }
            },
            _ => {},
        }
        proof {
            assert(s@ =~= before.union(item_wide_names(body@[j as int], params@, ws)));
            assert(s@ =~= sp.union(wide_items(body@.take(j + 1), params@, ws)));
        }
        j = j + 1;
    }
    proof {
        assert(body@.take(body@.len() as int) =~= body@);
        assert(s@ =~= wide_names_spec(ports@, body@, params@));
    }
    s
}

/// The struct view of a map of struct references.
pub open spec fn refs_view(m: NameMap<&StructDecl>) -> Map<Seq<char>, StructDecl> {
    m@.map_values(|s: &StructDecl| *s)
}

proof fn lemma_structs_into_finite(m: Map<Seq<char>, StructDecl>, ss: Seq<StructDecl>)
    requires
        m.dom().finite(),
    ensures
        structs_into(m, ss).dom().finite(),
    decreases ss.len(),
{
    if ss.len() > 0 {
        lemma_structs_into_finite(m, ss.drop_last());
    }
}

proof fn lemma_struct_map_finite(items: Seq<Item>)
    ensures
        struct_map(items).dom().finite(),
    decreases items.len(),
{
    if items.len() > 0 {
        lemma_struct_map_finite(items.drop_last());
        if let Item::Package(p) = items.last() {
            lemma_structs_into_finite(struct_map(items.drop_last()), p.structs@);
        }
    }
}

/// Every struct of the file by name, the last declaration deciding.
fn all_structs<'b>(items: &'b Vec<Item>) -> (r: NameMap<&'b StructDecl>)
    ensures
        refs_view(r) == struct_map(items@),
{
    let mut m: NameMap<&'b StructDecl> = NameMap::new();
    let mut i: usize = 0;
    proof {
        assert(refs_view(m) =~= Map::<Seq<char>, StructDecl>::empty());
    }
    while i < items.len()
        invariant
            i <= items@.len(),
            refs_view(m) == struct_map(items@.take(i as int)),
        decreases items@.len() - i,
    {
        proof {
            assert(items@.take(i + 1).drop_last() =~= items@.take(i as int));
        }
        match &items[i] {
            Item::Struct(sd) => {
                let ghost before = refs_view(m);
                m.insert(sd.name.name.clone(), sd);
                proof {
                    assert(refs_view(m) =~= before.insert(sd.name.name@, *sd));
                }
            },
            Item::Package(p) => {
                let ghost base = refs_view(m);
                let mut j: usize = 0;
                proof {
                    assert(p.structs@.take(0) =~= Seq::<StructDecl>::empty());
                }
                while j < p.structs.len()
                    invariant
                        j <= p.structs@.len(),
                        refs_view(m) == structs_into(base, p.structs@.take(j as int)),
                    decreases p.structs@.len() - j,
                {
                    proof {
                        assert(p.structs@.take(j + 1).drop_last() =~= p.structs@.take(j as int));
                    }
                    let ghost before = refs_view(m);
                    m.insert(p.structs[j].name.name.clone(), &p.structs[j]);
                    proof {
                        assert(refs_view(m) =~= before.insert(
                            p.structs@[j as int].name.name@,
                            p.structs@[j as int],
                        ));
                    }
                    j = j + 1;
                }
                proof {
                    assert(p.structs@.take(p.structs@.len() as int) =~= p.structs@);
                }
            },
            _ => {},
        }
        i = i + 1;
    }
    proof {
        assert(items@.take(items@.len() as int) =~= items@);
    }
    m
}

/// Push the struct a type names, if any.
fn push_named(ty: &TypeExpr, stack: &mut Vec<String>)
    ensures
        strs_view(final(stack)@) == match named_struct(*ty) {
            Some(n) => strs_view(old(stack)@).push(n),
            None => strs_view(old(stack)@),
        },
    decreases ty,
{
    match ty {
        TypeExpr::Named(id) => {
            let ghost before = stack@;
            stack.push(id.name.clone());
            proof {
                assert(strs_view(stack@) =~= strs_view(before).push(id.name@));
            }
        },
        TypeExpr::Vec(inner, _) => push_named(inner, stack),
        _ => {},
    }
}

/// The structs a module uses: those its port and register types name, and
/// through their fields every struct reachable from them.
fn collect_used_structs(m: &ModuleDecl, all: &NameMap<&StructDecl>) -> (r: NameSet)
    requires
        refs_view(*all).dom().finite(),
    ensures
        r@ == used_structs_spec(*m, refs_view(*all)),
{
    let ghost sm = refs_view(*all);
    let ghost roots = root_structs(*m);
    let mut stack: Vec<String> = Vec::new();
    let mut i: usize = 0;
    proof {
        assert(strs_view(stack@) =~= Seq::<Seq<char>>::empty());
    }
    while i < m.ports.len()
        invariant
            i <= m.ports@.len(),
            roots == root_structs(*m),
            forall|k: int| 0 <= k < strs_view(stack@).len() ==> roots.contains(#[trigger] strs_view(stack@)[k]),
            forall|k: int|
                0 <= k < i && named_struct(m.ports@[k].ty) is Some ==> strs_view(stack@).contains(
                    named_struct(#[trigger] m.ports@[k].ty).unwrap(),
                ),
        decreases m.ports@.len() - i,
    {
        let ghost before = strs_view(stack@);
        push_named(&m.ports[i].ty, &mut stack);
        proof {
            assert forall|k: int| 0 <= k < strs_view(stack@).len() implies roots.contains(
                #[trigger] strs_view(stack@)[k],
            ) by {
                if k == before.len() {
                    assert(named_struct(m.ports@[i as int].ty) == Some(strs_view(stack@)[k]));
                }
            }
            assert forall|k: int|
                0 <= k < i + 1 && named_struct(m.ports@[k].ty) is Some implies strs_view(
                stack@,
            ).contains(named_struct(#[trigger] m.ports@[k].ty).unwrap()) by {
                if k < i {
                    let w = choose|w: int|
                        0 <= w < before.len() && before[w] == named_struct(m.ports@[k].ty).unwrap();
                    assert(strs_view(stack@)[w] == before[w]);
                } else {
                    assert(strs_view(stack@)[before.len() as int] == named_struct(
                        m.ports@[k].ty,
                    ).unwrap());
                }
            }
        }
        i = i + 1;
    }
    let mut j: usize = 0;
    while j < m.body.len()
        invariant
            j <= m.body@.len(),
            roots == root_structs(*m),
            forall|k: int| 0 <= k < strs_view(stack@).len() ==> roots.contains(#[trigger] strs_view(stack@)[k]),
            forall|k: int|
                0 <= k < m.ports@.len() && named_struct(m.ports@[k].ty) is Some ==> strs_view(
                    stack@,
                ).contains(named_struct(#[trigger] m.ports@[k].ty).unwrap()),
            forall|k: int, n: Seq<char>|
                0 <= k < j && #[trigger] reg_struct(m.body@[k], n) ==> strs_view(stack@).contains(n),
        decreases m.body@.len() - j,
    {
        let ghost before = strs_view(stack@);
        if let ModuleBodyItem::RegDecl(r) = &m.body[j] {
            push_named(&r.ty, &mut stack);
        }
        proof {
            assert forall|k: int| 0 <= k < strs_view(stack@).len() implies roots.contains(
                #[trigger] strs_view(stack@)[k],
            ) by {
                if k >= before.len() {
                    assert(reg_struct(m.body@[j as int], strs_view(stack@)[k]));
                }
            }
            assert forall|k: int|
                0 <= k < m.ports@.len() && named_struct(m.ports@[k].ty) is Some implies strs_view(
                stack@,
            ).contains(named_struct(#[trigger] m.ports@[k].ty).unwrap()) by {
                let w = choose|w: int|
                    0 <= w < before.len() && before[w] == named_struct(m.ports@[k].ty).unwrap();
                assert(strs_view(stack@)[w] == before[w]);
            }
            assert forall|k: int, n: Seq<char>|
                0 <= k < j + 1 && #[trigger] reg_struct(m.body@[k], n) implies strs_view(
                stack@,
            ).contains(n) by {
                if k < j {
                    let w = choose|w: int| 0 <= w < before.len() && before[w] == n;
                    assert(strs_view(stack@)[w] == before[w]);
                } else {
                    assert(strs_view(stack@)[before.len() as int] == n);
                }
            }
        }
        j = j + 1;
    }
    let mut used = NameSet::new();
    proof {
        assert forall|n: Seq<char>| roots.contains(n) implies used@.contains(n) || strs_view(
            stack@,
        ).contains(n) by {
            if exists|i: int| 0 <= i < m.ports@.len() && #[trigger] named_struct(m.ports@[i].ty)
                == Some(n) {
                let i = choose|i: int|
                    0 <= i < m.ports@.len() && #[trigger] named_struct(m.ports@[i].ty) == Some(n);
                assert(named_struct(m.ports@[i].ty) is Some);
            } else {
                let k = choose|k: int| 0 <= k < m.body@.len() && #[trigger] reg_struct(m.body@[k], n);
                assert(reg_struct(m.body@[k], n));
            }
        }
        assert forall|k: int| 0 <= k < strs_view(stack@).len() implies struct_reachable(
            roots,
            sm,
            #[trigger] strs_view(stack@)[k],
        ) by {
            let x = strs_view(stack@)[k];
            let path = seq![x];
            assert(path.last() == x);
        }
    }
    while stack.len() > 0
        invariant
            roots == root_structs(*m),
            sm == refs_view(*all),
            sm.dom().finite(),
            dfs_inv(roots, sm, used@, strs_view(stack@)),
        decreases sm.dom().difference(used@).len(), stack@.len(),
    {
        let ghost sv = strs_view(stack@);
        let ghost used0 = used@;
        let name = stack.pop().unwrap();
        proof {
            assert(strs_view(stack@) =~= sv.drop_last());
        }
        if !used.contains(name.as_str()) {
            used.insert(name.clone());
            proof {
                assert(sm.dom().difference(used@) =~= sm.dom().difference(used0).remove(name@));
            }
            match all.get(name.as_str()) {
                Some(sd) => {
                    push_fields(sd, &mut stack);
                    proof {
                        lemma_dfs_expand(roots, sm, used0, sv, name@);
                    }
                },
                None => {
                    proof {
                        assert(sm.dom().difference(used@) =~= sm.dom().difference(used0));
                        lemma_dfs_leaf(roots, sm, used0, sv, name@);
                    }
                },
            }
        } else {
            proof {
                lemma_dfs_seen(roots, sm, used0, sv);
            }
        }
    }
    proof {
        assert forall|n: Seq<char>| struct_reachable(roots, sm, n) implies used@.contains(n) by {
            lemma_closed_contains_reachable(roots, sm, used@, n);
        }
        assert(used@ =~= used_structs_spec(*m, sm));
    }
    used
}

/// The structs a module uses: those reachable from the structs its port
/// and register types name.
pub open spec fn used_structs_spec(m: ModuleDecl, sm: Map<Seq<char>, StructDecl>) -> Set<Seq<char>> {
    Set::new(|n: Seq<char>| struct_reachable(root_structs(m), sm, n))
}

proof fn lemma_closed_contains_reachable(
    roots: Set<Seq<char>>,
    sm: Map<Seq<char>, StructDecl>,
    r: Set<Seq<char>>,
    n: Seq<char>,
)
    requires
        forall|x: Seq<char>| roots.contains(x) ==> r.contains(x),
        forall|a: Seq<char>, b: Seq<char>| r.contains(a) && #[trigger] field_edge(sm, a, b) ==> r.contains(b),
        struct_reachable(roots, sm, n),
    ensures
        r.contains(n),
{
    let path = choose|path: Seq<Seq<char>>|
        #![trigger path.last()]
        path.len() > 0 && roots.contains(path[0]) && path.last() == n && forall|q: int|
            0 <= q < path.len() - 1 ==> field_edge(sm, #[trigger] path[q], path[q + 1]);
    lemma_path_in(sm, r, path, path.len() - 1);
}

proof fn lemma_path_in(
    sm: Map<Seq<char>, StructDecl>,
    r: Set<Seq<char>>,
    path: Seq<Seq<char>>,
    k: int,
)
    requires
        0 <= k < path.len(),
        r.contains(path[0]),
        forall|a: Seq<char>, b: Seq<char>| r.contains(a) && #[trigger] field_edge(sm, a, b) ==> r.contains(b),
        forall|q: int| 0 <= q < path.len() - 1 ==> field_edge(sm, #[trigger] path[q], path[q + 1]),
    ensures
        r.contains(path[k]),
    decreases k,
{
    if k > 0 {
        lemma_path_in(sm, r, path, k - 1);
        assert(field_edge(sm, path[k - 1], path[k]));
    }
}

/// The DFS invariant: everything used or on the stack is reachable, used
/// names have their fields used or on the stack, and the roots are used
/// or on the stack.
pub open spec fn dfs_inv(
    roots: Set<Seq<char>>,
    sm: Map<Seq<char>, StructDecl>,
    used: Set<Seq<char>>,
    sv: Seq<Seq<char>>,
) -> bool {
    &&& forall|n: Seq<char>| #[trigger] used.contains(n) ==> struct_reachable(roots, sm, n)
    &&& forall|k: int| 0 <= k < sv.len() ==> struct_reachable(roots, sm, #[trigger] sv[k])
    &&& forall|a: Seq<char>, b: Seq<char>|
        used.contains(a) && #[trigger] field_edge(sm, a, b) ==> used.contains(b) || sv.contains(b)
    &&& forall|n: Seq<char>| roots.contains(n) ==> used.contains(n) || sv.contains(n)
}

/// The structs the fields of a struct name, in order.
pub open spec fn field_structs(fs: Seq<crate::ast::StructField>) -> Seq<Seq<char>>
    decreases fs.len(),
{
    if fs.len() == 0 {
        Seq::empty()
    } else {
        let r = field_structs(fs.drop_last());
        match named_struct(fs.last().ty) {
            Some(n) => r.push(n),
            None => r,
        }
    }
}

proof fn lemma_field_structs(fs: Seq<crate::ast::StructField>, b: Seq<char>)
    ensures
        field_structs(fs).contains(b) <==> exists|j: int|
            0 <= j < fs.len() && #[trigger] named_struct(fs[j].ty) == Some(b),
    decreases fs.len(),
{
    if fs.len() > 0 {
        lemma_field_structs(fs.drop_last(), b);
        let r = field_structs(fs.drop_last());
        if field_structs(fs).contains(b) {
            let w = choose|w: int| 0 <= w < field_structs(fs).len() && field_structs(fs)[w] == b;
            if w < r.len() {
                assert(r[w] == b);
                let j = choose|j: int|
                    0 <= j < fs.drop_last().len() && #[trigger] named_struct(fs.drop_last()[j].ty)
                        == Some(b);
                assert(fs[j] == fs.drop_last()[j]);
            } else {
                assert(named_struct(fs[fs.len() - 1].ty) == Some(b));
            }
        }
        if exists|j: int| 0 <= j < fs.len() && #[trigger] named_struct(fs[j].ty) == Some(b) {
            let j = choose|j: int| 0 <= j < fs.len() && #[trigger] named_struct(fs[j].ty) == Some(b);
            if j < fs.len() - 1 {
                assert(fs.drop_last()[j] == fs[j]);
                assert(r.contains(b));
                let w = choose|w: int| 0 <= w < r.len() && r[w] == b;
                assert(field_structs(fs)[w] == b);
            } else {
                assert(field_structs(fs).last() == b);
            }
        }
    }
}

/// Push the structs the fields of `sd` name.
fn push_fields(sd: &StructDecl, stack: &mut Vec<String>)
    ensures
        strs_view(final(stack)@) == strs_view(old(stack)@) + field_structs(sd.fields@),
{
    let ghost base = strs_view(stack@);
    let mut k: usize = 0;
    proof {
        assert(sd.fields@.take(0) =~= Seq::<crate::ast::StructField>::empty());
        assert(base + field_structs(sd.fields@.take(0)) =~= base);
    }
    while k < sd.fields.len()
        invariant
            k <= sd.fields@.len(),
            strs_view(stack@) == base + field_structs(sd.fields@.take(k as int)),
        decreases sd.fields@.len() - k,
    {
        proof {
            assert(sd.fields@.take(k + 1).drop_last() =~= sd.fields@.take(k as int));
        }
        push_named(&sd.fields[k].ty, stack);
        proof {
            let r = field_structs(sd.fields@.take(k as int));
            assert(sd.fields@.take(k + 1).last() == sd.fields@[k as int]);
            match named_struct(sd.fields@[k as int].ty) {
                Some(n) => {
                    assert((base + r).push(n) =~= base + r.push(n));
                },
                None => {},
            }
        }
        k = k + 1;
    }
    proof {
        assert(sd.fields@.take(sd.fields@.len() as int) =~= sd.fields@);
    }
}

proof fn lemma_dfs_seen(
    roots: Set<Seq<char>>,
    sm: Map<Seq<char>, StructDecl>,
    used: Set<Seq<char>>,
    sv: Seq<Seq<char>>,
)
    requires
        dfs_inv(roots, sm, used, sv),
        sv.len() > 0,
        used.contains(sv.last()),
    ensures
        dfs_inv(roots, sm, used, sv.drop_last()),
{
    let sv1 = sv.drop_last();
    assert forall|a: Seq<char>, b: Seq<char>|
        used.contains(a) && #[trigger] field_edge(sm, a, b) implies used.contains(b) || sv1.contains(
        b,
    ) by {
        if !used.contains(b) {
            let w = choose|w: int| 0 <= w < sv.len() && sv[w] == b;
            assert(w < sv.len() - 1);
            assert(sv1[w] == b);
        }
    }
    assert forall|n: Seq<char>| roots.contains(n) implies used.contains(n) || sv1.contains(n) by {
        if !used.contains(n) {
            let w = choose|w: int| 0 <= w < sv.len() && sv[w] == n;
            assert(w < sv.len() - 1);
            assert(sv1[w] == n);
        }
    }
    assert forall|k: int| 0 <= k < sv1.len() implies struct_reachable(roots, sm, #[trigger] sv1[k]) by {
        assert(sv1[k] == sv[k]);
    }
}

proof fn lemma_dfs_leaf(
    roots: Set<Seq<char>>,
    sm: Map<Seq<char>, StructDecl>,
    used: Set<Seq<char>>,
    sv: Seq<Seq<char>>,
    x: Seq<char>,
)
    requires
        dfs_inv(roots, sm, used, sv),
        sv.len() > 0,
        sv.last() == x,
        !sm.contains_key(x),
    ensures
        dfs_inv(roots, sm, used.insert(x), sv.drop_last()),
{
    let sv1 = sv.drop_last();
    let u1 = used.insert(x);
    assert(struct_reachable(roots, sm, sv[sv.len() - 1]));
    assert forall|a: Seq<char>, b: Seq<char>|
        u1.contains(a) && #[trigger] field_edge(sm, a, b) implies u1.contains(b) || sv1.contains(b) by {
        if !u1.contains(b) {
            assert(a != x);
            let w = choose|w: int| 0 <= w < sv.len() && sv[w] == b;
            assert(w < sv.len() - 1);
            assert(sv1[w] == b);
        }
    }
    assert forall|n: Seq<char>| roots.contains(n) implies u1.contains(n) || sv1.contains(n) by {
        if !u1.contains(n) {
            let w = choose|w: int| 0 <= w < sv.len() && sv[w] == n;
            assert(w < sv.len() - 1);
            assert(sv1[w] == n);
        }
    }
    assert forall|k: int| 0 <= k < sv1.len() implies struct_reachable(roots, sm, #[trigger] sv1[k]) by {
        assert(sv1[k] == sv[k]);
    }
}

proof fn lemma_dfs_expand(
    roots: Set<Seq<char>>,
    sm: Map<Seq<char>, StructDecl>,
    used: Set<Seq<char>>,
    sv: Seq<Seq<char>>,
    x: Seq<char>,
)
    requires
        dfs_inv(roots, sm, used, sv),
        sv.len() > 0,
        sv.last() == x,
        sm.contains_key(x),
    ensures
        dfs_inv(roots, sm, used.insert(x), sv.drop_last() + field_structs(sm[x].fields@)),
{
    let fsx = field_structs(sm[x].fields@);
    let sv1 = sv.drop_last() + fsx;
    let u1 = used.insert(x);
    assert(struct_reachable(roots, sm, sv[sv.len() - 1]));
    let path = choose|path: Seq<Seq<char>>|
        #![trigger path.last()]
        path.len() > 0 && roots.contains(path[0]) && path.last() == x && forall|q: int|
            0 <= q < path.len() - 1 ==> field_edge(sm, #[trigger] path[q], path[q + 1]);
    assert forall|k: int| 0 <= k < sv1.len() implies struct_reachable(roots, sm, #[trigger] sv1[k]) by {
        if k < sv.len() - 1 {
            assert(sv1[k] == sv[k]);
        } else {
            let b = sv1[k];
            assert(fsx[k - (sv.len() - 1)] == b);
            assert(fsx.contains(b));
            lemma_field_structs(sm[x].fields@, b);
            assert(field_edge(sm, x, b));
            let p2 = path.push(b);
            assert(p2.last() == b);
            assert forall|q: int| 0 <= q < p2.len() - 1 implies field_edge(
                sm,
                #[trigger] p2[q],
                p2[q + 1],
            ) by {
                if q < path.len() - 1 {
                    assert(p2[q] == path[q] && p2[q + 1] == path[q + 1]);
                } else {
                    assert(p2[q] == x);
                }
            }
        }
    }
    assert forall|a: Seq<char>, b: Seq<char>|
        u1.contains(a) && #[trigger] field_edge(sm, a, b) implies u1.contains(b) || sv1.contains(b) by {
        if !u1.contains(b) {
            if a == x {
                lemma_field_structs(sm[x].fields@, b);
                let w = choose|w: int| 0 <= w < fsx.len() && fsx[w] == b;
                assert(sv1[sv.len() - 1 + w] == b);
            } else {
                let w = choose|w: int| 0 <= w < sv.len() && sv[w] == b;
                assert(w < sv.len() - 1);
                assert(sv1[w] == b);
            }
        }
    }
    assert forall|n: Seq<char>| roots.contains(n) implies u1.contains(n) || sv1.contains(n) by {
        if !u1.contains(n) {
            let w = choose|w: int| 0 <= w < sv.len() && sv[w] == n;
            assert(w < sv.len() - 1);
            assert(sv1[w] == n);
        }
    }
    assert forall|n: Seq<char>| #[trigger] u1.contains(n) implies struct_reachable(roots, sm, n) by {
        if n == x {
            assert(struct_reachable(roots, sm, sv[sv.len() - 1]));
        }
    }
}

/// A constant `WidthConst` parameter's folded bounds give a width:
/// `hi >= lo`, and `hi - lo + 1` fits a `u64`.
pub open spec fn width_const_ok(p: ParamDecl, params: Seq<ParamDecl>) -> bool {
    match p.kind {
        ParamKind::WidthConst(hi, lo) => p.default is Some ==> fold_value(lo, params) <= fold_value(
            hi,
            params,
        ) && fold_value(hi, params) - fold_value(lo, params) < u64::MAX,
        _ => true,
    }
}

/// The pybind11 wrapper source of a module.
pub open spec fn pybind_module_text(
    m: ModuleDecl,
    items: Seq<Item>,
    em: Map<Seq<char>, Seq<(Seq<char>, u64)>>,
) -> Seq<char> {
    let class = "V"@ + m.name.name@;
    let params = m.params@;
    let wide = wide_names_spec(m.ports@, m.body@, params);
    let sp = scalar_ports(m.ports@, class, params, wide);
    let vp = vec_ports(m.ports@, m.ports@, class, params);
    let ir = internal_regs(m.body@, m.ports@, class, params);
    let pb = param_bindings(params, params, em);
    pybind_text(
        class,
        ir.0,
        struct_bindings(ordered_structs(items), used_structs_spec(m, struct_map(items))),
        sp.0 + vp.0 + ir.1 + pb.0 + method_bindings(class),
        sp.1 + vp.1 + ir.2 + pb.1,
    )
}

/// An exec `_port_info` entry.
pub type Info = (String, u32, bool, bool, bool, bool);

pub open spec fn infos_view(v: Seq<Info>) -> Seq<InfoView> {
    v.map_values(|e: Info| (e.0@, e.1, e.2, e.3, e.4, e.5))
}

fn readwrite(class: &str, field: &str) -> (r: String)
    ensures
        r@ == readwrite_text(class@, field@),
{
    let mut s = own("        .def_readwrite(\"");
    push_str(&mut s, field);
    push_str(&mut s, "\", &");
    push_str(&mut s, class);
    push_str(&mut s, "::");
    push_str(&mut s, field);
    push_str(&mut s, ")");
    s
}

/// Push a binding and an entry.
fn push_entry(bs: &mut Vec<String>, es: &mut Vec<Info>, b: String, e: Info)
    ensures
        strs_view(final(bs)@) == strs_view(old(bs)@).push(b@),
        infos_view(final(es)@) == infos_view(old(es)@).push((e.0@, e.1, e.2, e.3, e.4, e.5)),
{
    let ghost b0 = bs@;
    let ghost e0 = es@;
    bs.push(b);
    es.push(e);
    proof {
        assert(strs_view(bs@) =~= strs_view(b0).push(bs@.last()@));
        assert(infos_view(es@) =~= infos_view(e0).push(
            (es@.last().0@, es@.last().1, es@.last().2, es@.last().3, es@.last().4, es@.last().5),
        ));
    }
}

/// Bindings and entries of the scalar ports (see [`scalar_ports`]).
fn scalar_ports_exec(
    ports: &Vec<PortDecl>,
    class: &str,
    params: &[ParamDecl],
    wide: &NameSet,
    bs: &mut Vec<String>,
    es: &mut Vec<Info>,
)
    ensures
        strs_view(final(bs)@) == strs_view(old(bs)@) + scalar_ports(ports@, class@, params@, wide@).0,
        infos_view(final(es)@) == infos_view(old(es)@) + scalar_ports(
            ports@,
            class@,
            params@,
            wide@,
        ).1,
{
    let ghost b0 = strs_view(bs@);
    let ghost e0 = infos_view(es@);
    let mut i: usize = 0;
    proof {
        assert(ports@.take(0) =~= Seq::<PortDecl>::empty());
        assert(b0 + Seq::<Seq<char>>::empty() =~= b0);
        assert(e0 + Seq::<InfoView>::empty() =~= e0);
    }
    while i < ports.len()
        invariant
            i <= ports@.len(),
            strs_view(bs@) == b0 + scalar_ports(ports@.take(i as int), class@, params@, wide@).0,
            infos_view(es@) == e0 + scalar_ports(ports@.take(i as int), class@, params@, wide@).1,
        decreases ports@.len() - i,
    {
        proof {
            assert(ports@.take(i + 1).drop_last() =~= ports@.take(i as int));
        }
        let p = &ports[i];
        if vec_array_info_with_params(&p.ty, params).is_none() {
            let field = p.name.name.as_str();
            let width = port_width(&p.ty);
            let b = if wide.contains(field) {
                emit_wide_binding(class, field, width)
            } else {
                readwrite(class, field)
            };
            let signed = matches!(p.ty, TypeExpr::SInt(_));
            let input = p.direction == Direction::In;
            push_entry(bs, es, b, (p.name.name.clone(), width, signed, input, false, false));
        }
        i = i + 1;
    }
    proof {
        assert(ports@.take(ports@.len() as int) =~= ports@);
    }
}

/// `<base>_<i>`.
fn lane_name(base: &str, i: u64) -> (r: String)
    ensures
        r@ == base@ + "_"@ + dec_str(i as nat),
{
    let mut s = own(base);
    push_str(&mut s, "_");
    push_str(&mut s, fmt_dec(i).as_str());
    s
}

/// Bindings and entries of the flattened Vec port elements.
fn vec_ports_exec(
    ports: &Vec<PortDecl>,
    class: &str,
    params: &[ParamDecl],
    bs: &mut Vec<String>,
    es: &mut Vec<Info>,
)
    ensures
        strs_view(final(bs)@) == strs_view(old(bs)@) + vec_ports(ports@, ports@, class@, params@).0,
        infos_view(final(es)@) == infos_view(old(es)@) + vec_ports(ports@, ports@, class@, params@).1,
{
    let ghost b0 = strs_view(bs@);
    let ghost e0 = infos_view(es@);
    let mut i: usize = 0;
    proof {
        assert(ports@.take(0) =~= Seq::<PortDecl>::empty());
        assert(b0 + Seq::<Seq<char>>::empty() =~= b0);
        assert(e0 + Seq::<InfoView>::empty() =~= e0);
    }
    while i < ports.len()
        invariant
            i <= ports@.len(),
            strs_view(bs@) == b0 + vec_ports(ports@.take(i as int), ports@, class@, params@).0,
            infos_view(es@) == e0 + vec_ports(ports@.take(i as int), ports@, class@, params@).1,
        decreases ports@.len() - i,
    {
        proof {
            assert(ports@.take(i + 1).drop_last() =~= ports@.take(i as int));
        }
        let p = &ports[i];
        if let Some((_, count)) = vec_array_info_with_params(&p.ty, params) {
            let width = vec_elem_width(ports.as_slice(), p.name.name.as_str());
            let input = p.direction == Direction::In;
            let ghost bb = strs_view(bs@);
            let ghost ee = infos_view(es@);
            let ghost lanes = vec_lanes(p.name.name@, count as nat, class@, width, input);
            let mut k: u64 = 0;
            proof {
                assert(bb + lanes.0.take(0) =~= bb);
                assert(ee + lanes.1.take(0) =~= ee);
            }
            while k < count
                invariant
                    k <= count,
                    lanes == vec_lanes(p.name.name@, count as nat, class@, width, input),
                    strs_view(bs@) == bb + lanes.0.take(k as int),
                    infos_view(es@) == ee + lanes.1.take(k as int),
                decreases count - k,
            {
                let field = lane_name(p.name.name.as_str(), k);
                let b = readwrite(class, field.as_str());
                push_entry(bs, es, b, (field, width, false, input, false, false));
                proof {
                    assert(lanes.0.take(k + 1) =~= lanes.0.take(k as int).push(lanes.0[k as int]));
                    assert(lanes.1.take(k + 1) =~= lanes.1.take(k as int).push(lanes.1[k as int]));
                }
                k = k + 1;
            }
            proof {
                assert(lanes.0.take(count as int) =~= lanes.0);
                assert(lanes.1.take(count as int) =~= lanes.1);
            }
        }
        i = i + 1;
    }
    proof {
        assert(ports@.take(ports@.len() as int) =~= ports@);
    }
}

pub(crate) fn has_port_exec(ports: &Vec<PortDecl>, n: &str) -> (r: bool)
    ensures
        r == has_port(ports@, n@),
{
    let mut i: usize = 0;
    while i < ports.len()
        invariant
            i <= ports@.len(),
            forall|k: int| 0 <= k < i ==> ports@[k].name.name@ != n@,
        decreases ports@.len() - i,
    {
        if str_eq(ports[i].name.name.as_str(), n) {
            return true;
        }
        i = i + 1;
    }
    false
}

fn reg_helper(rname: &str) -> (r: String)
    ensures
        r@ == reg_helper_text(rname@),
{
    let mut s = own("\ntemplate <typename T>\nauto read_internal_");
    push_str(&mut s, rname);
    push_str(&mut s, "(const T& self) {\n    if constexpr (requires(const T& t) { t._");
    push_str(&mut s, rname);
    push_str(&mut s, "; }) {\n        return self._");
    push_str(&mut s, rname);
    push_str(&mut s, ";\n    } else {\n        return self.");
    push_str(&mut s, rname);
    push_str(&mut s, ";\n    }\n}\n");
    proof {
        reveal_strlit("\ntemplate <typename T>\nauto read_internal_");
        reveal_strlit("\ntemplate <typename T>\nauto ");
        reveal_strlit("read_internal_");
        reveal_strlit("(const T& self) {\n    if constexpr (requires(const T& t) { t._");
        reveal_strlit("(const T& self) {\n    if constexpr (requires(const T& t) { t.");
        reveal_strlit("_");
        reveal_strlit("; }) {\n        return self._");
        reveal_strlit("; }) {\n        return self.");
        assert(s@ =~= reg_helper_text(rname@));
    }
    s
}

/// Helpers, bindings and entries of the internal registers.
fn internal_regs_exec(
    body: &Vec<ModuleBodyItem>,
    ports: &Vec<PortDecl>,
    class: &str,
    params: &[ParamDecl],
    helpers: &mut String,
    bs: &mut Vec<String>,
    es: &mut Vec<Info>,
)
    ensures
        final(helpers)@ == old(helpers)@ + internal_regs(body@, ports@, class@, params@).0,
        strs_view(final(bs)@) == strs_view(old(bs)@) + internal_regs(body@, ports@, class@, params@).1,
        infos_view(final(es)@) == infos_view(old(es)@) + internal_regs(
            body@,
            ports@,
            class@,
            params@,
        ).2,
{
    let ghost h0 = helpers@;
    let ghost b0 = strs_view(bs@);
    let ghost e0 = infos_view(es@);
    let mut i: usize = 0;
    proof {
        assert(body@.take(0) =~= Seq::<ModuleBodyItem>::empty());
        assert(h0 + Seq::<char>::empty() =~= h0);
        assert(b0 + Seq::<Seq<char>>::empty() =~= b0);
        assert(e0 + Seq::<InfoView>::empty() =~= e0);
    }
    while i < body.len()
        invariant
            i <= body@.len(),
            helpers@ == h0 + internal_regs(body@.take(i as int), ports@, class@, params@).0,
            strs_view(bs@) == b0 + internal_regs(body@.take(i as int), ports@, class@, params@).1,
            infos_view(es@) == e0 + internal_regs(body@.take(i as int), ports@, class@, params@).2,
        decreases body@.len() - i,
    {
        proof {
            assert(body@.take(i + 1).drop_last() =~= body@.take(i as int));
        }
        if let ModuleBodyItem::RegDecl(r) = &body[i] {
            let rname = r.name.name.as_str();
            if !has_port_exec(ports, rname) && vec_array_info_with_params(&r.ty, params).is_none() {
                push_str(helpers, reg_helper(rname).as_str());
                let mut b = own("        .def_property_readonly(\"");
                push_str(&mut b, rname);
                push_str(&mut b, "\", &arch_pybind_detail::read_internal_");
                push_str(&mut b, rname);
                push_str(&mut b, "<");
                push_str(&mut b, class);
                push_str(&mut b, ">)");
                let signed = matches!(r.ty, TypeExpr::SInt(_));
                push_entry(bs, es, b, (r.name.name.clone(), reg_width(&r.ty), signed, false, false, true));
            }
        }
        i = i + 1;
    }
    proof {
        assert(body@.take(body@.len() as int) =~= body@);
    }
}

fn param_binding(pname: &str, val: u64) -> (r: String)
    ensures
        r@ == param_binding_text(pname@, val),
{
    let mut s = own("        .def_property_readonly_static(\"");
    push_str(&mut s, pname);
    push_str(&mut s, "\", [](py::object) { return ");
    push_str(&mut s, fmt_dec(val).as_str());
    push_str(&mut s, "ULL; })");
    s
}

/// Bindings and entries of the parameters.
fn param_bindings_exec(
    params: &Vec<ParamDecl>,
    em: &NameMap<Vec<(String, u64)>>,
    bs: &mut Vec<String>,
    es: &mut Vec<Info>,
)
    requires
        forall|i: int| 0 <= i < params@.len() ==> width_const_ok(#[trigger] params@[i], params@),
    ensures
        strs_view(final(bs)@) == strs_view(old(bs)@) + param_bindings(
            params@,
            params@,
            crate::ctx::enum_map_view(em),
        ).0,
        infos_view(final(es)@) == infos_view(old(es)@) + param_bindings(
            params@,
            params@,
            crate::ctx::enum_map_view(em),
        ).1,
{
    let ghost emv = crate::ctx::enum_map_view(em);
    let ghost b0 = strs_view(bs@);
    let ghost e0 = infos_view(es@);
    let mut i: usize = 0;
    proof {
        assert(params@.take(0) =~= Seq::<ParamDecl>::empty());
        assert(b0 + Seq::<Seq<char>>::empty() =~= b0);
        assert(e0 + Seq::<InfoView>::empty() =~= e0);
    }
    while i < params.len()
        invariant
            i <= params@.len(),
            emv == crate::ctx::enum_map_view(em),
            forall|k: int| 0 <= k < params@.len() ==> width_const_ok(#[trigger] params@[k], params@),
            strs_view(bs@) == b0 + param_bindings(params@.take(i as int), params@, emv).0,
            infos_view(es@) == e0 + param_bindings(params@.take(i as int), params@, emv).1,
        decreases params@.len() - i,
    {
        proof {
            assert(params@.take(i + 1).drop_last() =~= params@.take(i as int));
            assert(width_const_ok(params@[i as int], params@));
        }
        let p = &params[i];
        let pname = p.name.name.as_str();
        match &p.kind {
            ParamKind::Const | ParamKind::WidthConst(_, _) | ParamKind::Logic(_) => {
                if let Some(def) = &p.default {
                    let val = eval_const_expr_with_params(def, params.as_slice());
                    let width: u32 = match &p.kind {
                        ParamKind::Logic(ty) => type_bits_te_with_params(ty, params.as_slice()),
                        ParamKind::WidthConst(hi, lo) => {
                            let h = eval_const_expr_with_params(hi, params.as_slice());
                            let l = eval_const_expr_with_params(lo, params.as_slice());
                            #[verifier::truncate] ((h - l + 1) as u32)
                        },
                        _ => 32,
                    };
                    let signed = match &p.kind {
                        ParamKind::Logic(t) => matches!(t, TypeExpr::SInt(_)),
                        _ => false,
                    };
                    push_entry(
                        bs,
                        es,
                        param_binding(pname, val),
                        (p.name.name.clone(), width, signed, false, true, false),
                    );
                }
            },
            ParamKind::EnumConst(en) => {
                if let Some(def) = &p.default {
                    if let ExprKind::EnumVariant(_, vr) = &def.kind {
                        if let Some(val) = crate::cpp_text::enum_index_opt(em, en.as_str(), vr.name.as_str()) {
                            push_entry(
                                bs,
                                es,
                                param_binding(pname, val),
                                (p.name.name.clone(), 32, false, false, true, false),
                            );
                        }
                    }
                }
            },
            _ => {},
        }
        i = i + 1;
    }
    proof {
        assert(params@.take(params@.len() as int) =~= params@);
    }
}

/// `ts` joined with `sep`.
pub(crate) fn join_strings(ts: &Vec<String>, sep: &str) -> (r: String)
    ensures
        r@ == join(strs_view(ts@), sep@),
{
    let mut out = String::new();
    let mut i: usize = 0;
    proof {
        assert(strs_view(ts@).take(0) =~= Seq::<Seq<char>>::empty());
    }
    while i < ts.len()
        invariant
            i <= ts@.len(),
            out@ == join(strs_view(ts@).take(i as int), sep@),
        decreases ts@.len() - i,
    {
        proof {
            let pre = strs_view(ts@).take(i as int);
            assert(strs_view(ts@).take(i + 1) =~= pre.push(ts@[i as int]@));
            crate::cpp_expr::lemma_join_push(pre, ts@[i as int]@, sep@);
        }
        if i > 0 {
            push_str(&mut out, sep);
        }
        push_str(&mut out, ts[i].as_str());
        i = i + 1;
    }
    proof {
        assert(strs_view(ts@).take(ts@.len() as int) =~= strs_view(ts@));
    }
    out
}

fn bool_str(b: bool) -> (r: &'static str)
    ensures
        r@ == bool_text(b),
{
    if b { "true" } else { "false" }
}

fn info_entry_fmt(e: &Info) -> (r: String)
    ensures
        r@ == info_entry((e.0@, e.1, e.2, e.3, e.4, e.5)),
{
    let mut s = own("            py::make_tuple(\"");
    push_str(&mut s, e.0.as_str());
    push_str(&mut s, "\", ");
    push_str(&mut s, dec32(e.1).as_str());
    push_str(&mut s, ", ");
    push_str(&mut s, bool_str(e.2));
    push_str(&mut s, ", ");
    push_str(&mut s, bool_str(e.3));
    push_str(&mut s, ", ");
    push_str(&mut s, bool_str(e.4));
    push_str(&mut s, ", ");
    push_str(&mut s, bool_str(e.5));
    push_str(&mut s, ")");
    s
}

/// The `_port_info` entries joined with `,\n`.
fn info_entries(es: &Vec<Info>) -> (r: String)
    ensures
        r@ == join(info_texts(infos_view(es@)), ",\n"@),
{
    let mut v: Vec<String> = Vec::new();
    let mut i: usize = 0;
    while i < es.len()
        invariant
            i <= es@.len(),
            v@.len() == i,
            forall|k: int| 0 <= k < i ==> #[trigger] v@[k]@ == info_entry(infos_view(es@)[k]),
        decreases es@.len() - i,
    {
        v.push(info_entry_fmt(&es[i]));
        i = i + 1;
    }
    proof {
        assert(strs_view(v@) =~= info_texts(infos_view(es@)));
    }
    join_strings(&v, ",\n")
}

fn struct_binding_fmt(sd: &StructDecl) -> (r: String)
    ensures
        r@ == struct_binding(*sd),
{
    let sname = sd.name.name.as_str();
    let mut s = own("    py::class_<");
    push_str(&mut s, sname);
    push_str(&mut s, ">(m, \"");
    push_str(&mut s, sname);
    push_str(&mut s, "\", py::module_local())\n        .def(py::init<>())\n");
    let ghost pre = s@;
    let mut i: usize = 0;
    proof {
        assert(sd.fields@.take(0) =~= Seq::<crate::ast::StructField>::empty());
    }
    while i < sd.fields.len()
        invariant
            i <= sd.fields@.len(),
            s@ == pre + struct_fields_text(sname@, sd.fields@.take(i as int)),
        decreases sd.fields@.len() - i,
    {
        proof {
            assert(sd.fields@.take(i + 1).drop_last() =~= sd.fields@.take(i as int));
        }
        let fname = sd.fields[i].name.name.as_str();
        push_str(&mut s, "        .def_readwrite(\"");
        push_str(&mut s, fname);
        push_str(&mut s, "\", &");
        push_str(&mut s, sname);
        push_str(&mut s, "::");
        push_str(&mut s, fname);
        push_str(&mut s, ")\n");
        i = i + 1;
    }
    proof {
        assert(sd.fields@.take(sd.fields@.len() as int) =~= sd.fields@);
    }
    push_str(&mut s, "        ;\n");
    s
}

/// Bindings of the used structs, in source order.
fn struct_bindings_exec(items: &Vec<Item>, used: &NameSet) -> (r: String)
    ensures
        r@ == struct_bindings(ordered_structs(items@), used@),
{
    let mut out = String::new();
    let mut i: usize = 0;
    proof {
        assert(items@.take(0) =~= Seq::<Item>::empty());
    }
    while i < items.len()
        invariant
            i <= items@.len(),
            out@ == struct_bindings(ordered_structs(items@.take(i as int)), used@),
        decreases items@.len() - i,
    {
        proof {
            assert(items@.take(i + 1).drop_last() =~= items@.take(i as int));
        }
        let ghost base = ordered_structs(items@.take(i as int));
        match &items[i] {
            Item::Struct(sd) => {
                proof {
                    assert(base.push(*sd).drop_last() =~= base);
                }
                if used.contains(sd.name.name.as_str()) {
                    push_str(&mut out, struct_binding_fmt(sd).as_str());
                }
            },
            Item::Package(p) => {
                let mut j: usize = 0;
                proof {
                    assert(base + p.structs@.take(0) =~= base);
                }
                while j < p.structs.len()
                    invariant
                        j <= p.structs@.len(),
                        out@ == struct_bindings(base + p.structs@.take(j as int), used@),
                    decreases p.structs@.len() - j,
                {
                    proof {
                        assert((base + p.structs@.take(j + 1)).drop_last() =~= base
                            + p.structs@.take(j as int));
                    }
                    if used.contains(p.structs[j].name.name.as_str()) {
                        push_str(&mut out, struct_binding_fmt(&p.structs[j]).as_str());
                    }
                    j = j + 1;
                }
                proof {
                    assert(p.structs@.take(p.structs@.len() as int) =~= p.structs@);
                }
            },
            _ => {},
        }
        i = i + 1;
    }
    proof {
        assert(items@.take(items@.len() as int) =~= items@);
    }
    out
}

/// The module source of the wrapper from its parts.
fn pybind_fmt(
    class: &str,
    helpers: &str,
    structs: &str,
    bindings: &str,
    infos: &str,
) -> (r: String)
    ensures
        r@ == "// Auto-generated pybind11 wrapper for "@ + class@
            + "\n#include <pybind11/pybind11.h>\n#include <pybind11/stl.h>\n#include <cstdint>\n#include \""@
            + class@ + ".h\"\nnamespace py = pybind11;\n\nnamespace arch_pybind_detail {\n"@
            + pybind_shims() + "\n"@ + helpers@
            + "\n} // namespace arch_pybind_detail\n\nPYBIND11_MODULE("@ + class@ + "_pybind, m) {\n"@
            + structs@ + "    py::class_<"@ + class@ + ">(m, \""@ + class@
            + "\")\n        .def(py::init<>())\n"@ + bindings@
            + "\n        .def_static(\"_port_info\", []() {\n            return std::vector<py::tuple>{\n"@
            + infos@ + "\n            };\n        });\n}\n"@,
{
    let mut s = own("// Auto-generated pybind11 wrapper for ");
    push_str(&mut s, class);
    push_str(
        &mut s,
        "\n#include <pybind11/pybind11.h>\n#include <pybind11/stl.h>\n#include <cstdint>\n#include \"",
    );
    push_str(&mut s, class);
    push_str(&mut s, ".h\"\nnamespace py = pybind11;\n\nnamespace arch_pybind_detail {\n");
    push_str(&mut s, "template <typename T>\nvoid eval_comb(T& self) {\n    if constexpr (requires(T& t) { t.eval_comb(); }) {\n        self.eval_comb();\n    } else {\n        self.eval();\n    }\n}\n\ntemplate <typename T>\nvoid eval_posedge(T& self) {\n    if constexpr (requires(T& t) { t.eval_posedge(); }) {\n        self.eval_posedge();\n    } else {\n        self.eval();\n    }\n}\n\ntemplate <typename T>\nvoid run_cycles(T& self, uint64_t cycles) {\n    if constexpr (requires(T& t, uint64_t n) { t.run_cycles(n); }) {\n        self.run_cycles(cycles);\n    } else {\n        for (uint64_t i = 0; i < cycles; ++i) self.eval();\n    }\n}");
    push_str(&mut s, "\n");
    push_str(&mut s, helpers);
    push_str(&mut s, "\n} // namespace arch_pybind_detail\n\nPYBIND11_MODULE(");
    push_str(&mut s, class);
    push_str(&mut s, "_pybind, m) {\n");
    push_str(&mut s, structs);
    push_str(&mut s, "    py::class_<");
    push_str(&mut s, class);
    push_str(&mut s, ">(m, \"");
    push_str(&mut s, class);
    push_str(&mut s, "\")\n        .def(py::init<>())\n");
    push_str(&mut s, bindings);
    push_str(
        &mut s,
        "\n        .def_static(\"_port_info\", []() {\n            return std::vector<py::tuple>{\n",
    );
    push_str(&mut s, infos);
    push_str(&mut s, "\n            };\n        });\n}\n");
    s
}

/// The eval-method bindings.
fn push_methods(class: &str, bs: &mut Vec<String>)
    ensures
        strs_view(final(bs)@) == strs_view(old(bs)@) + method_bindings(class@),
{
    let ghost b0 = bs@;
    let mut a = own("        .def(\"eval\", &");
    push_str(&mut a, class);
    push_str(&mut a, "::eval)");
    let mut b = own("        .def(\"eval_comb\", &arch_pybind_detail::eval_comb<");
    push_str(&mut b, class);
    push_str(&mut b, ">)");
    let mut c = own("        .def(\"eval_posedge\", &arch_pybind_detail::eval_posedge<");
    push_str(&mut c, class);
    push_str(&mut c, ">)");
    let mut d = own("        .def(\"run_cycles\", &arch_pybind_detail::run_cycles<");
    push_str(&mut d, class);
    push_str(&mut d, ">)");
    bs.push(a);
    bs.push(b);
    bs.push(c);
    bs.push(d);
    proof {
        assert(strs_view(bs@) =~= strs_view(b0) + method_bindings(class@));
    }
}

/// The modules that get a pybind11 wrapper, in file order: every module
/// but the interface stubs.
pub open spec fn pybind_modules(items: Seq<Item>) -> Seq<ModuleDecl>
    decreases items.len(),
{
    if items.len() == 0 {
        Seq::empty()
    } else {
        let rest = pybind_modules(items.drop_last());
        match items.last() {
            Item::Module(m) => if m.is_interface {
                rest
            } else {
                rest.push(m)
            },
            _ => rest,
        }
    }
}

/// The parameters of a module fold to widths the wrapper can hold.
pub open spec fn pybind_params_ok(m: ModuleDecl) -> bool {
    forall|i: int| 0 <= i < m.params@.len() ==> width_const_ok(#[trigger] m.params@[i], m.params@)
}

impl<'a> SimCodegen<'a> {
    /// The pybind11 wrapper of a module.
    fn emit_pybind_module(&self, m: &ModuleDecl) -> (r: Option<SimModel>)
        requires
            forall|i: int|
                0 <= i < self.symbols.globals@.len() ==> (#[trigger] self.symbols.globals@[i].1 matches crate::ast::Symbol::Enum(
                    info,
                ) ==> info.variants@.len() < u64::MAX),
            forall|i: int| 0 <= i < m.params@.len() ==> width_const_ok(#[trigger] m.params@[i], m.params@),
        ensures
            r matches Some(w) && w.class_name@ == "V"@ + m.name.name@ + "_pybind"@ && w.header@
                == Seq::<char>::empty() && w.impl_@ == pybind_module_text(
                *m,
                self.source.items@,
                enum_map_of(self.symbols.globals@),
            ),
    {
        let mut class = own("V");
        push_str(&mut class, m.name.name.as_str());
        let wide = collect_wide_names(m.ports.as_slice(), m.body.as_slice(), m.params.as_slice());
        let mut bs: Vec<String> = Vec::new();
        let mut es: Vec<Info> = Vec::new();
        proof {
            assert(strs_view(bs@) =~= Seq::<Seq<char>>::empty());
            assert(infos_view(es@) =~= Seq::<InfoView>::empty());
        }
        scalar_ports_exec(&m.ports, class.as_str(), m.params.as_slice(), &wide, &mut bs, &mut es);
        vec_ports_exec(&m.ports, class.as_str(), m.params.as_slice(), &mut bs, &mut es);
        let mut helpers = String::new();
        internal_regs_exec(
            &m.body,
            &m.ports,
            class.as_str(),
            m.params.as_slice(),
            &mut helpers,
            &mut bs,
            &mut es,
        );
        let em = crate::collect::build_enum_map(self.symbols);
        proof {
            assert forall|k: Seq<char>| #[trigger] em@.contains_key(k) implies crate::ctx::entries_view(
                em@[k],
            ) == crate::collect::pairs_view(em@[k]@) by {
                assert(crate::ctx::entries_view(em@[k]) =~= crate::collect::pairs_view(em@[k]@));
            }
            assert(crate::ctx::enum_map_view(&em) =~= enum_map_of(self.symbols.globals@));
        }
        param_bindings_exec(&m.params, &em, &mut bs, &mut es);
        push_methods(class.as_str(), &mut bs);
        let all = all_structs(&self.source.items);
        proof {
            lemma_struct_map_finite(self.source.items@);
        }
        let used = collect_used_structs(m, &all);
        let structs = struct_bindings_exec(&self.source.items, &used);
        let bindings = join_strings(&bs, "\n");
        let infos = info_entries(&es);
        let cpp = pybind_fmt(
            class.as_str(),
            helpers.as_str(),
            structs.as_str(),
            bindings.as_str(),
            infos.as_str(),
        );
        let mut cname = class.clone();
        push_str(&mut cname, "_pybind");
        Some(SimModel { class_name: cname, header: String::new(), impl_: cpp })
    }

    /// FSM constructs get no wrapper yet.
    fn emit_pybind_fsm(&self, _f: &crate::ast::ConstructCommon) -> (r: Option<SimModel>)
        ensures
            r is None,
    {
        None
    }

    /// Counter constructs get no wrapper yet.
    fn emit_pybind_counter(&self, _c: &crate::ast::ConstructCommon) -> (r: Option<SimModel>)
        ensures
            r is None,
    {
        None
    }

    /// The pybind11 wrappers of the file: one per module that is not an
    /// interface stub, in file order.
    pub fn generate_pybind(&self) -> (r: Vec<SimModel>)
        requires
            forall|i: int|
                0 <= i < self.symbols.globals@.len() ==> (#[trigger] self.symbols.globals@[i].1 matches crate::ast::Symbol::Enum(
                    info,
                ) ==> info.variants@.len() < u64::MAX),
            forall|i: int|
                0 <= i < self.source.items@.len() ==> (#[trigger] self.source.items@[i] matches Item::Module(m)
                    ==> (!m.is_interface ==> pybind_params_ok(m))),
        ensures
            r@.len() == pybind_modules(self.source.items@).len(),
            forall|k: int|
                0 <= k < r@.len() ==> {
                    let m = pybind_modules(self.source.items@)[k];
                    &&& (#[trigger] r@[k]).class_name@ == "V"@ + m.name.name@ + "_pybind"@
                    &&& r@[k].header@ == Seq::<char>::empty()
                    &&& r@[k].impl_@ == pybind_module_text(
                        m,
                        self.source.items@,
                        enum_map_of(self.symbols.globals@),
                    )
                },
    {
        let items = &self.source.items;
        let ghost em = enum_map_of(self.symbols.globals@);
        let mut out: Vec<SimModel> = Vec::new();
        let mut i: usize = 0;
        while i < items.len()
            invariant
                i <= items@.len(),
                items == &self.source.items,
                em == enum_map_of(self.symbols.globals@),
                forall|j: int|
                    0 <= j < self.symbols.globals@.len() ==> (#[trigger] self.symbols.globals@[j].1 matches crate::ast::Symbol::Enum(
                        info,
                    ) ==> info.variants@.len() < u64::MAX),
                forall|j: int|
                    0 <= j < items@.len() ==> (#[trigger] items@[j] matches Item::Module(m) ==> (
                    !m.is_interface ==> pybind_params_ok(m))),
                out@.len() == pybind_modules(items@.take(i as int)).len(),
                forall|k: int|
                    0 <= k < out@.len() ==> {
                        let m = pybind_modules(items@.take(i as int))[k];
                        &&& (#[trigger] out@[k]).class_name@ == "V"@ + m.name.name@ + "_pybind"@
                        &&& out@[k].header@ == Seq::<char>::empty()
                        &&& out@[k].impl_@ == pybind_module_text(m, items@, em)
                    },
            decreases items@.len() - i,
        {
            proof {
                assert(items@.take(i + 1).drop_last() =~= items@.take(i as int));
                assert(items@.take(i + 1).last() == items@[i as int]);
            }
            let ghost before = out@;
            match &items[i] {
                Item::Module(m) => {
                    if !m.is_interface {
                        proof {
                            assert(items@[i as int] matches Item::Module(mm) && mm == *m);
                            assert(pybind_params_ok(*m));
                        }
                        let w = self.emit_pybind_module(m);
                        match w {
                            Some(w) => {
                                out.push(w);
                            },
                            None => {},
                        }
                    }
                },
                Item::Fsm(f) => {
                    if !f.is_interface {
                        let w = self.emit_pybind_fsm(f);
                        match w {
                            Some(w) => {
                                out.push(w);
                            },
                            None => {},
                        }
                    }
                },
                Item::Counter(c) => {
                    if !c.is_interface {
                        let w = self.emit_pybind_counter(c);
                        match w {
                            Some(w) => {
                                out.push(w);
                            },
                            None => {},
                        }
                    }
                },
                _ => {},
            }
            proof {
                assert forall|k: int| 0 <= k < before.len() implies out@[k] == before[k] by {}
            }
            i = i + 1;
        }
        proof {
            assert(items@.take(items@.len() as int) =~= items@);
        }
        out
    }
}

} // verus!
