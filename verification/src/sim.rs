//! The simulation model generator: its options, and the models it emits
//! for a source file.
use vstd::prelude::*;
use std::collections::HashMap;
use crate::ast::{SourceFile, SymbolTable, TypeExpr};
use crate::cpp_fmt::wide_words_spec;
use crate::cpp_text::{dec32, own};
use crate::infer::{eval_width, eval_width_spec};
use crate::names::NameMap;
use crate::source_map::SourceMap;
use crate::text::{dec_str, push_str};
use crate::verilated::FpCompat;
use crate::collect::{build_enum_map, enum_map_of, pairs_view};
use crate::ctx::{entries_view, enum_map_view};
use crate::functions::{collect_functions, decls_view, emitted_functions};
use crate::clkgate::{clkgate_header, clkgate_impl, sim_clkgates};

verus! {

/// One generated C++ model: a class name, its header and its
/// implementation (empty for header-only models).
pub struct SimModel {
    pub class_name: String,
    pub header: String,
    pub impl_: String,
}

/// Generator of Verilator-compatible C++ simulation models for the
/// constructs of a source file.
pub struct SimCodegen<'a> {
    pub symbols: &'a SymbolTable,
    pub source: &'a SourceFile,
    pub overload_map: HashMap<usize, usize>,
    pub check_uninit: bool,
    pub inputs_start_uninit: bool,
    pub check_uninit_ram: bool,
    pub cdc_random: bool,
    pub debug: bool,
    pub debug_depth: u32,
    pub debug_fsm: bool,
    pub coverage: bool,
    /// Also write a Verilator-compatible `coverage.dat` (implies
    /// coverage).
    pub coverage_dat: Option<String>,
    /// Resolves span offsets to `file:line` for coverage reports.
    pub source_map: Option<SourceMap>,
    /// Bit patterns of float-typed parameter defaults, by parameter name
    /// (`None` where the default is no representable constant).
    pub float_param_bits: NameMap<Option<u64>>,
}

impl<'a> SimCodegen<'a> {
    /// A generator with every option off and a debug depth of 1.
    pub fn new(
        symbols: &'a SymbolTable,
        source: &'a SourceFile,
        overload_map: HashMap<usize, usize>,
    ) -> (r: SimCodegen<'a>)
        ensures
            r.symbols == symbols,
            r.source == source,
            r.overload_map == overload_map,
            !r.check_uninit,
            !r.inputs_start_uninit,
            !r.check_uninit_ram,
            !r.cdc_random,
            !r.debug,
            r.debug_depth == 1,
            !r.debug_fsm,
            !r.coverage,
            r.coverage_dat is None,
            r.source_map is None,
            r.float_param_bits@ == Map::<Seq<char>, Option<u64>>::empty(),
    {
        SimCodegen {
            symbols,
            source,
            overload_map,
            check_uninit: false,
            inputs_start_uninit: false,
            check_uninit_ram: false,
            cdc_random: false,
            debug: false,
            debug_depth: 1,
            debug_fsm: false,
            coverage: false,
            coverage_dat: None,
            source_map: None,
            float_param_bits: NameMap::new(),
        }
    }

    pub fn coverage(self, enabled: bool) -> (r: SimCodegen<'a>)
        ensures
            r == (SimCodegen { coverage: enabled, ..self }),
    {
        SimCodegen { coverage: enabled, ..self }
    }

    /// Also write `coverage.dat` to `path`; a path turns coverage on.
    pub fn coverage_dat(self, path: Option<String>) -> (r: SimCodegen<'a>)
        ensures
            r == (SimCodegen { coverage_dat: path, coverage: self.coverage || path is Some, ..self }),
    {
        let on = self.coverage || path.is_some();
        SimCodegen { coverage_dat: path, coverage: on, ..self }
    }

    pub fn with_source_map(self, sm: SourceMap) -> (r: SimCodegen<'a>)
        ensures
            r == (SimCodegen { source_map: Some(sm), ..self }),
    {
        SimCodegen { source_map: Some(sm), ..self }
    }

    pub fn check_uninit(self, enabled: bool) -> (r: SimCodegen<'a>)
        ensures
            r == (SimCodegen { check_uninit: enabled, ..self }),
    {
        SimCodegen { check_uninit: enabled, ..self }
    }

    pub fn inputs_start_uninit(self, enabled: bool) -> (r: SimCodegen<'a>)
        ensures
            r == (SimCodegen { inputs_start_uninit: enabled, ..self }),
    {
        SimCodegen { inputs_start_uninit: enabled, ..self }
    }

    pub fn check_uninit_ram(self, enabled: bool) -> (r: SimCodegen<'a>)
        ensures
            r == (SimCodegen { check_uninit_ram: enabled, ..self }),
    {
        SimCodegen { check_uninit_ram: enabled, ..self }
    }

    pub fn cdc_random(self, enabled: bool) -> (r: SimCodegen<'a>)
        ensures
            r == (SimCodegen { cdc_random: enabled, ..self }),
    {
        SimCodegen { cdc_random: enabled, ..self }
    }

    /// Debug instrumentation of the modules within `depth` levels of the
    /// roots of the instance tree.
    pub fn debug(self, enabled: bool, depth: u32) -> (r: SimCodegen<'a>)
        ensures
            r == (SimCodegen { debug: enabled, debug_depth: depth, ..self }),
    {
        SimCodegen { debug: enabled, debug_depth: depth, ..self }
    }

    pub fn with_debug_fsm(self, enabled: bool) -> (r: SimCodegen<'a>)
        ensures
            r == (SimCodegen { debug_fsm: enabled, ..self }),
    {
        SimCodegen { debug_fsm: enabled, ..self }
    }

    /// The bit patterns of float-typed parameter defaults, by name.
    pub fn with_float_param_bits(self, bits: NameMap<Option<u64>>) -> (r: SimCodegen<'a>)
        ensures
            r == (SimCodegen { float_param_bits: bits, ..self }),
    {
        SimCodegen { float_param_bits: bits, ..self }
    }

    /// The contents of the `verilated.h` compatibility header.
    pub fn verilated_h(fp_compat: FpCompat) -> (r: String)
        ensures
            r@ == crate::verilated::verilated_h_text(fp_compat),
    {
        crate::verilated::render_verilated_h(fp_compat)
    }

    /// The contents of `verilated.cpp`.
    pub fn verilated_cpp() -> (r: String)
        ensures
            r@ == crate::verilated::verilated_cpp_text(),
    {
        crate::verilated::render_verilated_cpp()
    }
}

/// Bit width of a port or register type (32 for named and Vec types).
pub open spec fn port_width_spec(ty: TypeExpr) -> u32 {
    match ty {
        TypeExpr::UInt(w) => eval_width_spec(*w),
        TypeExpr::SInt(w) => eval_width_spec(*w),
        TypeExpr::Bool | TypeExpr::Bit | TypeExpr::Clock(_) | TypeExpr::Reset(_, _) => 1,
        TypeExpr::FP32 => 32,
        TypeExpr::BF16 => 16,
        TypeExpr::FP8E4M3 | TypeExpr::FP8E5M2 => 8,
        TypeExpr::Named(_) => 32,
        TypeExpr::Vec(_, _) => 32,
    }
}

/// Bit width of a port type.
pub fn port_width(ty: &TypeExpr) -> (r: u32)
    ensures
        r == port_width_spec(*ty),
{
    match ty {
        TypeExpr::UInt(w) => eval_width(w),
        TypeExpr::SInt(w) => eval_width(w),
        TypeExpr::Bool | TypeExpr::Bit | TypeExpr::Clock(_) | TypeExpr::Reset(_, _) => 1,
        TypeExpr::FP32 => 32,
        TypeExpr::BF16 => 16,
        TypeExpr::FP8E4M3 | TypeExpr::FP8E5M2 => 8,
        TypeExpr::Named(_) => 32,
        TypeExpr::Vec(_, _) => 32,
    }
}

/// Bit width of a register type (that of the same port type).
pub fn reg_width(ty: &TypeExpr) -> (r: u32)
    ensures
        r == port_width_spec(*ty),
{
    port_width(ty)
}

/// Element width of the first port named `name` that is a Vec; 32 when
/// there is none.
pub open spec fn vec_elem_width_spec(ports: Seq<crate::ast::PortDecl>, name: Seq<char>) -> u32
    decreases ports.len(),
{
    if ports.len() == 0 {
        32
    } else {
        let p = ports[0];
        if p.name.name@ == name && p.ty is Vec {
            match p.ty {
                TypeExpr::Vec(elem, _) => port_width_spec(*elem),
                _ => 32,
            }
        } else {
            vec_elem_width_spec(ports.subrange(1, ports.len() as int), name)
        }
    }
}

pub fn vec_elem_width(ports: &[crate::ast::PortDecl], name: &str) -> (r: u32)
    ensures
        r == vec_elem_width_spec(ports@, name@),
{
    let mut i: usize = 0;
    proof {
        assert(ports@.subrange(0, ports@.len() as int) =~= ports@);
    }
    while i < ports.len()
        invariant
            i <= ports@.len(),
            vec_elem_width_spec(ports@, name@) == vec_elem_width_spec(
                ports@.subrange(i as int, ports@.len() as int),
                name@,
            ),
        decreases ports@.len() - i,
    {
        let ghost rest = ports@.subrange(i as int, ports@.len() as int);
        proof {
            assert(rest[0] == ports@[i as int]);
            assert(rest.subrange(1, rest.len() as int) =~= ports@.subrange(
                i + 1,
                ports@.len() as int,
            ));
        }
        if crate::text::str_eq(ports[i].name.name.as_str(), name) {
            if let TypeExpr::Vec(elem, _) = &ports[i].ty {
                return port_width(elem);
            }
        }
        i = i + 1;
    }
    32
}

/// The pybind11 property of a `VlWide` field: read as its low 64 bits,
/// written from a 64-bit value.
pub open spec fn wide_binding_text(class: Seq<char>, field: Seq<char>, width: u32) -> Seq<char> {
    let words = dec_str(((width as nat + 31) / 32) as nat);
    "        .def_property(\""@ + field + "\",\n            []("@ + class
        + "& self) -> uint64_t {\n                uint64_t v = 0;\n                for (int i = std::min("@
        + words + "u, 2u) - 1; i >= 0; i--)\n                    v = (v << 32) | self."@ + field
        + ".data()[i];\n                return v;\n            },\n            []("@ + class
        + "& self, uint64_t v) {\n                self."@ + field + " = VlWide<"@ + words
        + ">(v);\n            })"@
}

pub fn emit_wide_binding(class: &str, field: &str, width: u32) -> (r: String)
    ensures
        r@ == wide_binding_text(class@, field@, width),
{
    let words = crate::text::fmt_dec((width as u64 + 31) / 32);
    let words = words.as_str();
    let mut s = own("        .def_property(\"");
    push_str(&mut s, field);
    push_str(&mut s, "\",\n            [](");
    push_str(&mut s, class);
    push_str(
        &mut s,
        "& self) -> uint64_t {\n                uint64_t v = 0;\n                for (int i = std::min(",
    );
    push_str(&mut s, words);
    push_str(&mut s, "u, 2u) - 1; i >= 0; i--)\n                    v = (v << 32) | self.");
    push_str(&mut s, field);
    push_str(&mut s, ".data()[i];\n                return v;\n            },\n            [](");
    push_str(&mut s, class);
    push_str(&mut s, "& self, uint64_t v) {\n                self.");
    push_str(&mut s, field);
    push_str(&mut s, " = VlWide<");
    push_str(&mut s, words);
    push_str(&mut s, ">(v);\n            })");
    s
}

impl<'a> SimCodegen<'a> {
    /// The models this library generates for the file: `VFunctions.h`
    /// (header-only) when the file has functions, then one model per clock
    /// gate that is not an interface stub, in file order. `VStructs.h` and
    /// the models of modules, FSMs, FIFOs, RAMs, CAMs, counters, arbiters,
    /// linked lists, pipelines, register files and synchronizers are not
    /// among them.
    pub fn generate(&self) -> (r: Vec<SimModel>)
        requires
            forall|i: int|
                0 <= i < self.symbols.globals@.len() ==> (#[trigger] self.symbols.globals@[i].1 matches crate::ast::Symbol::Enum(
                    info,
                ) ==> info.variants@.len() < u64::MAX),
            forall|i: int|
                0 <= i < emitted_functions(self.source.items@).len()
                    ==> crate::functions::function_ok(
                    #[trigger] emitted_functions(self.source.items@)[i],
                    enum_map_of(self.symbols.globals@),
                ),
        ensures
            ({
                let off: int = if emitted_functions(self.source.items@).len() > 0 {
                    1
                } else {
                    0
                };
                let gates = sim_clkgates(self.source.items@);
                &&& r@.len() == off + gates.len()
                &&& emitted_functions(self.source.items@).len() > 0 ==> r@[0].class_name@ == "VFunctions"@
                    && r@[0].header@ == crate::functions::vfunctions_header(
                    self.source.items@,
                    emitted_functions(self.source.items@),
                    enum_map_of(self.symbols.globals@),
                    self.float_param_bits@,
                ) && r@[0].impl_@ == Seq::<char>::empty()
                &&& forall|k: int|
                    0 <= k < gates.len() ==> {
                        &&& (#[trigger] r@[off + k]).class_name@ == "V"@ + gates[k].name.name@
                        &&& r@[off + k].header@ == clkgate_header(gates[k])
                        &&& r@[off + k].impl_@ == clkgate_impl(gates[k])
                    }
            }),
    {
        let mut models: Vec<SimModel> = Vec::new();
        let fn_items = collect_functions(&self.source.items);
        if fn_items.len() > 0 {
            let em = build_enum_map(self.symbols);
            proof {
                assert forall|k: Seq<char>| #[trigger] em@.contains_key(k) implies entries_view(
                    em@[k],
                ) == pairs_view(em@[k]@) by {
                    assert(entries_view(em@[k]) =~= pairs_view(em@[k]@));
                }
                assert(enum_map_view(&em) =~= enum_map_of(self.symbols.globals@));
                assert forall|i: int| 0 <= i < fn_items@.len() implies crate::functions::function_ok(
                    *#[trigger] fn_items@[i],
                    enum_map_view(&em),
                ) by {
                    assert(decls_view(fn_items@)[i] == *fn_items@[i]);
                }
            }
            models.push(self.gen_functions(&fn_items, &em));
        }
        let ghost off: int = models@.len() as int;
        let items = &self.source.items;
        let mut i: usize = 0;
        while i < items.len()
            invariant
                i <= items@.len(),
                items == &self.source.items,
                models@.len() == off + sim_clkgates(items@.take(i as int)).len(),
                off == (if emitted_functions(self.source.items@).len() > 0 {
                    1int
                } else {
                    0int
                }),
                off == 1 ==> models@[0].class_name@ == "VFunctions"@ && models@[0].header@
                    == crate::functions::vfunctions_header(
                    self.source.items@,
                    emitted_functions(self.source.items@),
                    enum_map_of(self.symbols.globals@),
                    self.float_param_bits@,
                ) && models@[0].impl_@ == Seq::<char>::empty(),
                forall|k: int|
                    0 <= k < sim_clkgates(items@.take(i as int)).len() ==> {
                        &&& (#[trigger] models@[off + k]).class_name@ == "V"@ + sim_clkgates(
                            items@.take(i as int),
                        )[k].name.name@
                        &&& models@[off + k].header@ == clkgate_header(
                            sim_clkgates(items@.take(i as int))[k],
                        )
                        &&& models@[off + k].impl_@ == clkgate_impl(
                            sim_clkgates(items@.take(i as int))[k],
                        )
                    },
            decreases items@.len() - i,
        {
            proof {
                assert(items@.take(i + 1).drop_last() =~= items@.take(i as int));
            }
            let ghost before = models@;
            match &items[i] {
                crate::ast::Item::Clkgate(c) => {
                    if !c.is_interface {
                        let g = self.gen_clkgate(c);
                        models.push(g);
                    }
                },
                _ => {},
            }
            proof {
                assert forall|k: int| 0 <= k < before.len() implies models@[k] == before[k] by {}
            }
            i = i + 1;
        }
        proof {
            assert(items@.take(items@.len() as int) =~= items@);
        }
        models
    }
}

} // verus!
