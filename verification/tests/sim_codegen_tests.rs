use std::collections::HashMap;

use sim_codegen::ast::{
    BinOp, ClkGateDecl, ClkGateKind, ConstructCommon, Direction, EnumInfo, Expr, ExprKind, ExprMatchArm, FunctionArg,
    FunctionBodyItem, FunctionDecl, Ident, InsideMember, Item, LetBinding, LitKind,
    ModuleBodyItem, ModuleDecl, PackageDecl, ParamDecl, ParamKind, Pattern, PipeRegDecl, PortDecl,
    RegDecl, RegReset, SourceFile, Span, StructDecl, StructField, Symbol, SymbolTable, TypeExpr,
    UnaryOp, Assign, ForLoop, ForRange, IfElse, RegBlock, ResetKind, ResetLevel, StageDecl, Stmt,
};
use sim_codegen::pipeline::PipeScope;
use sim_codegen::arbiter::{mask_literal, unsigned_arg_mask};
use sim_codegen::ast::{ArbiterDecl, ArbiterHook, FieldInit, InstDecl, LogStmt, ModuleInfo, ParamAssign, PortArray, WireDecl};
use sim_codegen::lookup::find_function_decl;
use sim_codegen::vob::stmt_indexes_vob_with_var;
use sim_codegen::pybind::{collect_wide_names, type_bits_te_with_params, vec_array_info_with_params};
use sim_codegen::const_eval::{
    eval_const_expr, eval_const_expr_with_overrides, eval_const_expr_with_params, eval_param_const_value,
    is_const_reducible,
};
use sim_codegen::walk::collect_log_files;
use sim_codegen::cpp_expr::{cpp_concat, cpp_expr, cpp_expr_lhs, infer_expr_width};
use sim_codegen::cpp_fmt::{bit_range, bit_range_u128, cast_to_bits, cast_to_signed_bits};
use sim_codegen::collect::is_thread_fsm_state_reg;
use sim_codegen::ctx::Ctx;
use sim_codegen::expr_codegen::{is_fully_wrapped_in_parens, sv_fmt_to_printf};
use sim_codegen::names::{NameMap, NameSet};
use sim_codegen::sim::SimCodegen;
use sim_codegen::source_map::{CoverageRegistry, SourceMap};
use sim_codegen::text::{fmt_dec, fmt_hex_upper};
use sim_codegen::verilated::FpCompat;

fn sp() -> Span {
    Span { start: 0, end: 0 }
}

fn ex(kind: ExprKind) -> Expr {
    Expr { kind, span: sp() }
}

fn id(n: &str) -> Expr {
    ex(ExprKind::Ident(n.to_string()))
}

fn dec(v: u64) -> Expr {
    ex(ExprKind::Literal(LitKind::Dec(v)))
}

fn sized(w: u32, v: u64) -> Expr {
    ex(ExprKind::Literal(LitKind::Sized(w, v)))
}

fn bin(op: BinOp, l: Expr, r: Expr) -> Expr {
    ex(ExprKind::Binary(op, Box::new(l), Box::new(r)))
}

fn ident(n: &str) -> Ident {
    Ident { name: n.to_string() }
}

fn names(ns: &[&str]) -> NameSet {
    let mut s = NameSet::new();
    for n in ns {
        s.insert(n.to_string());
    }
    s
}

fn widths(ws: &[(&str, u32)]) -> NameMap<u32> {
    let mut m = NameMap::new();
    for (n, w) in ws {
        m.insert(n.to_string(), *w);
    }
    m
}

#[test]
fn decimal_and_hex_text() {
    assert_eq!(fmt_dec(0), "0");
    assert_eq!(fmt_dec(1234), "1234");
    assert_eq!(fmt_hex_upper(255), "FF");
    assert_eq!(fmt_hex_upper(0x1a2b), "1A2B");
}

#[test]
fn cast_to_bits_masks_below_64() {
    assert_eq!(cast_to_bits("x", 8), "(uint8_t)(((x) & 0xFFULL))");
    assert_eq!(cast_to_bits("x", 3), "(uint8_t)(((x) & 0x7ULL))");
    assert_eq!(cast_to_bits("x", 64), "(uint64_t)(x)");
    assert_eq!(cast_to_bits("x", 100), "(_arch_u128)(x)");
}

#[test]
fn cast_to_signed_bits_sign_extends() {
    assert_eq!(
        cast_to_signed_bits("x", 12),
        "((int16_t)(((uint64_t)(x) & 0xFFFULL) << 4) >> 4)"
    );
    assert_eq!(cast_to_signed_bits("x", 64), "(int64_t)(x)");
}

#[test]
fn bit_ranges() {
    assert_eq!(bit_range("v", 7, 4), "((v >> 4) & 0xFULL)");
    assert_eq!(bit_range("v", 63, 0), "((v >> 0) & 0xFFFFFFFFFFFFFFFFULL)");
    assert_eq!(
        bit_range_u128("v", 99, 0),
        "(_arch_u128)(((_arch_u128)(v) & ((((_arch_u128)1) << 100) - 1)))"
    );
    assert_eq!(
        bit_range_u128("v", 63, 0),
        "(uint64_t)(((_arch_u128)(v) & (_arch_u128)0xFFFFFFFFFFFFFFFFULL))"
    );
    assert_eq!(
        bit_range_u128("v", 127, 8),
        "(_arch_u128)(((_arch_u128)(v) >> 8) & ((((_arch_u128)1) << 120) - 1))"
    );
    assert_eq!(
        bit_range_u128("v", 79, 72),
        "(uint8_t)(((_arch_u128)(v) >> 72) & (_arch_u128)0xFFULL)"
    );
    assert_eq!(bit_range_u128("v", 127, 0), "(_arch_u128)(v)");
}

#[test]
fn printf_conversion() {
    assert_eq!(sv_fmt_to_printf("a=%0d b=%h t=%t"), "a=%lld b=%llx t=%lu");
    assert_eq!(sv_fmt_to_printf("%0h %b %0b %0t"), "%llx %llu %llu %lu");
}

#[test]
fn wrapped_in_parens() {
    assert!(is_fully_wrapped_in_parens("(a + b)"));
    assert!(is_fully_wrapped_in_parens("  (!busy)  "));
    assert!(!is_fully_wrapped_in_parens("(uint8_t)(!busy)"));
    assert!(!is_fully_wrapped_in_parens("a + b"));
    assert!(!is_fully_wrapped_in_parens("((a)"));
}

#[test]
fn thread_fsm_state_regs() {
    assert!(is_thread_fsm_state_reg("_t0_state"));
    assert!(is_thread_fsm_state_reg("t12_state"));
    assert!(!is_thread_fsm_state_reg("prev_state"));
    assert!(!is_thread_fsm_state_reg("t_state"));
    assert!(!is_thread_fsm_state_reg("state_counter"));
}

#[test]
fn constant_folding() {
    assert_eq!(eval_const_expr(&bin(BinOp::Add, dec(3), dec(4))), 7);
    assert_eq!(eval_const_expr(&ex(ExprKind::Clog2(Box::new(dec(9))))), 4);
    let params = vec![ParamDecl { name: ident("N"), kind: ParamKind::Const, default: Some(dec(8)) }];
    assert_eq!(eval_const_expr_with_params(&bin(BinOp::Mul, id("N"), dec(2)), &params), 16);
    assert!(is_const_reducible(&bin(BinOp::Sub, dec(8), dec(1))));
    assert!(!is_const_reducible(&bin(BinOp::Sub, id("N"), dec(1))));
}

#[test]
fn self_referential_param_does_not_fold() {
    let params = vec![ParamDecl {
        name: ident("N"),
        kind: ParamKind::Const,
        default: Some(bin(BinOp::Add, id("N"), dec(1))),
    }];
    assert_eq!(eval_const_expr_with_params(&id("N"), &params), 0);
}

struct Env {
    regs: NameSet,
    ports: NameSet,
    lets: NameSet,
    insts: NameSet,
    wide: NameSet,
    widths: NameMap<u32>,
    enums: NameMap<Vec<(String, u64)>>,
    bus: NameSet,
    params: Vec<ParamDecl>,
}

fn env() -> Env {
    let mut enums = NameMap::new();
    enums.insert("Color".to_string(), vec![("Red".to_string(), 0), ("Blue".to_string(), 2)]);
    Env {
        regs: names(&["cnt"]),
        ports: names(&["a", "b", "v", "s"]),
        lets: names(&[]),
        insts: names(&[]),
        wide: names(&[]),
        widths: widths(&[("a", 4), ("b", 4), ("cnt", 8), ("s", 3), ("v", 16)]),
        enums,
        bus: names(&[]),
        params: Vec::new(),
    }
}

fn ctx(e: &Env) -> Ctx<'_> {
    Ctx::new(
        &e.regs, &e.ports, &e.lets, &e.insts, &e.wide, &e.widths, &e.enums, &e.bus, &e.params,
    )
}

#[test]
fn registers_read_through_their_field() {
    let e = env();
    let c = ctx(&e);
    assert_eq!(cpp_expr(&bin(BinOp::Add, id("cnt"), dec(1)), &c), "(_cnt + 1)");
    assert_eq!(cpp_expr_lhs(&id("cnt"), &c.posedge()), "_n_cnt");
}

#[test]
fn runtime_divisor_is_checked() {
    let e = env();
    let c = ctx(&e);
    assert_eq!(
        cpp_expr(&bin(BinOp::Div, id("a"), id("b")), &c),
        "(_ARCH_DCHK((b), \"b /\"), (a / b))"
    );
    assert_eq!(cpp_expr(&bin(BinOp::Div, id("a"), dec(2)), &c), "(a / 2)");
}

#[test]
fn implication_lowering() {
    let e = env();
    let c = ctx(&e);
    assert_eq!(cpp_expr(&bin(BinOp::Implies, id("a"), id("b")), &c), "(!a || b)");
}

#[test]
fn product_in_128_bit_carrier() {
    let e = env();
    let c = ctx(&e);
    assert_eq!(
        cpp_expr(&bin(BinOp::Mul, id("a"), id("b")), &c),
        "(((_arch_u128)(a)) * ((_arch_u128)(b)))"
    );
    assert_eq!(
        cpp_expr(&bin(BinOp::MulWrap, id("a"), id("b")), &c),
        "(uint8_t)((((((_arch_u128)(a)) * ((_arch_u128)(b)))) & 0xFULL))"
    );
}

#[test]
fn concatenation_places_parts_from_the_right() {
    let e = env();
    let c = ctx(&e);
    let parts = vec![id("a"), id("b")];
    assert_eq!(cpp_concat(&parts, &c), "(((uint64_t)(b) << 0) | ((uint64_t)(a) << 4))");
    assert_eq!(cpp_concat(&Vec::new(), &c), "0");
    let cat = ex(ExprKind::Concat(vec![sized(3, 5), sized(5, 1)]));
    assert_eq!(infer_expr_width(&cat, &c), 8);
}

#[test]
fn width_inference() {
    let e = env();
    let c = ctx(&e);
    let slice = ex(ExprKind::BitSlice(Box::new(id("v")), Box::new(dec(7)), Box::new(dec(4))));
    assert_eq!(infer_expr_width(&slice, &c), 4);
    assert_eq!(infer_expr_width(&bin(BinOp::Eq, id("a"), id("v")), &c), 1);
    assert_eq!(infer_expr_width(&bin(BinOp::Add, id("a"), id("v")), &c), 16);
    assert_eq!(infer_expr_width(&id("unknown"), &c), 8);
    let rep = ex(ExprKind::Repeat(Box::new(dec(3)), Box::new(id("a"))));
    assert_eq!(infer_expr_width(&rep, &c), 12);
}

#[test]
fn trunc_masks_to_width() {
    let e = env();
    let c = ctx(&e);
    let call = ex(ExprKind::MethodCall(Box::new(id("cnt")), ident("trunc"), vec![dec(4)]));
    assert_eq!(cpp_expr(&call, &c), "(uint8_t)(((_cnt) & 0xFULL))");
}

#[test]
fn vec_any_unrolls_per_element() {
    let e = env();
    let mut sizes = NameMap::new();
    sizes.insert("v".to_string(), 2u64);
    let c = ctx(&e).with_vec_sizes(&sizes);
    let pred = bin(BinOp::Eq, id("item"), dec(1));
    let call = ex(ExprKind::MethodCall(Box::new(id("v")), ident("any"), vec![pred]));
    assert_eq!(cpp_expr(&call, &c), "((v[0] == 1) || (v[1] == 1))");
    let count = ex(ExprKind::MethodCall(
        Box::new(id("v")),
        ident("count"),
        vec![bin(BinOp::Gt, id("index"), dec(0))],
    ));
    assert_eq!(cpp_expr(&count, &c), "(((0 > 0) ? 1u : 0u) + ((1 > 0) ? 1u : 0u))");
    let xor = ex(ExprKind::MethodCall(Box::new(id("v")), ident("reduce_xor"), vec![]));
    assert_eq!(cpp_expr(&xor, &c), "(v[0] ^ v[1])");
}

#[test]
fn match_expression_becomes_ternary_chain() {
    let e = env();
    let c = ctx(&e);
    let m = ex(ExprKind::ExprMatch(
        Box::new(id("s")),
        vec![
            ExprMatchArm { pattern: Pattern::Literal(dec(1)), value: dec(10) },
            ExprMatchArm {
                pattern: Pattern::EnumVariant(ident("Color"), ident("Blue")),
                value: dec(30),
            },
            ExprMatchArm { pattern: Pattern::Wildcard, value: dec(20) },
        ],
    ));
    assert_eq!(cpp_expr(&m, &c), "((s == 1) ? 10 : ((s == 2) ? 30 : 20))");
}

#[test]
fn inside_set_membership() {
    let e = env();
    let c = ctx(&e);
    let ins = ex(ExprKind::Inside(
        Box::new(id("s")),
        vec![InsideMember::Single(dec(1)), InsideMember::Range(dec(2), dec(3))],
    ));
    assert_eq!(cpp_expr(&ins, &c), "((s == 1) || (s >= 2 && s <= 3))");
    let empty = ex(ExprKind::Inside(Box::new(id("s")), vec![]));
    assert_eq!(cpp_expr(&empty, &c), "0");
}

#[test]
fn enum_variants_and_unknown_enums() {
    let e = env();
    let c = ctx(&e);
    assert_eq!(cpp_expr(&ex(ExprKind::EnumVariant(ident("Color"), ident("Blue"))), &c), "2");
    assert_eq!(cpp_expr(&ex(ExprKind::EnumVariant(ident("Color"), ident("Green"))), &c), "0");
    assert_eq!(
        cpp_expr(&ex(ExprKind::EnumVariant(ident("Shape"), ident("Box"))), &c),
        "_ARCH_CODEGEN_ERROR_unknown_enum_Shape_Box"
    );
}

#[test]
fn unary_reductions() {
    let e = env();
    let c = ctx(&e);
    let red_and = ex(ExprKind::Unary(UnaryOp::RedAnd, Box::new(id("a"))));
    assert_eq!(cpp_expr(&red_and, &c), "(uint8_t)((a & 0xfULL) == 0xfULL)");
    let red_or = ex(ExprKind::Unary(UnaryOp::RedOr, Box::new(id("a"))));
    assert_eq!(cpp_expr(&red_or, &c), "(uint8_t)((a) != 0)");
    let not = ex(ExprKind::Unary(UnaryOp::BitNot, Box::new(id("a"))));
    assert_eq!(cpp_expr(&not, &c), "(~(a))");
}

#[test]
fn source_map_resolves_lines() {
    let sm = SourceMap::new(vec![
        (10, "b.arch".to_string(), "x\ny\n".to_string()),
        (0, "a.arch".to_string(), "l1\nl2\nl3\n".to_string()),
    ]);
    assert_eq!(sm.locate(4), Some(("a.arch", 2)));
    assert_eq!(sm.locate(0), Some(("a.arch", 1)));
    assert_eq!(sm.locate(12), Some(("b.arch", 2)));
    assert_eq!(sm.locate(100), None);
}

#[test]
fn coverage_points_are_numbered_in_order() {
    let mut reg = CoverageRegistry::new();
    assert_eq!(reg.alloc_point("if", 3, "if a".to_string()), 0);
    assert_eq!(reg.alloc_point("else", 9, String::new()), 1);
    assert_eq!(reg.points.len(), 2);
}

#[test]
fn verilated_profiles() {
    let riscv = SimCodegen::verilated_h(FpCompat::Riscv);
    let cuda = SimCodegen::verilated_h(FpCompat::Cuda);
    assert!(riscv.starts_with("#pragma once"));
    assert!(riscv.contains("return 0x7FC00000u;"));
    assert!(!cuda.contains("return 0x7FC00000u;"));
    assert!(cuda.contains("return 0x7FFFFFFFu;"));
    assert!(SimCodegen::verilated_cpp().starts_with("#include \"verilated.h\""));
}

#[test]
fn builder_options() {
    let symbols = SymbolTable { globals: vec![] };
    let source = SourceFile { items: vec![] };
    let g = SimCodegen::new(&symbols, &source, HashMap::new());
    assert!(!g.coverage);
    assert_eq!(g.debug_depth, 1);
    let g = g.coverage_dat(Some("cov.dat".to_string())).debug(true, 3).check_uninit(true);
    assert!(g.coverage);
    assert!(g.debug);
    assert_eq!(g.debug_depth, 3);
    assert!(g.check_uninit);
    let g = g.coverage_dat(None);
    assert!(g.coverage);
    assert!(g.coverage_dat.is_none());
}

fn add1_function(name: &str) -> FunctionDecl {
    FunctionDecl {
        name: ident(name),
        args: vec![FunctionArg {
            name: ident("x"),
            ty: TypeExpr::UInt(Box::new(dec(8))),
        }],
        ret_ty: TypeExpr::UInt(Box::new(dec(8))),
        body: vec![FunctionBodyItem::Return(bin(BinOp::Add, id("x"), dec(1)))],
    }
}

#[test]
fn generate_emits_functions_header() {
    let symbols = SymbolTable { globals: vec![] };
    let source = SourceFile {
        items: vec![
            Item::Package(PackageDecl {
                name: ident("P"),
                params: vec![ParamDecl {
                    name: ident("N"),
                    kind: ParamKind::Const,
                    default: Some(dec(4)),
                }],
                functions: vec![add1_function("add1")],
                structs: vec![],
            }),
            Item::Function(add1_function("add1")),
        ],
    };
    let models = SimCodegen::new(&symbols, &source, HashMap::new()).generate();
    assert_eq!(models.len(), 1);
    assert_eq!(models[0].class_name, "VFunctions");
    assert_eq!(models[0].impl_, "");
    assert_eq!(
        models[0].header,
        "#pragma once\n#include \"verilated.h\"\n\n\
         #ifndef N\n#define N 4ULL\n#define ARCH_SIM_VFUNCTIONS_DEFINED_N\n#endif\n\n\
         inline uint8_t add1(uint8_t x) {\n  return (x + 1);\n}\n\n\
         #ifdef ARCH_SIM_VFUNCTIONS_DEFINED_N\n#undef N\n#undef ARCH_SIM_VFUNCTIONS_DEFINED_N\n#endif\n"
    );
}

#[test]
fn generate_without_functions_is_empty() {
    let symbols = SymbolTable { globals: vec![] };
    let source = SourceFile { items: vec![] };
    assert_eq!(SimCodegen::new(&symbols, &source, HashMap::new()).generate().len(), 0);
}

fn uint(w: u64) -> TypeExpr {
    TypeExpr::UInt(Box::new(dec(w)))
}

fn port(n: &str, d: Direction, ty: TypeExpr) -> PortDecl {
    PortDecl { name: ident(n), direction: d, ty, reg_info: None }
}

fn reg(n: &str, ty: TypeExpr) -> ModuleBodyItem {
    ModuleBodyItem::RegDecl(RegDecl { name: ident(n), ty, reset: RegReset::NoReset })
}

const PYBIND_SHIMS: &str = "template <typename T>\nvoid eval_comb(T& self) {\n    if constexpr (requires(T& t) { t.eval_comb(); }) {\n        self.eval_comb();\n    } else {\n        self.eval();\n    }\n}\n\ntemplate <typename T>\nvoid eval_posedge(T& self) {\n    if constexpr (requires(T& t) { t.eval_posedge(); }) {\n        self.eval_posedge();\n    } else {\n        self.eval();\n    }\n}\n\ntemplate <typename T>\nvoid run_cycles(T& self, uint64_t cycles) {\n    if constexpr (requires(T& t, uint64_t n) { t.run_cycles(n); }) {\n        self.run_cycles(cycles);\n    } else {\n        for (uint64_t i = 0; i < cycles; ++i) self.eval();\n    }\n}\n";

#[test]
fn pybind_wrapper_of_a_module() {
    let symbols = SymbolTable { globals: vec![] };
    let top = ModuleDecl {
        name: ident("Top"),
        params: vec![ParamDecl { name: ident("N"), kind: ParamKind::Const, default: Some(dec(4)) }],
        ports: vec![
            port("a", Direction::In, uint(8)),
            port("y", Direction::Out, TypeExpr::SInt(Box::new(dec(16)))),
            port("v", Direction::In, TypeExpr::Vec(Box::new(uint(4)), Box::new(dec(2)))),
            port("s", Direction::In, TypeExpr::Named(ident("Pt"))),
        ],
        body: vec![reg("cnt", uint(8))],
        is_interface: false,
    };
    let source = SourceFile {
        items: vec![
            Item::Struct(StructDecl {
                name: ident("Unused"),
                fields: vec![StructField { name: ident("z"), ty: uint(1) }],
            }),
            Item::Struct(StructDecl {
                name: ident("Pt"),
                fields: vec![StructField { name: ident("x"), ty: uint(8) }],
            }),
            Item::Module(top),
        ],
    };
    let ws = SimCodegen::new(&symbols, &source, HashMap::new()).generate_pybind();
    assert_eq!(ws.len(), 1);
    assert_eq!(ws[0].class_name, "VTop_pybind");
    assert_eq!(ws[0].header, "");
    let mut expected = String::new();
    expected.push_str("// Auto-generated pybind11 wrapper for VTop\n#include <pybind11/pybind11.h>\n#include <pybind11/stl.h>\n#include <cstdint>\n#include \"VTop.h\"\nnamespace py = pybind11;\n\nnamespace arch_pybind_detail {\n");
    expected.push_str(PYBIND_SHIMS);
    expected.push_str("\ntemplate <typename T>\nauto read_internal_cnt(const T& self) {\n    if constexpr (requires(const T& t) { t._cnt; }) {\n        return self._cnt;\n    } else {\n        return self.cnt;\n    }\n}\n");
    expected.push_str("\n} // namespace arch_pybind_detail\n\nPYBIND11_MODULE(VTop_pybind, m) {\n");
    expected.push_str("    py::class_<Pt>(m, \"Pt\", py::module_local())\n        .def(py::init<>())\n        .def_readwrite(\"x\", &Pt::x)\n        ;\n");
    expected.push_str("    py::class_<VTop>(m, \"VTop\")\n        .def(py::init<>())\n");
    expected.push_str("        .def_readwrite(\"a\", &VTop::a)\n");
    expected.push_str("        .def_readwrite(\"y\", &VTop::y)\n");
    expected.push_str("        .def_readwrite(\"s\", &VTop::s)\n");
    expected.push_str("        .def_readwrite(\"v_0\", &VTop::v_0)\n");
    expected.push_str("        .def_readwrite(\"v_1\", &VTop::v_1)\n");
    expected.push_str("        .def_property_readonly(\"cnt\", &arch_pybind_detail::read_internal_cnt<VTop>)\n");
    expected.push_str("        .def_property_readonly_static(\"N\", [](py::object) { return 4ULL; })\n");
    expected.push_str("        .def(\"eval\", &VTop::eval)\n");
    expected.push_str("        .def(\"eval_comb\", &arch_pybind_detail::eval_comb<VTop>)\n");
    expected.push_str("        .def(\"eval_posedge\", &arch_pybind_detail::eval_posedge<VTop>)\n");
    expected.push_str("        .def(\"run_cycles\", &arch_pybind_detail::run_cycles<VTop>)\n");
    expected.push_str("        .def_static(\"_port_info\", []() {\n            return std::vector<py::tuple>{\n");
    expected.push_str("            py::make_tuple(\"a\", 8, false, true, false, false),\n");
    expected.push_str("            py::make_tuple(\"y\", 16, true, false, false, false),\n");
    expected.push_str("            py::make_tuple(\"s\", 32, false, true, false, false),\n");
    expected.push_str("            py::make_tuple(\"v_0\", 4, false, true, false, false),\n");
    expected.push_str("            py::make_tuple(\"v_1\", 4, false, true, false, false),\n");
    expected.push_str("            py::make_tuple(\"cnt\", 8, false, false, false, true),\n");
    expected.push_str("            py::make_tuple(\"N\", 32, false, false, true, false)\n");
    expected.push_str("            };\n        });\n}\n");
    assert_eq!(ws[0].impl_, expected);
}

#[test]
fn pybind_wide_ports_enum_params_and_stubs() {
    let symbols = SymbolTable {
        globals: vec![(
            "Mode".to_string(),
            Symbol::Enum(EnumInfo {
                variants: vec!["Idle".to_string(), "Run".to_string()],
                values: vec![None, Some(5)],
            }),
        )],
    };
    let wide = ModuleDecl {
        name: ident("W"),
        params: vec![
            ParamDecl {
                name: ident("M"),
                kind: ParamKind::EnumConst("Mode".to_string()),
                default: Some(ex(ExprKind::EnumVariant(ident("Mode"), ident("Run")))),
            },
            ParamDecl {
                name: ident("R"),
                kind: ParamKind::WidthConst(dec(7), dec(0)),
                default: Some(dec(3)),
            },
        ],
        ports: vec![port("d", Direction::In, uint(100))],
        body: vec![],
        is_interface: false,
    };
    let stub = ModuleDecl {
        name: ident("Stub"),
        params: vec![],
        ports: vec![],
        body: vec![],
        is_interface: true,
    };
    let fsm = ConstructCommon { name: ident("F"), params: vec![], ports: vec![], is_interface: false };
    let source = SourceFile { items: vec![Item::Module(stub), Item::Fsm(fsm), Item::Module(wide)] };
    let ws = SimCodegen::new(&symbols, &source, HashMap::new()).generate_pybind();
    assert_eq!(ws.len(), 1);
    assert_eq!(ws[0].class_name, "VW_pybind");
    let cpp = &ws[0].impl_;
    assert!(cpp.contains("        .def_property(\"d\",\n            [](VW& self) -> uint64_t {\n                uint64_t v = 0;\n                for (int i = std::min(4u, 2u) - 1; i >= 0; i--)\n                    v = (v << 32) | self.d.data()[i];\n                return v;\n            },\n            [](VW& self, uint64_t v) {\n                self.d = VlWide<4>(v);\n            })\n"));
    assert!(cpp.contains("        .def_property_readonly_static(\"M\", [](py::object) { return 5ULL; })\n"));
    assert!(cpp.contains("        .def_property_readonly_static(\"R\", [](py::object) { return 3ULL; })\n"));
    assert!(cpp.contains("            py::make_tuple(\"d\", 100, false, true, false, false),\n"));
    assert!(cpp.contains("            py::make_tuple(\"M\", 32, false, false, true, false),\n"));
    assert!(cpp.contains("            py::make_tuple(\"R\", 8, false, false, true, false)\n"));
    assert!(!cpp.contains("py::class_<VStub>"));
}

#[test]
fn wide_names_and_type_widths() {
    let params = vec![ParamDecl { name: ident("W"), kind: ParamKind::Const, default: Some(dec(70)) }];
    let ports = vec![
        port("big", Direction::In, TypeExpr::UInt(Box::new(id("W")))),
        port("small", Direction::In, uint(64)),
    ];
    let body = vec![
        reg("acc", uint(65)),
        ModuleBodyItem::LetBinding(LetBinding {
            name: ident("t"),
            ty: Some(uint(128)),
            value: dec(0),
            destructure_fields: vec![],
        }),
        ModuleBodyItem::PipeRegDecl(PipeRegDecl { name: ident("p"), source: ident("big"), stages: 3 }),
    ];
    let w = collect_wide_names(&ports, &body, &params);
    for n in ["big", "acc", "t", "p", "p_stg1", "p_stg2"] {
        assert!(w.contains(n), "{n}");
    }
    assert!(!w.contains("small"));
    assert!(!w.contains("p_stg3"));
    assert_eq!(type_bits_te_with_params(&TypeExpr::UInt(Box::new(id("W"))), &params), 70);
    assert_eq!(type_bits_te_with_params(&TypeExpr::Named(ident("S")), &params), 32);
    assert_eq!(type_bits_te_with_params(&TypeExpr::BF16, &params), 16);
    let vi = vec_array_info_with_params(
        &TypeExpr::Vec(Box::new(TypeExpr::SInt(Box::new(dec(12)))), Box::new(bin(BinOp::Add, id("W"), dec(2)))),
        &params,
    );
    assert_eq!(vi, Some(("int16_t".to_string(), 72)));
    assert_eq!(vec_array_info_with_params(&uint(8), &params), None);
}

fn gate(name: &str, kind: ClkGateKind, ports: Vec<PortDecl>) -> ClkGateDecl {
    ClkGateDecl { name: ident(name), params: vec![], ports, kind, is_interface: false }
}

#[test]
fn latch_clock_gate_with_test_enable() {
    let symbols = SymbolTable { globals: vec![] };
    let source = SourceFile { items: vec![] };
    let g = SimCodegen::new(&symbols, &source, HashMap::new());
    let c = gate(
        "G",
        ClkGateKind::Latch,
        vec![
            port("clk", Direction::In, TypeExpr::Clock(ident("D"))),
            port("enable", Direction::In, TypeExpr::Bool),
            port("test_en", Direction::In, TypeExpr::Bool),
            port("gclk", Direction::Out, TypeExpr::Clock(ident("D"))),
        ],
    );
    let m = g.gen_clkgate(&c);
    assert_eq!(m.class_name, "VG");
    assert_eq!(
        m.header,
        "#pragma once\n#include <cstdint>\nclass VG {\npublic:\n  uint8_t clk = 0;\n  uint8_t enable = 0;\n  uint8_t test_en = 0;\n  uint8_t gclk = 0;\n  uint8_t _en_latched = 0;\n  void eval();\n  void eval_comb();\n  void eval_posedge();\n};\n"
    );
    assert_eq!(
        m.impl_,
        "#include \"VG.h\"\nvoid VG::eval_comb() {\n  if (!clk) _en_latched = (enable | test_en) ? 1 : 0;\n  gclk = clk & _en_latched;\n}\nvoid VG::eval_posedge() {}\nvoid VG::eval() { eval_comb(); }\n"
    );
}

#[test]
fn and_clock_gate_defaults_and_generate() {
    let symbols = SymbolTable { globals: vec![] };
    let mut stub = gate("S", ClkGateKind::And, vec![]);
    stub.is_interface = true;
    let source = SourceFile {
        items: vec![
            Item::Clkgate(stub),
            Item::Clkgate(gate("A", ClkGateKind::And, vec![port("enable", Direction::In, TypeExpr::Bit)])),
        ],
    };
    let models = SimCodegen::new(&symbols, &source, HashMap::new()).generate();
    assert_eq!(models.len(), 1);
    assert_eq!(models[0].class_name, "VA");
    assert_eq!(
        models[0].header,
        "#pragma once\n#include <cstdint>\nclass VA {\npublic:\n  uint8_t enable = 0;\n  void eval();\n  void eval_comb();\n  void eval_posedge();\n};\n"
    );
    assert_eq!(
        models[0].impl_,
        "#include \"VA.h\"\nvoid VA::eval_comb() {\n  clk_out = clk_in & ((enable) ? 1 : 0);\n}\nvoid VA::eval_posedge() {}\nvoid VA::eval() { eval_comb(); }\n"
    );
}

struct PipeEnv {
    names: Vec<String>,
    prefixes: Vec<String>,
    stage_regs: Vec<NameSet>,
    ports: NameSet,
    regs: NameSet,
    lets: NameSet,
    widths: NameMap<u32>,
    enums: NameMap<Vec<(String, u64)>>,
    params: Vec<ParamDecl>,
}

fn pipe_env() -> PipeEnv {
    PipeEnv {
        names: vec!["Fetch".to_string(), "Decode".to_string()],
        prefixes: vec!["fetch".to_string(), "decode".to_string()],
        stage_regs: vec![names(&["pc"]), names(&["insn"])],
        ports: names(&["in_data", "out"]),
        regs: names(&["fetch_pc", "decode_insn"]),
        lets: names(&["decode_tmp"]),
        widths: widths(&[("in_data", 16), ("fetch_pc", 32), ("decode_insn", 12), ("fetch_data", 20)]),
        enums: NameMap::new(),
        params: vec![],
    }
}

fn decode_scope(e: &PipeEnv) -> PipeScope<'_> {
    PipeScope {
        prefix: "decode",
        stage: 1,
        stage_names: &e.names,
        stage_prefixes: &e.prefixes,
        stage_regs: &e.stage_regs,
        ports: &e.ports,
        regs: &e.regs,
        lets: &e.lets,
        widths: &e.widths,
        enum_map: &e.enums,
        params: &e.params,
    }
}

fn field(b: &str, f: &str) -> Expr {
    ex(ExprKind::FieldAccess(Box::new(id(b)), ident(f)))
}

fn method(b: Expr, m: &str, args: Vec<Expr>) -> Expr {
    ex(ExprKind::MethodCall(Box::new(b), ident(m), args))
}

fn assign(t: Expr, v: Expr) -> Stmt {
    Stmt::Assign(Assign { target: t, value: v })
}

#[test]
fn pipeline_stage_names_resolve_through_prefixes() {
    let symbols = SymbolTable { globals: vec![] };
    let source = SourceFile { items: vec![] };
    let g = SimCodegen::new(&symbols, &source, HashMap::new());
    let e = pipe_env();
    let s = decode_scope(&e);
    assert_eq!(g.pipeline_sim_expr(&id("in_data"), &s), "in_data");
    assert_eq!(g.pipeline_sim_expr(&id("insn"), &s), "_decode_insn");
    assert_eq!(g.pipeline_sim_expr(&id("valid_r"), &s), "_decode_valid_r");
    assert_eq!(g.pipeline_sim_expr(&id("fetch_pc"), &s), "_fetch_pc");
    assert_eq!(g.pipeline_sim_expr(&field("Fetch", "pc"), &s), "_fetch_pc");
    assert_eq!(g.pipeline_sim_expr(&field("Fetch", "valid_r"), &s), "_fetch_valid_r");
    assert_eq!(g.pipeline_sim_expr(&field("Fetch", "addr"), &s), "_fetch_addr");
}

#[test]
fn pipeline_expressions_lower_to_64_bit_arithmetic() {
    let symbols = SymbolTable { globals: vec![] };
    let source = SourceFile { items: vec![] };
    let g = SimCodegen::new(&symbols, &source, HashMap::new());
    let e = pipe_env();
    let s = decode_scope(&e);
    assert_eq!(g.pipeline_sim_expr(&bin(BinOp::Add, id("in_data"), dec(1)), &s), "(in_data + 1)");
    assert_eq!(g.pipeline_sim_expr(&bin(BinOp::Implies, id("in_data"), id("out")), &s), "(!in_data || out)");
    assert_eq!(
        g.pipeline_sim_expr(&ex(ExprKind::Concat(vec![id("in_data"), sized(4, 3)])), &s),
        "(((uint64_t)(in_data) << 4) | (uint64_t)(3))"
    );
    assert_eq!(g.pipeline_sim_expr(&method(id("in_data"), "trunc", vec![dec(4)]), &s), "(in_data & 0xFULL)");
    assert_eq!(g.pipeline_sim_expr(&method(id("in_data"), "zext", vec![dec(32)]), &s), "(uint64_t)(in_data)");
    assert_eq!(
        g.pipeline_sim_expr(&method(id("in_data"), "sext", vec![dec(32)]), &s),
        "(((in_data >> 15) & 1) ? (uint32_t)(in_data) | (uint32_t)(~((uint32_t)0) << 16) : (uint32_t)(in_data))"
    );
    assert_eq!(g.pipeline_sim_expr(&method(id("in_data"), "sext", vec![dec(8)]), &s), "(uint8_t)(in_data)");
    assert_eq!(
        g.pipeline_sim_expr(&ex(ExprKind::BitSlice(Box::new(id("in_data")), Box::new(dec(7)), Box::new(dec(4)))), &s),
        "((in_data >> 4) & 0xFULL)"
    );
    assert_eq!(
        g.pipeline_sim_expr(&ex(ExprKind::Index(Box::new(id("in_data")), Box::new(dec(2)))), &s),
        "((in_data >> 2) & 1)"
    );
    assert_eq!(g.pipeline_sim_expr(&ex(ExprKind::Literal(LitKind::Hex(255))), &s), "0xFF");
    assert_eq!(g.pipeline_sim_expr(&ex(ExprKind::Bool(true)), &s), "1");
    assert_eq!(
        g.pipeline_sim_expr(
            &ex(ExprKind::Ternary(Box::new(id("out")), Box::new(dec(1)), Box::new(dec(2)))),
            &s
        ),
        "((out) ? (1) : (2))"
    );
    assert_eq!(g.pipeline_sim_expr(&ex(ExprKind::Clog2(Box::new(dec(8)))), &s), "_arch_clog2(8)");
    assert_eq!(g.pipeline_sim_expr(&ex(ExprKind::Unary(UnaryOp::BitNot, Box::new(id("out")))), &s), "(~out)");
}

#[test]
fn pipeline_expression_widths() {
    let symbols = SymbolTable { globals: vec![] };
    let source = SourceFile { items: vec![] };
    let g = SimCodegen::new(&symbols, &source, HashMap::new());
    let e = pipe_env();
    let s = decode_scope(&e);
    assert_eq!(g.pipeline_sim_expr_width(&field("Fetch", "data"), &s), 20);
    assert_eq!(g.pipeline_sim_expr_width(&id("insn"), &s), 12);
    assert_eq!(g.pipeline_sim_expr_width(&id("in_data"), &s), 16);
    assert_eq!(g.pipeline_sim_expr_width(&id("nothing"), &s), 8);
    assert_eq!(
        g.pipeline_sim_expr_width(&ex(ExprKind::BitSlice(Box::new(id("in_data")), Box::new(dec(7)), Box::new(dec(4)))), &s),
        4
    );
    assert_eq!(g.pipeline_sim_expr_width(&sized(5, 1), &s), 5);
    assert_eq!(g.pipeline_sim_expr_width(&method(id("out"), "zext", vec![dec(9)]), &s), 9);
    assert_eq!(g.pipeline_sim_expr_width(&method(id("out"), "reverse", vec![dec(9)]), &s), 8);
}

#[test]
fn pipeline_statements() {
    let symbols = SymbolTable { globals: vec![] };
    let source = SourceFile { items: vec![] };
    let g = SimCodegen::new(&symbols, &source, HashMap::new());
    let e = pipe_env();
    let s = decode_scope(&e);
    let mut cpp = String::new();
    g.emit_pipeline_sim_stmt(&mut cpp, &assign(id("insn"), id("in_data")), &s, 4);
    assert_eq!(cpp, "    _decode_insn = (in_data) & 0xFFFULL;\n");
    let mut cpp = String::new();
    let ie = Stmt::IfElse(IfElse {
        cond: id("in_data"),
        then_stmts: vec![assign(id("out"), dec(1))],
        else_stmts: vec![assign(id("insn"), dec(0))],
    });
    g.emit_pipeline_sim_stmt(&mut cpp, &ie, &s, 2);
    assert_eq!(cpp, "  if (in_data) {\n    out = (1);\n  } else {\n    _decode_insn = (0) & 0xFFFULL;\n  }\n");
    let mut cpp = String::new();
    let fl = Stmt::For(ForLoop {
        var: ident("i"),
        range: ForRange::Range(dec(0), dec(3)),
        body: vec![assign(id("out"), dec(5))],
    });
    g.emit_pipeline_sim_stmt(&mut cpp, &fl, &s, 0);
    assert_eq!(cpp, "for (int i = 0; i <= 3; i++) {\n  out = (5);\n}\n");
    let mut cpp = String::new();
    g.emit_pipeline_sim_comb_stmt(&mut cpp, &assign(id("insn"), dec(3)), &s, 2);
    g.emit_pipeline_sim_comb_stmt(&mut cpp, &assign(id("out"), id("insn")), &s, 2);
    g.emit_pipeline_sim_comb_stmt(&mut cpp, &fl, &s, 2);
    assert_eq!(cpp, "  decode_insn = 3;\n  out = _decode_insn;\n");
}

#[test]
fn pipeline_wait_stage_state_machine() {
    let symbols = SymbolTable { globals: vec![] };
    let source = SourceFile { items: vec![] };
    let g = SimCodegen::new(&symbols, &source, HashMap::new());
    let e = pipe_env();
    let s = decode_scope(&e);
    let stage = StageDecl {
        name: ident("Decode"),
        body: vec![ModuleBodyItem::RegBlock(RegBlock {
            stmts: vec![
                assign(id("insn"), dec(1)),
                Stmt::WaitUntil(id("in_data"), 0),
                assign(id("out"), dec(2)),
                Stmt::DoUntil { body: vec![assign(id("insn"), dec(3))], cond: id("out") },
                assign(id("insn"), dec(4)),
            ],
        })],
    };
    assert!(SimCodegen::pipeline_stage_has_wait(&stage));
    let mut cpp = String::new();
    g.emit_pipeline_sim_wait_stage(&mut cpp, &stage, &s, 4);
    let lines = [
        "    switch (_decode_fsm_state) {",
        "      case 0: {",
        "        if (_fetch_valid_r) {",
        "        _decode_insn = (1) & 0xFFFULL;",
        "          if (in_data) {",
        "            _decode_fsm_state = 2;",
        "          } else {",
        "            _decode_fsm_state = 1;",
        "          }",
        "        }",
        "        break;",
        "      }",
        "      case 1: {",
        "        if (in_data) {",
        "        out = (2);",
        "          _decode_fsm_state = 2;",
        "        }",
        "        break;",
        "      }",
        "      case 2: {",
        "        _decode_insn = (3) & 0xFFFULL;",
        "        if (out) {",
        "        _decode_insn = (4) & 0xFFFULL;",
        "          _decode_fsm_state = 0;",
        "          _decode_valid_r = 1;",
        "        }",
        "        break;",
        "      }",
        "      default: _decode_fsm_state = 0; break;",
        "    }",
    ];
    let expected = lines.join("\n") + "\n";
    assert_eq!(cpp, expected);
}

#[test]
fn pipeline_single_wait_and_plain_stages() {
    let symbols = SymbolTable { globals: vec![] };
    let source = SourceFile { items: vec![] };
    let g = SimCodegen::new(&symbols, &source, HashMap::new());
    let e = pipe_env();
    let mut s = decode_scope(&e);
    s.stage = 0;
    s.prefix = "fetch";
    let stage = StageDecl {
        name: ident("Fetch"),
        body: vec![ModuleBodyItem::RegBlock(RegBlock {
            stmts: vec![Stmt::WaitUntil(id("in_data"), 0), assign(id("out"), dec(7))],
        })],
    };
    let mut cpp = String::new();
    g.emit_pipeline_sim_wait_stage(&mut cpp, &stage, &s, 0);
    assert_eq!(
        cpp,
        "switch (_fetch_fsm_state) {\n  case 0: {\n    if (1) {\n      if (in_data) {\n      out = (7);\n        _fetch_valid_r = 1;\n      } else {\n        _fetch_fsm_state = 1;\n      }\n    }\n    break;\n  }\n  case 1: {\n    if (in_data) {\n    out = (7);\n      _fetch_fsm_state = 0;\n      _fetch_valid_r = 1;\n    }\n    break;\n  }\n  default: _fetch_fsm_state = 0; break;\n}\n"
    );
    let plain = StageDecl {
        name: ident("P"),
        body: vec![ModuleBodyItem::RegBlock(RegBlock { stmts: vec![assign(id("out"), dec(1))] })],
    };
    assert!(!SimCodegen::pipeline_stage_has_wait(&plain));
    let mut cpp = String::new();
    g.emit_pipeline_sim_wait_stage(&mut cpp, &plain, &s, 0);
    assert_eq!(cpp, "");
    let nested = vec![Stmt::IfElse(IfElse {
        cond: id("out"),
        then_stmts: vec![Stmt::WaitUntil(id("in_data"), 0)],
        else_stmts: vec![],
    })];
    assert!(SimCodegen::pipeline_stmts_contain_wait(&nested));
    assert!(!SimCodegen::pipeline_stmts_contain_wait(&vec![assign(id("out"), dec(1))]));
}

#[test]
fn pipeline_reset_values() {
    let hex = RegReset::Inherit(ident("rst"), ex(ExprKind::Literal(LitKind::Hex(16))));
    assert_eq!(SimCodegen::pipeline_reset_value(&hex), Some("0x10".to_string()));
    let b = RegReset::Explicit(ident("rst"), ResetKind::Sync, ResetLevel::High, ex(ExprKind::Bool(true)));
    assert_eq!(SimCodegen::pipeline_reset_value(&b), Some("1".to_string()));
    let d = RegReset::Explicit(ident("rst"), ResetKind::Async, ResetLevel::Low, dec(5));
    assert_eq!(SimCodegen::pipeline_reset_value(&d), Some("5".to_string()));
    let other = RegReset::Inherit(ident("rst"), id("x"));
    assert_eq!(SimCodegen::pipeline_reset_value(&other), Some("0".to_string()));
    assert_eq!(SimCodegen::pipeline_reset_value(&RegReset::NoReset), Some("0".to_string()));
}

#[test]
fn arbiter_masks() {
    assert_eq!(mask_literal(4), "0xFULL");
    assert_eq!(mask_literal(1), "0x1ULL");
    assert_eq!(mask_literal(64), "~0ULL");
    assert_eq!(mask_literal(70), "~0ULL");
    assert_eq!(unsigned_arg_mask(&uint(4)), Some("0xFULL".to_string()));
    assert_eq!(unsigned_arg_mask(&TypeExpr::Bool), Some("0x1ULL".to_string()));
    assert_eq!(unsigned_arg_mask(&uint(64)), None);
    assert_eq!(unsigned_arg_mask(&TypeExpr::SInt(Box::new(dec(4)))), None);
    assert_eq!(unsigned_arg_mask(&TypeExpr::Named(ident("S"))), None);
}

fn hook_arbiter(lock_hold: bool) -> ArbiterDecl {
    ArbiterDecl {
        name: ident("Arb"),
        params: vec![ParamDecl { name: ident("P"), kind: ParamKind::Const, default: Some(dec(3)) }],
        ports: vec![],
        port_arrays: vec![],
        hook: Some(ArbiterHook {
            params: vec![
                FunctionArg { name: ident("m"), ty: uint(4) },
                FunctionArg { name: ident("l"), ty: uint(4) },
                FunctionArg { name: ident("p"), ty: uint(8) },
                FunctionArg { name: ident("e"), ty: TypeExpr::Bool },
            ],
            fn_args: vec![ident("req_mask"), ident("last_grant"), ident("P"), ident("en")],
        }),
        lock_hold,
        is_interface: false,
    }
}

fn pick_fn() -> FunctionDecl {
    FunctionDecl {
        name: ident("pick"),
        args: vec![
            FunctionArg { name: ident("x"), ty: uint(4) },
            FunctionArg { name: ident("y"), ty: uint(64) },
        ],
        ret_ty: uint(4),
        body: vec![FunctionBodyItem::Return(id("x"))],
    }
}

#[test]
fn custom_arbiter_grant_logic() {
    let symbols = SymbolTable { globals: vec![] };
    let source = SourceFile { items: vec![Item::Function(pick_fn())] };
    let g = SimCodegen::new(&symbols, &source, HashMap::new());
    let fp = NameMap::new();
    let call = "(uint64_t)pick((req_valid & 0xFULL), _last_grant_onehot, 3ULL, (en & 0x1ULL)) & 0xFULL;\n";
    let tail = "  grant_valid = (_grant_onehot != 0);\n  req_ready = _grant_onehot;\n  for (int _ci = 0; _ci < (int)4; _ci++) {\n    if ((_grant_onehot >> _ci) & 1) grant_requester = _ci;\n  }\n";
    let mut cpp = String::new();
    g.emit_arbiter_custom_comb(&mut cpp, &hook_arbiter(false), &ident("pick"), 4, "req", &fp);
    assert_eq!(cpp, format!("  _grant_onehot = {call}{tail}"));
    let mut cpp = String::new();
    g.emit_arbiter_custom_comb(&mut cpp, &hook_arbiter(true), &ident("pick"), 4, "req", &fp);
    assert_eq!(
        cpp,
        format!(
            "  if (_hold_valid && ((req_valid >> _hold_owner) & 1) && !((req_release >> _hold_owner) & 1)) {{\n    _grant_onehot = 1ULL << _hold_owner;\n  }} else {{\n    _grant_onehot = {call}  }}\n{tail}"
        )
    );
}

#[test]
fn custom_arbiter_without_declared_function_uses_hook_types() {
    let symbols = SymbolTable { globals: vec![] };
    let source = SourceFile { items: vec![] };
    let g = SimCodegen::new(&symbols, &source, HashMap::new());
    let fp = NameMap::new();
    let mut cpp = String::new();
    g.emit_arbiter_custom_comb(&mut cpp, &hook_arbiter(false), &ident("pick"), 70, "r", &fp);
    assert!(cpp.starts_with(
        "  _grant_onehot = (uint64_t)pick((r_valid & 0xFULL), (_last_grant_onehot & 0xFULL), 3ULL, (en & 0x1ULL)) & ~0ULL;\n"
    ));
    assert!(cpp.contains("_ci < (int)70;"));
}

#[test]
fn instance_lookups() {
    let sub = ModuleDecl {
        name: ident("Sub"),
        params: vec![ParamDecl { name: ident("W"), kind: ParamKind::Const, default: Some(dec(8)) }],
        ports: vec![port("a", Direction::In, uint(8))],
        body: vec![ModuleBodyItem::Function(pick_fn())],
        is_interface: false,
    };
    let arb = hook_arbiter(false);
    let symbols = SymbolTable {
        globals: vec![
            (
                "Ext".to_string(),
                Symbol::Module(ModuleInfo { ports: vec![port("q", Direction::Out, TypeExpr::Bit)], params: vec![] }),
            ),
            ("Mode".to_string(), Symbol::Other),
        ],
    };
    let source = SourceFile {
        items: vec![
            Item::Package(PackageDecl {
                name: ident("Pkg"),
                params: vec![],
                functions: vec![],
                structs: vec![StructDecl {
                    name: ident("Pt"),
                    fields: vec![StructField { name: ident("x"), ty: uint(8) }, StructField { name: ident("y"), ty: uint(3) }],
                }],
            }),
            Item::Module(sub),
            Item::Arbiter(arb),
        ],
    };
    let g = SimCodegen::new(&symbols, &source, HashMap::new());
    let ps = g.lookup_inst_ports("Sub").unwrap();
    assert_eq!(ps.len(), 1);
    assert_eq!(ps[0].name.name, "a");
    assert_eq!(g.lookup_inst_params("Sub").unwrap()[0].name.name, "W");
    assert_eq!(g.lookup_inst_ports("Ext").unwrap()[0].name.name, "q");
    assert!(g.lookup_inst_params("Ext").unwrap().is_empty());
    assert!(g.lookup_inst_ports("Mode").is_none());
    assert!(g.lookup_inst_ports("Nope").is_none());
    assert!(g.lookup_inst_ports("Arb").unwrap().is_empty());
    assert_eq!(g.lookup_inst_params("Arb").unwrap()[0].name.name, "P");
    assert!(matches!(g.lookup_struct_field_ty("Pt", "y"), Some(TypeExpr::UInt(_))));
    assert!(g.lookup_struct_field_ty("Pt", "z").is_none());
    assert!(g.lookup_struct_field_ty("Qt", "x").is_none());
    assert!(g.lookup_inst_arbiter("Arb").unwrap().hook.is_some());
    assert!(g.lookup_inst_arbiter("Sub").is_none());
    assert_eq!(find_function_decl(&source, "pick").unwrap().args.len(), 2);
    assert!(find_function_decl(&source, "nope").is_none());
}

#[test]
fn destructured_struct_names() {
    let symbols = SymbolTable { globals: vec![] };
    let source = SourceFile { items: vec![] };
    let g = SimCodegen::new(&symbols, &source, HashMap::new());
    let ports = vec![port("p", Direction::In, uint(8)), port("p", Direction::In, TypeExpr::Named(ident("Pkt")))];
    let body = vec![
        reg("r", TypeExpr::Named(ident("Reg"))),
        ModuleBodyItem::WireDecl(WireDecl { name: ident("w"), ty: TypeExpr::Named(ident("Wire")) }),
        ModuleBodyItem::LetBinding(LetBinding {
            name: ident("l"),
            ty: Some(TypeExpr::Named(ident("Let"))),
            value: dec(0),
            destructure_fields: vec![],
        }),
    ];
    let lit = ex(ExprKind::StructLiteral(ident("Lit"), vec![FieldInit { name: ident("a"), value: dec(1) }]));
    assert_eq!(g.infer_rhs_struct_name(&lit, &ports, &body), Some("Lit".to_string()));
    assert_eq!(g.infer_rhs_struct_name(&id("p"), &ports, &body), Some("Pkt".to_string()));
    assert_eq!(g.infer_rhs_struct_name(&id("r"), &ports, &body), Some("Reg".to_string()));
    assert_eq!(g.infer_rhs_struct_name(&id("w"), &ports, &body), Some("Wire".to_string()));
    assert_eq!(g.infer_rhs_struct_name(&id("l"), &ports, &body), Some("Let".to_string()));
    assert_eq!(g.infer_rhs_struct_name(&id("x"), &ports, &body), None);
    assert_eq!(g.infer_rhs_struct_name(&dec(3), &ports, &body), None);
}

#[test]
fn vec_of_bus_indexing_by_loop_variable() {
    let ports = widths(&[("chans", 4)]);
    let wires = widths(&[("links", 2)]);
    let idx = |a: &str, i: &str| ex(ExprKind::Index(Box::new(id(a)), Box::new(id(i))));
    let direct = assign(id("out"), field_of(idx("chans", "i"), "valid"));
    assert!(stmt_indexes_vob_with_var(&direct, "i", &ports, &wires));
    assert!(!stmt_indexes_vob_with_var(&direct, "j", &ports, &wires));
    let other = assign(id("out"), idx("data", "i"));
    assert!(!stmt_indexes_vob_with_var(&other, "i", &ports, &wires));
    let nested = Stmt::IfElse(IfElse {
        cond: id("c"),
        then_stmts: vec![],
        else_stmts: vec![Stmt::Log(LogStmt { file: None, args: vec![bin(BinOp::Add, dec(1), idx("links", "k"))] })],
    });
    assert!(stmt_indexes_vob_with_var(&nested, "k", &ports, &wires));
    let slice_low = assign(
        id("out"),
        ex(ExprKind::BitSlice(Box::new(id("x")), Box::new(dec(3)), Box::new(idx("chans", "i")))),
    );
    assert!(stmt_indexes_vob_with_var(&slice_low, "i", &ports, &wires));
}

fn field_of(b: Expr, f: &str) -> Expr {
    ex(ExprKind::FieldAccess(Box::new(b), ident(f)))
}

fn inst_of(name: &str, module: &str) -> ModuleBodyItem {
    ModuleBodyItem::Inst(InstDecl { name: ident(name), module_name: ident(module), param_assigns: vec![], connections: vec![] })
}

fn plain_module(name: &str, body: Vec<ModuleBodyItem>) -> Item {
    Item::Module(ModuleDecl { name: ident(name), params: vec![], ports: vec![], body, is_interface: false })
}

#[test]
fn debug_modules_by_instantiation_depth() {
    let symbols = SymbolTable { globals: vec![] };
    let source = SourceFile {
        items: vec![
            plain_module("Top", vec![inst_of("a", "A"), inst_of("b", "B"), inst_of("x", "Ext")]),
            plain_module("A", vec![inst_of("c", "C")]),
            plain_module("B", vec![]),
            plain_module("C", vec![]),
            plain_module("Lone", vec![]),
        ],
    };
    let g = SimCodegen::new(&symbols, &source, HashMap::new());
    let off = g.debug_module_set();
    for n in ["Top", "A", "B", "C", "Lone"] {
        assert!(!off.contains(n));
    }
    let g = g.debug(true, 1);
    let s1 = g.debug_module_set();
    assert!(s1.contains("Top") && s1.contains("Lone"));
    assert!(!s1.contains("A") && !s1.contains("B") && !s1.contains("C"));
    let g = g.debug(true, 2);
    let s2 = g.debug_module_set();
    for n in ["Top", "Lone", "A", "B", "Ext"] {
        assert!(s2.contains(n), "{n}");
    }
    assert!(!s2.contains("C"));
    let g = g.debug(true, 3);
    assert!(g.debug_module_set().contains("C"));
    let g = g.debug(true, 0);
    assert!(!g.debug_module_set().contains("Top"));
}

#[test]
fn each_parameter_is_defined_once() {
    let symbols = SymbolTable { globals: vec![] };
    let source = SourceFile {
        items: vec![
            Item::Package(PackageDecl {
                name: ident("P"),
                params: vec![ParamDecl { name: ident("N"), kind: ParamKind::Const, default: Some(dec(4)) }],
                functions: vec![add1_function("add1")],
                structs: vec![],
            }),
            Item::Module(ModuleDecl {
                name: ident("M"),
                params: vec![ParamDecl { name: ident("N"), kind: ParamKind::Const, default: Some(dec(5)) }],
                ports: vec![],
                body: vec![ModuleBodyItem::Function(add1_function("add1"))],
                is_interface: false,
            }),
        ],
    };
    let models = SimCodegen::new(&symbols, &source, HashMap::new()).generate();
    assert_eq!(models.len(), 1);
    let h = &models[0].header;
    assert_eq!(h.matches("#define N ").count(), 1);
    assert!(h.contains("#define N 4ULL\n"));
    assert_eq!(h.matches("inline uint8_t add1(").count(), 1);
}

#[test]
fn vec_of_bus_index_found_inside_casts_and_literals() {
    let ports = widths(&[("chans", 4)]);
    let wires = widths(&[]);
    let idx = || ex(ExprKind::Index(Box::new(id("chans")), Box::new(id("i"))));
    let signed = assign(id("y"), ex(ExprKind::Signed(Box::new(idx()))));
    assert!(stmt_indexes_vob_with_var(&signed, "i", &ports, &wires));
    let repeat = assign(id("y"), ex(ExprKind::Repeat(Box::new(dec(2)), Box::new(idx()))));
    assert!(stmt_indexes_vob_with_var(&repeat, "i", &ports, &wires));
    let lit = assign(
        id("y"),
        ex(ExprKind::StructLiteral(ident("P"), vec![FieldInit { name: ident("a"), value: idx() }])),
    );
    assert!(stmt_indexes_vob_with_var(&lit, "i", &ports, &wires));
    let plain = assign(id("y"), ex(ExprKind::Signed(Box::new(id("chans")))));
    assert!(!stmt_indexes_vob_with_var(&plain, "i", &ports, &wires));
}

#[test]
fn log_files_inside_seq_block_loops_are_collected() {
    let log = |f: &str| Stmt::Log(LogStmt { file: Some(f.to_string()), args: vec![] });
    let body = vec![
        ModuleBodyItem::RegBlock(RegBlock {
            stmts: vec![Stmt::For(ForLoop {
                var: ident("i"),
                range: ForRange::Range(dec(0), dec(3)),
                body: vec![log("x.log")],
            })],
        }),
        ModuleBodyItem::RegBlock(RegBlock { stmts: vec![log("y.log"), log("x.log")] }),
    ];
    assert_eq!(collect_log_files(&body), vec!["x.log".to_string(), "y.log".to_string()]);
}

#[test]
fn parameter_default_that_does_not_fold_has_no_value() {
    let p = ParamDecl { name: ident("P"), kind: ParamKind::Const, default: Some(id("UNDEFINED")) };
    assert_eq!(eval_param_const_value(&p, &[]), None);
    let q = ParamDecl { name: ident("Q"), kind: ParamKind::Const, default: Some(bin(BinOp::Add, dec(3), dec(4))) };
    assert_eq!(eval_param_const_value(&q, &[]), Some(7));
    let r = ParamDecl { name: ident("R"), kind: ParamKind::Const, default: None };
    assert_eq!(eval_param_const_value(&r, &[]), None);
}

#[test]
fn source_map_ignores_segment_order() {
    let a = SourceMap::new(vec![
        (10, "b.arch".to_string(), "x\ny\n".to_string()),
        (0, "a.arch".to_string(), "l1\nl2\nl3\n".to_string()),
    ]);
    let b = SourceMap::new(vec![
        (0, "a.arch".to_string(), "l1\nl2\nl3\n".to_string()),
        (10, "b.arch".to_string(), "x\ny\n".to_string()),
    ]);
    for o in [0usize, 4, 9, 10, 12, 100] {
        assert_eq!(a.locate(o), b.locate(o));
    }
    let c = a.clone();
    assert_eq!(c.locate(12), Some(("b.arch", 2)));
    let d = SourceMap::default();
    assert_eq!(d.locate(0), None);
}

#[test]
fn verilated_cpp_defines_the_header_statics() {
    let c = SimCodegen::verilated_cpp();
    let expected = r##"#include "verilated.h"
#include <cstdio>
#include <cstdlib>
int Verilated::_s_verbosity = 1;
const char* Verilated::_s_trace_file = nullptr;
bool Verilated::_s_trace_claimed = false;

// --coverage-dat: Verilator-compatible coverage.dat writer. Each
// class's atexit dumper calls _arch_cov_dat_open() to get a FILE*
// opened for append; the first call writes the header line so
// verilator_coverage --annotate parses cleanly. Subsequent calls
// just append their point lines.
extern "C" FILE* _arch_cov_dat_open(const char* path) {
    static bool _header_written = false;
    FILE* f = fopen(path, _header_written ? "a" : "w");
    if (!f) return nullptr;
    if (!_header_written) {
        fprintf(f, "# SystemC::Coverage-3\n");
        _header_written = true;
    }
    return f;
}
"##;
    assert_eq!(c, expected);
    assert!(c.contains("int Verilated::_s_verbosity = 1;"));
    assert!(c.contains("const char* Verilated::_s_trace_file = nullptr;"));
    assert!(c.contains("bool Verilated::_s_trace_claimed = false;"));
    assert!(c.contains("extern \"C\" FILE* _arch_cov_dat_open(const char* path) {"));
    assert_eq!(SimCodegen::verilated_cpp(), c);
}

fn array_arbiter() -> ArbiterDecl {
    ArbiterDecl {
        name: ident("Arb"),
        params: vec![ParamDecl { name: ident("N"), kind: ParamKind::Const, default: Some(dec(2)) }],
        ports: vec![],
        port_arrays: vec![PortArray {
            name: ident("req"),
            count_expr: id("N"),
            signals: vec![
                port("valid", Direction::In, TypeExpr::Bool),
                port("data", Direction::In, uint(8)),
            ],
        }],
        hook: None,
        lock_hold: false,
        is_interface: false,
    }
}

#[test]
fn indexed_arbiter_ports() {
    let symbols = SymbolTable { globals: vec![] };
    let source = SourceFile { items: vec![Item::Arbiter(array_arbiter())] };
    let g = SimCodegen::new(&symbols, &source, HashMap::new());
    let plain = InstDecl { name: ident("u"), module_name: ident("Arb"), param_assigns: vec![], connections: vec![] };
    assert_eq!(g.indexed_arbiter_port(&plain, "req1_valid"), Some(("req_valid".to_string(), 1)));
    assert_eq!(g.indexed_arbiter_port(&plain, "req0_data"), Some(("req_data".to_string(), 0)));
    assert_eq!(g.indexed_arbiter_port(&plain, "req2_valid"), None);
    assert_eq!(g.indexed_arbiter_port(&plain, "req1_ready"), None);
    assert_eq!(g.indexed_arbiter_port(&plain, "gnt1_valid"), None);
    assert_eq!(g.indexed_arbiter_port(&plain, "req_valid"), None);
    assert_eq!(g.indexed_arbiter_port(&plain, "1_valid"), None);
    assert_eq!(g.indexed_arbiter_port(&plain, "reqvalid"), None);
    assert_eq!(g.indexed_arbiter_port(&plain, "req99999999999999999999_valid"), None);
    let wide = InstDecl {
        name: ident("w"),
        module_name: ident("Arb"),
        param_assigns: vec![ParamAssign { name: ident("N"), value: dec(4) }],
        connections: vec![],
    };
    assert_eq!(g.indexed_arbiter_port(&wide, "req3_valid"), Some(("req_valid".to_string(), 3)));
    assert_eq!(g.indexed_arbiter_port(&wide, "req4_valid"), None);
    let params = array_arbiter().params;
    assert_eq!(eval_const_expr_with_overrides(&bin(BinOp::Mul, id("N"), dec(3)), &params, &wide.param_assigns), 12);
    assert_eq!(eval_const_expr_with_overrides(&id("N"), &params, &[]), 2);
    let other = InstDecl { name: ident("o"), module_name: ident("Other"), param_assigns: vec![], connections: vec![] };
    assert_eq!(g.indexed_arbiter_port(&other, "req1_valid"), None);
}

#[test]
fn uninitialised_registers_do_not_change_expression_text() {
    let e = env();
    let c = ctx(&e);
    assert!(c.vinit_regs.is_none());
    let vinit = names(&["cnt"]);
    let v = c.with_vinit_regs(&vinit);
    assert!(v.vinit_regs.map_or(false, |s| s.contains("cnt")));
    let sum = bin(BinOp::Add, id("cnt"), id("a"));
    assert_eq!(cpp_expr(&sum, &v), cpp_expr(&sum, &c));
}
