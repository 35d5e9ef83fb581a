//! Models of clock gates: a latch-based or AND-based gate of the first
//! input clock by `enable` (or `enable | test_en` where a `test_en` port
//! exists).
use vstd::prelude::*;
use crate::ast::{ClkGateDecl, ClkGateKind, Direction, PortDecl, TypeExpr};
use crate::cpp_text::own;
use crate::pybind::{has_port, has_port_exec};
use crate::sim::{SimCodegen, SimModel};
use crate::text::push_str;

verus! {

/// The clock gates of a file that get a model, in file order: every gate
/// but the interface stubs.
pub open spec fn sim_clkgates(items: Seq<crate::ast::Item>) -> Seq<ClkGateDecl>
    decreases items.len(),
{
    if items.len() == 0 {
        Seq::empty()
    } else {
        let rest = sim_clkgates(items.drop_last());
        match items.last() {
            crate::ast::Item::Clkgate(c) => if c.is_interface {
                rest
            } else {
                rest.push(c)
            },
            _ => rest,
        }
    }
}

/// The name of the first clock port of direction `d`, if any.
pub open spec fn first_clock(ports: Seq<PortDecl>, d: Direction) -> Option<Seq<char>>
    decreases ports.len(),
{
    if ports.len() == 0 {
        None
    } else {
        match first_clock(ports.drop_last(), d) {
            Some(n) => Some(n),
            None => if ports.last().ty is Clock && ports.last().direction == d {
                Some(ports.last().name.name@)
            } else {
                None
            },
        }
    }
}

/// The first clock port of direction `d`, or `dflt`.
pub open spec fn clock_or(ports: Seq<PortDecl>, d: Direction, dflt: Seq<char>) -> Seq<char> {
    match first_clock(ports, d) {
        Some(n) => n,
        None => dflt,
    }
}

/// A `uint8_t` member, zero-initialised, per port.
pub open spec fn gate_members(ports: Seq<PortDecl>) -> Seq<char>
    decreases ports.len(),
{
    if ports.len() == 0 {
        Seq::empty()
    } else {
        gate_members(ports.drop_last()) + "  uint8_t "@ + ports.last().name.name@ + " = 0;\n"@
    }
}

/// The header of a clock-gate model.
pub open spec fn clkgate_header(c: ClkGateDecl) -> Seq<char> {
    "#pragma once\n#include <cstdint>\nclass "@ + "V"@ + c.name.name@ + " {\npublic:\n"@
        + gate_members(c.ports@) + (if c.kind == ClkGateKind::Latch {
        "  uint8_t _en_latched = 0;\n"@
    } else {
        Seq::empty()
    }) + "  void eval();\n  void eval_comb();\n  void eval_posedge();\n};\n"@
}

/// The enable term: `enable`, or `enable | test_en` with a test-enable port.
pub open spec fn gate_enable(ports: Seq<PortDecl>) -> Seq<char> {
    if has_port(ports, "test_en"@) {
        "enable | test_en"@
    } else {
        "enable"@
    }
}

/// The body of `eval_comb` of a clock-gate model.
pub open spec fn gate_logic(c: ClkGateDecl) -> Seq<char> {
    let cin = clock_or(c.ports@, Direction::In, "clk_in"@);
    let cout = clock_or(c.ports@, Direction::Out, "clk_out"@);
    let en = gate_enable(c.ports@);
    match c.kind {
        ClkGateKind::Latch => "  if (!"@ + cin + ") _en_latched = ("@ + en + ") ? 1 : 0;\n"@ + "  "@
            + cout + " = "@ + cin + " & _en_latched;\n"@,
        ClkGateKind::And => "  "@ + cout + " = "@ + cin + " & (("@ + en + ") ? 1 : 0);\n"@,
    }
}

/// The implementation of a clock-gate model: the gating in `eval_comb`, an empty
/// `eval_posedge`, and `eval` calling `eval_comb`.
pub open spec fn clkgate_impl(c: ClkGateDecl) -> Seq<char> {
    let class = "V"@ + c.name.name@;
    "#include \""@ + class + ".h\"\n"@ + "void "@ + class + "::eval_comb() {\n"@ + gate_logic(c) + "}\n"@
        + "void "@ + class + "::eval_posedge() {}\n"@ + "void "@ + class
        + "::eval() { eval_comb(); }\n"@
}

fn first_clock_exec(ports: &Vec<PortDecl>, d: Direction, dflt: &str) -> (r: String)
    ensures
        r@ == clock_or(ports@, d, dflt@),
{
    let mut i: usize = 0;
    while i < ports.len()
        invariant
            i <= ports@.len(),
            first_clock(ports@.take(i as int), d) is None,
        decreases ports@.len() - i,
    {
        proof {
            assert(ports@.take(i + 1).drop_last() =~= ports@.take(i as int));
        }
        let is_clock = match &ports[i].ty {
            TypeExpr::Clock(_) => true,
            _ => false,
        };
        if is_clock && ports[i].direction == d {
            proof {
                lemma_first_clock_prefix(ports@, d, i as int + 1);
            }
            return ports[i].name.name.clone();
        }
        i = i + 1;
    }
    proof {
        assert(ports@.take(ports@.len() as int) =~= ports@);
    }
    own(dflt)
}

/// A clock found in a prefix is the first clock of the whole list.
proof fn lemma_first_clock_prefix(ports: Seq<PortDecl>, d: Direction, n: int)
    requires
        0 <= n <= ports.len(),
        first_clock(ports.take(n), d) is Some,
    ensures
        first_clock(ports, d) == first_clock(ports.take(n), d),
    decreases ports.len() - n,
{
    if n < ports.len() {
        assert(ports.take(n + 1).drop_last() =~= ports.take(n));
        lemma_first_clock_prefix(ports, d, n + 1);
    } else {
        assert(ports.take(n) =~= ports);
    }
}

impl<'a> SimCodegen<'a> {
    /// The model of a clock gate.
    pub fn gen_clkgate(&self, c: &ClkGateDecl) -> (r: SimModel)
        ensures
            r.class_name@ == "V"@ + c.name.name@,
            r.header@ == clkgate_header(*c),
            r.impl_@ == clkgate_impl(*c),
    {
        let mut class = own("V");
        push_str(&mut class, c.name.name.as_str());
        let clk_in = first_clock_exec(&c.ports, Direction::In, "clk_in");
        let clk_out = first_clock_exec(&c.ports, Direction::Out, "clk_out");
        let en = if has_port_exec(&c.ports, "test_en") {
            own("enable | test_en")
        } else {
            own("enable")
        };
        let mut h = own("#pragma once\n#include <cstdint>\nclass ");
        push_str(&mut h, class.as_str());
        push_str(&mut h, " {\npublic:\n");
        let ghost pre = h@;
        let mut i: usize = 0;
        while i < c.ports.len()
            invariant
                i <= c.ports@.len(),
                h@ == pre + gate_members(c.ports@.take(i as int)),
            decreases c.ports@.len() - i,
        {
            proof {
                assert(c.ports@.take(i + 1).drop_last() =~= c.ports@.take(i as int));
            }
            push_str(&mut h, "  uint8_t ");
            push_str(&mut h, c.ports[i].name.name.as_str());
            push_str(&mut h, " = 0;\n");
            i = i + 1;
        }
        proof {
            assert(c.ports@.take(c.ports@.len() as int) =~= c.ports@);
        }
        if c.kind == ClkGateKind::Latch {
            push_str(&mut h, "  uint8_t _en_latched = 0;\n");
        }
        push_str(&mut h, "  void eval();\n  void eval_comb();\n  void eval_posedge();\n};\n");
        let mut cpp = own("#include \"");
        push_str(&mut cpp, class.as_str());
        push_str(&mut cpp, ".h\"\n");
        push_str(&mut cpp, "void ");
        push_str(&mut cpp, class.as_str());
        push_str(&mut cpp, "::eval_comb() {\n");
        match c.kind {
            ClkGateKind::Latch => {
                push_str(&mut cpp, "  if (!");
                push_str(&mut cpp, clk_in.as_str());
                push_str(&mut cpp, ") _en_latched = (");
                push_str(&mut cpp, en.as_str());
                push_str(&mut cpp, ") ? 1 : 0;\n");
                push_str(&mut cpp, "  ");
                push_str(&mut cpp, clk_out.as_str());
                push_str(&mut cpp, " = ");
                push_str(&mut cpp, clk_in.as_str());
                push_str(&mut cpp, " & _en_latched;\n");
            },
            ClkGateKind::And => {
                push_str(&mut cpp, "  ");
                push_str(&mut cpp, clk_out.as_str());
                push_str(&mut cpp, " = ");
                push_str(&mut cpp, clk_in.as_str());
                push_str(&mut cpp, " & ((");
                push_str(&mut cpp, en.as_str());
                push_str(&mut cpp, ") ? 1 : 0);\n");
            },
        }
        push_str(&mut cpp, "}\n");
        push_str(&mut cpp, "void ");
        push_str(&mut cpp, class.as_str());
        push_str(&mut cpp, "::eval_posedge() {}\n");
        push_str(&mut cpp, "void ");
        push_str(&mut cpp, class.as_str());
        push_str(&mut cpp, "::eval() { eval_comb(); }\n");
        proof {
            assert(h@ =~= clkgate_header(*c));
            assert(cpp@ =~= clkgate_impl(*c));
        }
        SimModel { class_name: class, header: h, impl_: cpp }
    }
}

} // verus!
