//! Name and value collectors over a module's ports and body.
use vstd::prelude::*;
use vstd::string::*;
use crate::ast::{
    ConnectDir, Expr, ExprKind, ModuleBodyItem, ParamDecl, PortDecl, RegReset, ResetKind,
    ResetLevel, Symbol, SymbolTable, TypeExpr,
};
use crate::expr_codegen::FpFmt;
use crate::names::{NameMap, NameSet, lemma_union_seq_all, lemma_union_seq_take, union_seq};
use crate::text::{dec_str, fmt_dec, push_str, str_eq};
use crate::types::{float_fmt, signed_scalar, type_float_fmt, type_is_signed_scalar};

verus! {

/// `s` without its leading underscores.
pub open spec fn trim_underscores(s: Seq<char>) -> Seq<char>
    decreases s.len(),
{
    if s.len() > 0 && s[0] == '_' { trim_underscores(s.subrange(1, s.len() as int)) } else { s }
}

/// Whether `name` names a state register made by thread lowering:
/// `t<digits>_state`, after any leading underscores.
pub open spec fn thread_fsm_state_reg(name: Seq<char>) -> bool {
    let t = trim_underscores(name);
    let suffix = "_state"@;
    &&& t.len() > 0
    &&& t[0] == 't'
    &&& suffix.len() <= t.len()
    &&& t.subrange(t.len() - suffix.len(), t.len() as int) == suffix
    &&& t.len() - suffix.len() > 1
    &&& forall|k: int| 1 <= k < t.len() - suffix.len() ==> '0' <= #[trigger] t[k] <= '9'
}

proof fn lemma_trim_underscores(s: Seq<char>, a: int)
    requires
        0 <= a <= s.len(),
        forall|j: int| 0 <= j < a ==> s[j] == '_',
        a == s.len() || s[a] != '_',
    ensures
        trim_underscores(s) == s.subrange(a, s.len() as int),
    decreases a,
{
    if a == 0 {
        assert(s.subrange(0, s.len() as int) =~= s);
    } else {
        let d = s.subrange(1, s.len() as int);
        lemma_trim_underscores(d, a - 1);
        assert(d.subrange(a - 1, d.len() as int) =~= s.subrange(a, s.len() as int));
    }
}

/// Whether `name` looks like a thread-lowered FSM state register
/// (`_t0_state`, `t12_state`), without matching user registers such as
/// `prev_state` or `state_counter`.
pub fn is_thread_fsm_state_reg(name: &str) -> (r: bool)
    ensures
        r == thread_fsm_state_reg(name@),
{
    proof {
        reveal_strlit("_state");
    }
    let n = name.unicode_len();
    let mut a: usize = 0;
    while a < n && name.get_char(a) == '_'
        invariant
            n == name@.len(),
            a <= n,
            forall|j: int| 0 <= j < a ==> name@[j] == '_',
        decreases n - a,
    {
        a = a + 1;
    }
    proof {
        lemma_trim_underscores(name@, a as int);
    }
    let t = name.substring_char(a, n);
    let m = n - a;
    if m == 0 || t.get_char(0) != 't' {
        return false;
    }
    if m < 6 {
        assert(!thread_fsm_state_reg(name@)) by {
            assert(t@ == trim_underscores(name@));
            assert("_state"@.len() == 6);
        }
        return false;
    }
    let suffix = "_state";
    let mut k: usize = 0;
    while k < 6
        invariant
            m == t@.len(),
            m >= 6,
            suffix@ == "_state"@,
            suffix@.len() == 6,
            k <= 6,
            t@ == trim_underscores(name@),
            forall|j: int| 0 <= j < k ==> t@[m - 6 + j] == suffix@[j],
        decreases 6 - k,
    {
        if t.get_char(m - 6 + k) != suffix.get_char(k) {
            assert(t@.subrange(m - 6, m as int)[k as int] != suffix@[k as int]);
            assert(!thread_fsm_state_reg(name@));
            return false;
        }
        k = k + 1;
    }
    assert(t@.subrange(m - 6, m as int) =~= "_state"@);
    if m - 6 <= 1 {
        return false;
    }
    let mut j: usize = 1;
    while j < m - 6
        invariant
            m == t@.len(),
            t@ == trim_underscores(name@),
            "_state"@.len() == 6,
            t@.subrange(m - 6, m as int) == "_state"@,
            m > 7,
            1 <= j <= m - 6,
            forall|q: int| 1 <= q < j ==> '0' <= #[trigger] t@[q] <= '9',
        decreases m - 6 - j,
    {
        let c = t.get_char(j);
        if !('0' <= c && c <= '9') {
            assert(!thread_fsm_state_reg(name@)) by {
                let tt = trim_underscores(name@);
                assert(tt == t@);
                assert(tt.len() == m);
                assert("_state"@.len() == 6);
                assert(j < m - 6);
                assert(1 <= j < tt.len() - "_state"@.len());
                assert(!('0' <= tt[j as int] <= '9'));
            }
            return false;
        }
        j = j + 1;
    }
    true
}

/// Name of a register declared by a body item.
pub open spec fn item_reg_name(it: ModuleBodyItem) -> Set<Seq<char>> {
    match it {
        ModuleBodyItem::RegDecl(r) => set![r.name.name@],
        _ => Set::empty(),
    }
}

/// Name of a port declared as a register.
pub open spec fn port_reg_name(p: PortDecl) -> Set<Seq<char>> {
    if p.reg_info is Some { set![p.name.name@] } else { Set::empty() }
}

/// Names of the registers declared by the body.
pub open spec fn body_reg_names(body: Seq<ModuleBodyItem>) -> Set<Seq<char>> {
    union_seq(body.map_values(|it: ModuleBodyItem| item_reg_name(it)))
}

/// Names of the ports declared as registers.
pub open spec fn port_reg_names(ports: Seq<PortDecl>) -> Set<Seq<char>> {
    union_seq(ports.map_values(|p: PortDecl| port_reg_name(p)))
}

/// Names of the ports declared as registers.
pub fn collect_port_reg_names(ports: &[PortDecl]) -> (r: NameSet)
    ensures
        r@ == port_reg_names(ports@),
{
    let mut out = NameSet::new();
    let ghost xs = ports@.map_values(|p: PortDecl| port_reg_name(p));
    let mut i: usize = 0;
    assert(union_seq(xs.take(0)) =~= Set::<Seq<char>>::empty());
    while i < ports.len()
        invariant
            i <= ports@.len(),
            xs == ports@.map_values(|p: PortDecl| port_reg_name(p)),
            out@ == union_seq(xs.take(i as int)),
        decreases ports@.len() - i,
    {
        proof {
            lemma_union_seq_take(xs, i as int);
        }
        if ports[i].reg_info.is_some() {
            out.insert(ports[i].name.name.clone());
            assert(out@ =~= union_seq(xs.take(i as int)).union(xs[i as int]));
        } else {
            assert(out@ =~= union_seq(xs.take(i as int)).union(xs[i as int]));
        }
        i = i + 1;
    }
    proof {
        lemma_union_seq_all(xs);
    }
    out
}

/// Names of all registers: those declared in the body and the ports
/// declared as registers.
pub fn collect_reg_names(body: &[ModuleBodyItem], ports: &[PortDecl]) -> (r: NameSet)
    ensures
        r@ == body_reg_names(body@).union(port_reg_names(ports@)),
{
    let mut out = collect_port_reg_names(ports);
    let ghost base = out@;
    let ghost xs = body@.map_values(|it: ModuleBodyItem| item_reg_name(it));
    let mut i: usize = 0;
    assert(union_seq(xs.take(0)) =~= Set::<Seq<char>>::empty());
    assert(out@ =~= union_seq(xs.take(0)).union(base));
    while i < body.len()
        invariant
            i <= body@.len(),
            xs == body@.map_values(|it: ModuleBodyItem| item_reg_name(it)),
            out@ == union_seq(xs.take(i as int)).union(base),
        decreases body@.len() - i,
    {
        proof {
            lemma_union_seq_take(xs, i as int);
        }
        if let ModuleBodyItem::RegDecl(r) = &body[i] {
            out.insert(r.name.name.clone());
        }
        assert(out@ =~= union_seq(xs.take(i as int + 1)).union(base));
        i = i + 1;
    }
    proof {
        lemma_union_seq_all(xs);
    }
    assert(out@ =~= body_reg_names(body@).union(port_reg_names(ports@)));
    out
}

/// Names a body item binds as a `let` or `wire`: each field of a
/// destructuring `let`, else the bound name.
pub open spec fn item_let_names(it: ModuleBodyItem) -> Set<Seq<char>> {
    match it {
        ModuleBodyItem::LetBinding(l) => if l.destructure_fields@.len() > 0 {
            l.destructure_fields@.map_values(|f: crate::ast::Ident| f.name@).to_set()
        } else {
            set![l.name.name@]
        },
        ModuleBodyItem::WireDecl(w) => set![w.name.name@],
        _ => Set::empty(),
    }
}

pub open spec fn body_let_names(body: Seq<ModuleBodyItem>) -> Set<Seq<char>> {
    union_seq(body.map_values(|it: ModuleBodyItem| item_let_names(it)))
}

/// Names bound by `let` bindings (each destructured field separately) and
/// `wire` declarations.
pub fn collect_let_names(body: &[ModuleBodyItem]) -> (r: NameSet)
    ensures
        r@ == body_let_names(body@),
{
    let mut out = NameSet::new();
    let ghost xs = body@.map_values(|it: ModuleBodyItem| item_let_names(it));
    let mut i: usize = 0;
    assert(union_seq(xs.take(0)) =~= Set::<Seq<char>>::empty());
    while i < body.len()
        invariant
            i <= body@.len(),
            xs == body@.map_values(|it: ModuleBodyItem| item_let_names(it)),
            out@ == union_seq(xs.take(i as int)),
        decreases body@.len() - i,
    {
        proof {
            lemma_union_seq_take(xs, i as int);
        }
        match &body[i] {
            ModuleBodyItem::LetBinding(l) => {
                if l.destructure_fields.len() > 0 {
                    let ghost before = out@;
                    let ghost fs = l.destructure_fields@.map_values(
                        |f: crate::ast::Ident| f.name@,
                    );
                    let mut k: usize = 0;
                    while k < l.destructure_fields.len()
                        invariant
                            k <= l.destructure_fields@.len(),
                            fs == l.destructure_fields@.map_values(
                                |f: crate::ast::Ident| f.name@,
                            ),
                            out@ == before.union(fs.take(k as int).to_set()),
                        decreases l.destructure_fields@.len() - k,
                    {
                        out.insert(l.destructure_fields[k].name.clone());
                        assert(fs.take(k as int + 1) =~= fs.take(k as int).push(fs[k as int]));
                        proof { fs.take(k as int).lemma_push_to_set_commute(fs[k as int]); }
                        assert(out@ =~= before.union(fs.take(k as int + 1).to_set()));
                        k = k + 1;
                    }
                    assert(fs.take(k as int) =~= fs);
                } else {
                    out.insert(l.name.name.clone());
                }
            },
            ModuleBodyItem::WireDecl(w) => {
                out.insert(w.name.name.clone());
            },
            _ => {},
        }
        assert(out@ =~= union_seq(xs.take(i as int + 1)));
        i = i + 1;
    }
    proof {
        lemma_union_seq_all(xs);
    }
    out
}

/// Name of an instance declared by a body item.
pub open spec fn item_inst_name(it: ModuleBodyItem) -> Set<Seq<char>> {
    match it {
        ModuleBodyItem::Inst(inst) => set![inst.name.name@],
        _ => Set::empty(),
    }
}

pub open spec fn body_inst_names(body: Seq<ModuleBodyItem>) -> Set<Seq<char>> {
    union_seq(body.map_values(|it: ModuleBodyItem| item_inst_name(it)))
}

/// Names of the sub-instances.
pub fn collect_inst_names(body: &[ModuleBodyItem]) -> (r: NameSet)
    ensures
        r@ == body_inst_names(body@),
{
    let mut out = NameSet::new();
    let ghost xs = body@.map_values(|it: ModuleBodyItem| item_inst_name(it));
    let mut i: usize = 0;
    assert(union_seq(xs.take(0)) =~= Set::<Seq<char>>::empty());
    while i < body.len()
        invariant
            i <= body@.len(),
            xs == body@.map_values(|it: ModuleBodyItem| item_inst_name(it)),
            out@ == union_seq(xs.take(i as int)),
        decreases body@.len() - i,
    {
        proof {
            lemma_union_seq_take(xs, i as int);
        }
        if let ModuleBodyItem::Inst(inst) = &body[i] {
            out.insert(inst.name.name.clone());
        }
        assert(out@ =~= union_seq(xs.take(i as int + 1)));
        i = i + 1;
    }
    proof {
        lemma_union_seq_all(xs);
    }
    out
}

/// Signals an instance drives through output connections to a bare
/// identifier.
pub open spec fn item_inst_outputs(it: ModuleBodyItem) -> Set<Seq<char>> {
    match it {
        ModuleBodyItem::Inst(inst) => union_seq(
            inst.connections@.map_values(
                |c: crate::ast::Connection|
                    if c.direction == ConnectDir::Output {
                        match c.signal.kind {
                            ExprKind::Ident(n) => set![n@],
                            _ => Set::empty(),
                        }
                    } else {
                        Set::empty()
                    },
            ),
        ),
        _ => Set::empty(),
    }
}

pub open spec fn body_inst_outputs(body: Seq<ModuleBodyItem>) -> Set<Seq<char>> {
    union_seq(body.map_values(|it: ModuleBodyItem| item_inst_outputs(it)))
}

/// Names of the signals driven by sub-instance outputs (auto-declared
/// wires).
pub fn collect_inst_output_signals(body: &[ModuleBodyItem]) -> (r: NameSet)
    ensures
        r@ == body_inst_outputs(body@),
{
    let mut out = NameSet::new();
    let ghost xs = body@.map_values(|it: ModuleBodyItem| item_inst_outputs(it));
    let mut i: usize = 0;
    assert(union_seq(xs.take(0)) =~= Set::<Seq<char>>::empty());
    while i < body.len()
        invariant
            i <= body@.len(),
            xs == body@.map_values(|it: ModuleBodyItem| item_inst_outputs(it)),
            out@ == union_seq(xs.take(i as int)),
        decreases body@.len() - i,
    {
        proof {
            lemma_union_seq_take(xs, i as int);
        }
        if let ModuleBodyItem::Inst(inst) = &body[i] {
            let ghost before = out@;
            let ghost cs = inst.connections@.map_values(
                |c: crate::ast::Connection|
                    if c.direction == ConnectDir::Output {
                        match c.signal.kind {
                            ExprKind::Ident(n) => set![n@],
                            _ => Set::empty(),
                        }
                    } else {
                        Set::empty()
                    },
            );
            let mut k: usize = 0;
            assert(union_seq(cs.take(0)) =~= Set::<Seq<char>>::empty());
            assert(out@ =~= before.union(union_seq(cs.take(0))));
            while k < inst.connections.len()
                invariant
                    k <= inst.connections@.len(),
                    cs == inst.connections@.map_values(
                        |c: crate::ast::Connection|
                            if c.direction == ConnectDir::Output {
                                match c.signal.kind {
                                    ExprKind::Ident(n) => set![n@],
                                    _ => Set::empty(),
                                }
                            } else {
                                Set::empty()
                            },
                    ),
                    out@ == before.union(union_seq(cs.take(k as int))),
                decreases inst.connections@.len() - k,
            {
                proof {
                    lemma_union_seq_take(cs, k as int);
                }
                let conn = &inst.connections[k];
                if conn.direction == ConnectDir::Output {
                    if let ExprKind::Ident(n) = &conn.signal.kind {
                        out.insert(n.clone());
                    }
                }
                assert(out@ =~= before.union(union_seq(cs.take(k as int + 1))));
                k = k + 1;
            }
            proof {
                lemma_union_seq_all(cs);
            }
        }
        assert(out@ =~= union_seq(xs.take(i as int + 1)));
        i = i + 1;
    }
    proof {
        lemma_union_seq_all(xs);
    }
    out
}

/// Names of the stage registers of a `pipe_reg`: the last stage carries
/// the declared name, earlier stages `<name>_stg<k>` for `k` from 1.
pub open spec fn pipe_stage_names(name: Seq<char>, stages: u32) -> Set<Seq<char>> {
    Set::new(
        |n: Seq<char>|
            (stages > 0 && n == name) || exists|k: nat|
                1 <= k < stages && n == name + "_stg"@ + dec_str(k),
    )
}

pub open spec fn item_pipe_names(it: ModuleBodyItem) -> Set<Seq<char>> {
    match it {
        ModuleBodyItem::PipeRegDecl(p) => pipe_stage_names(p.name.name@, p.stages),
        _ => Set::empty(),
    }
}

pub open spec fn body_pipe_names(body: Seq<ModuleBodyItem>) -> Set<Seq<char>> {
    union_seq(body.map_values(|it: ModuleBodyItem| item_pipe_names(it)))
}

/// `<name>_stg<k>`.
fn stage_name(name: &str, k: u32) -> (r: String)
    ensures
        r@ == name@ + "_stg"@ + dec_str(k as nat),
{
    let mut s = String::from_str(name);
    push_str(&mut s, "_stg");
    let d = fmt_dec(k as u64);
    push_str(&mut s, d.as_str());
    s
}

/// Add the stage register names of one `pipe_reg` to `out`.
fn insert_pipe_stages(out: &mut NameSet, name: &str, stages: u32)
    ensures
        final(out)@ == old(out)@.union(pipe_stage_names(name@, stages)),
{
    let ghost before = out@;
    let mut i: u32 = 0;
    while i < stages
        invariant
            i <= stages,
            out@ == before.union(
                Set::new(
                    |n: Seq<char>|
                        (i == stages && stages > 0 && n == name@) || exists|k: nat|
                            1 <= k <= i && k < stages && n == name@ + "_stg"@ + dec_str(k),
                ),
            ),
        decreases stages - i,
    {
        let ghost prev = out@;
        if i == stages - 1 {
            out.insert(String::from_str(name));
        } else {
            out.insert(stage_name(name, i + 1));
        }
        assert forall|n: Seq<char>|
            out@.contains(n) == before.union(
                Set::new(
                    |n: Seq<char>|
                        (i + 1 == stages && stages > 0 && n == name@) || exists|k: nat|
                            1 <= k <= i + 1 && k < stages && n == name@ + "_stg"@ + dec_str(k),
                ),
            ).contains(n) by {
            if i + 1 < stages {
                if n == name@ + "_stg"@ + dec_str((i + 1) as nat) {
                    assert(1 <= ((i + 1) as nat) <= i + 1);
                }
            }
        }
        assert(out@ =~= before.union(
            Set::new(
                |n: Seq<char>|
                    (i + 1 == stages && stages > 0 && n == name@) || exists|k: nat|
                        1 <= k <= i + 1 && k < stages && n == name@ + "_stg"@ + dec_str(k),
            ),
        ));
        i = i + 1;
    }
    assert(out@ =~= before.union(pipe_stage_names(name@, stages)));
}

/// Names of all `pipe_reg` stage registers.
pub fn collect_pipe_reg_names(body: &[ModuleBodyItem]) -> (r: NameSet)
    ensures
        r@ == body_pipe_names(body@),
{
    let mut out = NameSet::new();
    let ghost xs = body@.map_values(|it: ModuleBodyItem| item_pipe_names(it));
    let mut i: usize = 0;
    assert(union_seq(xs.take(0)) =~= Set::<Seq<char>>::empty());
    while i < body.len()
        invariant
            i <= body@.len(),
            xs == body@.map_values(|it: ModuleBodyItem| item_pipe_names(it)),
            out@ == union_seq(xs.take(i as int)),
        decreases body@.len() - i,
    {
        proof {
            lemma_union_seq_take(xs, i as int);
        }
        if let ModuleBodyItem::PipeRegDecl(p) = &body[i] {
            insert_pipe_stages(&mut out, p.name.name.as_str(), p.stages);
        }
        assert(out@ =~= union_seq(xs.take(i as int + 1)));
        i = i + 1;
    }
    proof {
        lemma_union_seq_all(xs);
    }
    out
}

/// C++ field prefix of a Vec signal driven by an instance output:
/// registers `_`, `let`/`wire` values `_let_`, bare instance outputs none,
/// anything else `_let_`.
pub fn vec_storage_prefix(
    name: &str,
    reg_names: &NameSet,
    let_names: &NameSet,
    inst_out: &NameSet,
) -> (r: &'static str)
    ensures
        r@ == if reg_names@.contains(name@) {
            "_"@
        } else if let_names@.contains(name@) {
            "_let_"@
        } else if inst_out@.contains(name@) {
            ""@
        } else {
            "_let_"@
        },
{
    if reg_names.contains(name) {
        "_"
    } else if let_names.contains(name) {
        "_let_"
    } else if inst_out.contains(name) {
        ""
    } else {
        "_let_"
    }
}

/// Reset port, asynchrony and active-low polarity of a register's reset.
pub open spec fn reg_reset_info(reset: RegReset, ports: Seq<PortDecl>) -> Option<(Seq<char>, bool, bool)> {
    match reset {
        RegReset::NoReset => None,
        RegReset::Explicit(sig, kind, level, _) => Some(
            (sig.name@, kind == ResetKind::Async, level == ResetLevel::Low),
        ),
        RegReset::Inherit(sig, _) => {
            match first_port(ports, sig.name@, 0) {
                Some(i) => match ports[i].ty {
                    TypeExpr::Reset(kind, level) => Some(
                        (sig.name@, kind == ResetKind::Async, level == ResetLevel::Low),
                    ),
                    _ => None,
                },
                None => None,
            }
        },
    }
}

/// Position of the first port at or after `from` named `n`.
pub open spec fn first_port(ports: Seq<PortDecl>, n: Seq<char>, from: int) -> Option<int>
    decreases ports.len() - from,
{
    if from < 0 || from >= ports.len() {
        None
    } else if ports[from].name.name@ == n {
        Some(from)
    } else {
        first_port(ports, n, from + 1)
    }
}

proof fn lemma_first_port(ports: Seq<PortDecl>, n: Seq<char>, from: int)
    ensures
        first_port(ports, n, from) matches Some(i) ==> from <= i < ports.len()
            && ports[i].name.name@ == n,
    decreases ports.len() - from,
{
    if 0 <= from < ports.len() && ports[from].name.name@ != n {
        lemma_first_port(ports, n, from + 1);
    }
}

/// Position of the first port named `n`.
pub fn find_port(ports: &[PortDecl], n: &str) -> (r: Option<usize>)
    ensures
        r matches Some(i) ==> first_port(ports@, n@, 0) == Some(i as int) && i < ports@.len(),
        r is None ==> first_port(ports@, n@, 0) is None,
{
    let mut i: usize = 0;
    while i < ports.len()
        invariant
            i <= ports@.len(),
            first_port(ports@, n@, 0) == first_port(ports@, n@, i as int),
        decreases ports@.len() - i,
    {
        if str_eq(ports[i].name.name.as_str(), n) {
            return Some(i);
        }
        i = i + 1;
    }
    None
}

/// Reset signal, whether it is asynchronous, and whether it is active low.
/// An inherited reset takes kind and level from the reset port's type.
pub fn resolve_reg_reset_info(reset: &RegReset, ports: &[PortDecl]) -> (r: Option<(String, bool, bool)>)
    ensures
        match r {
            Some((s, a, l)) => reg_reset_info(*reset, ports@) == Some((s@, a, l)),
            None => reg_reset_info(*reset, ports@) is None,
        },
{
    match reset {
        RegReset::NoReset => None,
        RegReset::Explicit(sig, kind, level, _) => Some(
            (sig.name.clone(), *kind == ResetKind::Async, *level == ResetLevel::Low),
        ),
        RegReset::Inherit(sig, _) => {
            match find_port(ports, sig.name.as_str()) {
                Some(i) => {
                    proof {
                        lemma_first_port(ports@, sig.name@, 0);
                    }
                    if let TypeExpr::Reset(kind, level) = &ports[i].ty {
                        Some((sig.name.clone(), *kind == ResetKind::Async, *level == ResetLevel::Low))
                    } else {
                        None
                    }
                },
                None => None,
            }
        },
    }
}

/// The reset value of a register's reset, if it has one.
pub fn reset_value_from_reg_reset(reset: &RegReset) -> (r: Option<&Expr>)
    ensures
        match *reset {
            RegReset::NoReset => r is None,
            RegReset::Inherit(_, v) => r == Some(&v),
            RegReset::Explicit(_, _, _, v) => r == Some(&v),
        },
{
    match reset {
        RegReset::NoReset => None,
        RegReset::Inherit(_, val) => Some(val),
        RegReset::Explicit(_, _, _, val) => Some(val),
    }
}

/// Encoding of the `i`-th variant: its explicit value where one is given,
/// else its position.
pub open spec fn variant_value(info: crate::ast::EnumInfo, i: int) -> u64 {
    if i < info.values@.len() && info.values@[i] is Some {
        info.values@[i]->0
    } else {
        i as u64
    }
}

/// `(variant, encoding)` of every variant of an enum, in order.
pub open spec fn enum_entries(info: crate::ast::EnumInfo) -> Seq<(Seq<char>, u64)> {
    Seq::new(info.variants@.len(), |i: int| (info.variants@[i]@, variant_value(info, i)))
}

/// View of a list of `(name, value)` pairs.
pub open spec fn pairs_view(v: Seq<(String, u64)>) -> Seq<(Seq<char>, u64)> {
    v.map_values(|p: (String, u64)| (p.0@, p.1))
}

/// Enum entries of the global symbols, as a map from enum name; a later
/// symbol of the same name overrides an earlier one.
pub open spec fn enum_map_of(globals: Seq<(String, Symbol)>) -> Map<Seq<char>, Seq<(Seq<char>, u64)>>
    decreases globals.len(),
{
    if globals.len() == 0 {
        Map::empty()
    } else {
        let rest = enum_map_of(globals.drop_last());
        match globals.last().1 {
            Symbol::Enum(info) => rest.insert(globals.last().0@, enum_entries(info)),
            _ => rest,
        }
    }
}

fn enum_entries_exec(info: &crate::ast::EnumInfo) -> (r: Vec<(String, u64)>)
    requires
        info.variants@.len() < u64::MAX,
    ensures
        pairs_view(r@) == enum_entries(*info),
{
    let mut out: Vec<(String, u64)> = Vec::new();
    let mut i: usize = 0;
    while i < info.variants.len()
        invariant
            i <= info.variants@.len(),
            info.variants@.len() < u64::MAX,
            pairs_view(out@) == enum_entries(*info).take(i as int),
        decreases info.variants@.len() - i,
    {
        let val: u64 = if i < info.values.len() {
            match info.values[i] {
                Some(v) => v,
                None => i as u64,
            }
        } else {
            i as u64
        };
        assert(val == variant_value(*info, i as int));
        let ghost before = out@;
        let v = info.variants[i].clone();
        out.push((v, val));
        assert(pairs_view(out@) =~= pairs_view(before).push((info.variants@[i as int]@, val)));
        assert(pairs_view(out@) =~= enum_entries(*info).take(i as int + 1));
        i = i + 1;
    }
    assert(enum_entries(*info).take(i as int) =~= enum_entries(*info));
    out
}

/// Enum name → `(variant, encoding)` list for every enum symbol.
pub fn build_enum_map(symbols: &SymbolTable) -> (r: NameMap<Vec<(String, u64)>>)
    requires
        forall|i: int|
            0 <= i < symbols.globals@.len() ==> (#[trigger] symbols.globals@[i].1 matches Symbol::Enum(
                info,
            ) ==> info.variants@.len() < u64::MAX),
    ensures
        forall|k: Seq<char>|
            #![trigger r@.contains_key(k)]
            r@.contains_key(k) == enum_map_of(symbols.globals@).contains_key(k),
        forall|k: Seq<char>|
            #![trigger r@[k]]
            r@.contains_key(k) ==> pairs_view(r@[k]@) == enum_map_of(symbols.globals@)[k],
{
    let mut m: NameMap<Vec<(String, u64)>> = NameMap::new();
    let mut i: usize = 0;
    while i < symbols.globals.len()
        invariant
            i <= symbols.globals@.len(),
            forall|j: int|
                0 <= j < symbols.globals@.len() ==> (#[trigger] symbols.globals@[j].1 matches Symbol::Enum(
                    info,
                ) ==> info.variants@.len() < u64::MAX),
            forall|k: Seq<char>|
                #![trigger m@.contains_key(k)]
                m@.contains_key(k) == enum_map_of(symbols.globals@.take(i as int)).contains_key(k),
            forall|k: Seq<char>|
                #![trigger m@[k]]
                m@.contains_key(k) ==> pairs_view(m@[k]@) == enum_map_of(
                    symbols.globals@.take(i as int),
                )[k],
        decreases symbols.globals@.len() - i,
    {
        let ghost t = symbols.globals@.take(i as int + 1);
        assert(t.drop_last() =~= symbols.globals@.take(i as int));
        assert(t.last() == symbols.globals@[i as int]);
        let (name, sym) = &symbols.globals[i];
        if let Symbol::Enum(info) = sym {
            let entries = enum_entries_exec(info);
            m.insert(name.clone(), entries);
        }
        i = i + 1;
    }
    assert(symbols.globals@.take(i as int) =~= symbols.globals@);
    m
}

/// Position of the first entry at or after `from` named `n`.
pub open spec fn first_entry(es: Seq<(Seq<char>, u64)>, n: Seq<char>, from: int) -> Option<int>
    decreases es.len() - from,
{
    if from < 0 || from >= es.len() {
        None
    } else if es[from].0 == n {
        Some(from)
    } else {
        first_entry(es, n, from + 1)
    }
}

/// Encoding of `variant_name` in `enum_name`: the first entry of that name.
pub open spec fn enum_variant_value(
    enum_map: Map<Seq<char>, Seq<(Seq<char>, u64)>>,
    enum_name: Seq<char>,
    variant_name: Seq<char>,
) -> Option<u64> {
    if enum_map.contains_key(enum_name) {
        match first_entry(enum_map[enum_name], variant_name, 0) {
            Some(i) => Some(enum_map[enum_name][i].1),
            None => None,
        }
    } else {
        None
    }
}

proof fn lemma_first_entry(es: Seq<(Seq<char>, u64)>, n: Seq<char>, from: int)
    ensures
        first_entry(es, n, from) matches Some(i) ==> from <= i < es.len(),
    decreases es.len() - from,
{
    if 0 <= from < es.len() && es[from].0 != n {
        lemma_first_entry(es, n, from + 1);
    }
}

/// Encoding of the first variant named `name` in a `(variant, encoding)`
/// list.
pub fn find_variant(es: &Vec<(String, u64)>, name: &str) -> (r: Option<u64>)
    ensures
        r == match first_entry(pairs_view(es@), name@, 0) {
            Some(i) => Some(pairs_view(es@)[i].1),
            None => None,
        },
{
    let ghost pv = pairs_view(es@);
    let mut i: usize = 0;
    while i < es.len()
        invariant
            i <= es@.len(),
            pv == pairs_view(es@),
            first_entry(pv, name@, 0) == first_entry(pv, name@, i as int),
        decreases es@.len() - i,
    {
        if str_eq(es[i].0.as_str(), name) {
            return Some(es[i].1);
        }
        i = i + 1;
    }
    None
}

/// Encoding of `enum_name::variant_name`.
pub fn resolve_enum_variant(
    enum_map: &NameMap<Vec<(String, u64)>>,
    enum_name: &str,
    variant_name: &str,
) -> (r: Option<u64>)
    ensures
        match enum_map@.get(enum_name@) {
            Some(es) => r == match first_entry(pairs_view(es@), variant_name@, 0) {
                Some(i) => Some(pairs_view(es@)[i].1),
                None => None,
            },
            None => r is None,
        },
{
    match enum_map.get(enum_name) {
        Some(es) => find_variant(es, variant_name),
        None => None,
    }
}

/// Name declared with a signed scalar type by a body item.
pub open spec fn item_signed_name(it: ModuleBodyItem) -> Set<Seq<char>> {
    match it {
        ModuleBodyItem::RegDecl(r) => if signed_scalar(r.ty) { set![r.name.name@] } else { Set::empty() },
        ModuleBodyItem::WireDecl(w) => if signed_scalar(w.ty) { set![w.name.name@] } else { Set::empty() },
        ModuleBodyItem::LetBinding(l) => match l.ty {
            Some(t) => if signed_scalar(t) { set![l.name.name@] } else { Set::empty() },
            None => Set::empty(),
        },
        _ => Set::empty(),
    }
}

pub open spec fn port_signed_name(p: PortDecl) -> Set<Seq<char>> {
    if signed_scalar(p.ty) { set![p.name.name@] } else { Set::empty() }
}

/// `base` grown, item by item in order, by the stages of every `pipe_reg`
/// whose source is already in the set grown so far.
pub open spec fn pipe_fold(base: Set<Seq<char>>, body: Seq<ModuleBodyItem>) -> Set<Seq<char>>
    decreases body.len(),
{
    if body.len() == 0 {
        base
    } else {
        let prev = pipe_fold(base, body.drop_last());
        match body.last() {
            ModuleBodyItem::PipeRegDecl(p) => if prev.contains(p.source.name@) {
                prev.union(pipe_stage_names(p.name.name@, p.stages))
            } else {
                prev
            },
            _ => prev,
        }
    }
}

/// Scalars declared signed, grown by the stages of every `pipe_reg` fed
/// from a signed name.
pub open spec fn signed_names_spec(ports: Seq<PortDecl>, body: Seq<ModuleBodyItem>) -> Set<Seq<char>> {
    let base = union_seq(ports.map_values(|p: PortDecl| port_signed_name(p))).union(
        union_seq(body.map_values(|it: ModuleBodyItem| item_signed_name(it))),
    );
    pipe_fold(base, body)
}

/// Names of scalars whose HDL type is signed, including `pipe_reg` stages
/// fed from a signed source.
pub fn build_signed_names(ports: &[PortDecl], body: &[ModuleBodyItem]) -> (r: NameSet)
    ensures
        r@ == signed_names_spec(ports@, body@),
{
    let mut s = NameSet::new();
    let ghost ps = ports@.map_values(|p: PortDecl| port_signed_name(p));
    let mut i: usize = 0;
    assert(union_seq(ps.take(0)) =~= Set::<Seq<char>>::empty());
    while i < ports.len()
        invariant
            i <= ports@.len(),
            ps == ports@.map_values(|p: PortDecl| port_signed_name(p)),
            s@ == union_seq(ps.take(i as int)),
        decreases ports@.len() - i,
    {
        proof {
            lemma_union_seq_take(ps, i as int);
        }
        if type_is_signed_scalar(&ports[i].ty) {
            s.insert(ports[i].name.name.clone());
        }
        assert(s@ =~= union_seq(ps.take(i as int + 1)));
        i = i + 1;
    }
    proof {
        lemma_union_seq_all(ps);
    }
    let ghost from_ports = s@;
    let ghost bs = body@.map_values(|it: ModuleBodyItem| item_signed_name(it));
    let mut j: usize = 0;
    assert(union_seq(bs.take(0)) =~= Set::<Seq<char>>::empty());
    assert(s@ =~= from_ports.union(union_seq(bs.take(0))));
    while j < body.len()
        invariant
            j <= body@.len(),
            bs == body@.map_values(|it: ModuleBodyItem| item_signed_name(it)),
            s@ == from_ports.union(union_seq(bs.take(j as int))),
        decreases body@.len() - j,
    {
        proof {
            lemma_union_seq_take(bs, j as int);
        }
        match &body[j] {
            ModuleBodyItem::RegDecl(r) => {
                if type_is_signed_scalar(&r.ty) {
                    s.insert(r.name.name.clone());
                }
            },
            ModuleBodyItem::WireDecl(w) => {
                if type_is_signed_scalar(&w.ty) {
                    s.insert(w.name.name.clone());
                }
            },
            ModuleBodyItem::LetBinding(l) => {
                match &l.ty {
                    Some(t) => {
                        if type_is_signed_scalar(t) {
                            s.insert(l.name.name.clone());
                        }
                    },
                    None => {},
                }
            },
            _ => {},
        }
        assert(s@ =~= from_ports.union(union_seq(bs.take(j as int + 1))));
        j = j + 1;
    }
    proof {
        lemma_union_seq_all(bs);
    }
    let ghost base = s@;
    assert(base == union_seq(ps).union(union_seq(bs)));
    let mut k: usize = 0;
    assert(body@.take(0) =~= Seq::<ModuleBodyItem>::empty());
    while k < body.len()
        invariant
            k <= body@.len(),
            s@ == pipe_fold(base, body@.take(k as int)),
        decreases body@.len() - k,
    {
        assert(body@.take(k as int + 1).drop_last() =~= body@.take(k as int));
        assert(body@.take(k as int + 1).last() == body@[k as int]);
        if let ModuleBodyItem::PipeRegDecl(p) = &body[k] {
            if s.contains(p.source.name.as_str()) {
                insert_pipe_stages(&mut s, p.name.name.as_str(), p.stages);
            }
        }
        k = k + 1;
    }
    assert(body@.take(k as int) =~= body@);
    s
}

/// Bindings of module-scope `let` names (not destructuring ones) to their
/// right-hand sides, in body order.
pub open spec fn let_fold(m: Map<Seq<char>, Expr>, body: Seq<ModuleBodyItem>) -> Map<Seq<char>, Expr>
    decreases body.len(),
{
    if body.len() == 0 {
        m
    } else {
        let prev = let_fold(m, body.drop_last());
        match body.last() {
            ModuleBodyItem::LetBinding(l) => if l.destructure_fields@.len() == 0 {
                prev.insert(l.name.name@, l.value)
            } else {
                prev
            },
            _ => prev,
        }
    }
}

/// Bindings of parameters whose default is a literal to that default.
pub open spec fn param_lit_fold(m: Map<Seq<char>, Expr>, params: Seq<ParamDecl>) -> Map<Seq<char>, Expr>
    decreases params.len(),
{
    if params.len() == 0 {
        m
    } else {
        let prev = param_lit_fold(m, params.drop_last());
        match params.last().default {
            Some(d) => if d.kind is Literal {
                prev.insert(params.last().name.name@, d)
            } else {
                prev
            },
            None => prev,
        }
    }
}

/// Module-scope `let` values, then literal-valued parameters (which
/// override a `let` of the same name).
pub open spec fn let_values_spec(body: Seq<ModuleBodyItem>, params: Seq<ParamDecl>) -> Map<Seq<char>, Expr> {
    param_lit_fold(let_fold(Map::empty(), body), params)
}

/// Name → right-hand side of module-scope `let` bindings and of parameters
/// with a literal default, so match arms naming them fold to literal case
/// labels.
pub fn collect_let_values<'a>(body: &'a [ModuleBodyItem], params: &'a [ParamDecl]) -> (r: NameMap<&'a Expr>)
    ensures
        forall|k: Seq<char>|
            #![trigger r@.contains_key(k)]
            r@.contains_key(k) == let_values_spec(body@, params@).contains_key(k),
        forall|k: Seq<char>|
            #![trigger r@[k]]
            r@.contains_key(k) ==> *r@[k] == let_values_spec(body@, params@)[k],
{
    let mut out: NameMap<&'a Expr> = NameMap::new();
    let mut i: usize = 0;
    assert(body@.take(0) =~= Seq::<ModuleBodyItem>::empty());
    while i < body.len()
        invariant
            i <= body@.len(),
            forall|k: Seq<char>|
                #![trigger out@.contains_key(k)]
                out@.contains_key(k) == let_fold(Map::empty(), body@.take(i as int)).contains_key(k),
            forall|k: Seq<char>|
                #![trigger out@[k]]
                out@.contains_key(k) ==> *out@[k] == let_fold(Map::empty(), body@.take(i as int))[k],
        decreases body@.len() - i,
    {
        assert(body@.take(i as int + 1).drop_last() =~= body@.take(i as int));
        assert(body@.take(i as int + 1).last() == body@[i as int]);
        if let ModuleBodyItem::LetBinding(l) = &body[i] {
            if l.destructure_fields.len() == 0 {
                out.insert(l.name.name.clone(), &l.value);
            }
        }
        i = i + 1;
    }
    assert(body@.take(i as int) =~= body@);
    let ghost base = let_fold(Map::empty(), body@);
    let mut j: usize = 0;
    assert(params@.take(0) =~= Seq::<ParamDecl>::empty());
    while j < params.len()
        invariant
            j <= params@.len(),
            forall|k: Seq<char>|
                #![trigger out@.contains_key(k)]
                out@.contains_key(k) == param_lit_fold(base, params@.take(j as int)).contains_key(k),
            forall|k: Seq<char>|
                #![trigger out@[k]]
                out@.contains_key(k) ==> *out@[k] == param_lit_fold(base, params@.take(j as int))[k],
        decreases params@.len() - j,
    {
        assert(params@.take(j as int + 1).drop_last() =~= params@.take(j as int));
        assert(params@.take(j as int + 1).last() == params@[j as int]);
        if let Some(expr) = &params[j].default {
            if let ExprKind::Literal(_) = &expr.kind {
                out.insert(params[j].name.name.clone(), expr);
            }
        }
        j = j + 1;
    }
    assert(params@.take(j as int) =~= params@);
    out
}

/// Float formats of float-typed ports, then body registers, wires and
/// typed `let` bindings (a later declaration overrides an earlier one).
pub open spec fn float_port_fold(m: Map<Seq<char>, FpFmt>, ports: Seq<PortDecl>) -> Map<Seq<char>, FpFmt>
    decreases ports.len(),
{
    if ports.len() == 0 {
        m
    } else {
        let prev = float_port_fold(m, ports.drop_last());
        match float_fmt(ports.last().ty) {
            Some(f) => prev.insert(ports.last().name.name@, f),
            None => prev,
        }
    }
}

pub open spec fn item_float(it: ModuleBodyItem) -> Option<(Seq<char>, FpFmt)> {
    match it {
        ModuleBodyItem::RegDecl(r) => match float_fmt(r.ty) {
            Some(f) => Some((r.name.name@, f)),
            None => None,
        },
        ModuleBodyItem::WireDecl(w) => match float_fmt(w.ty) {
            Some(f) => Some((w.name.name@, f)),
            None => None,
        },
        ModuleBodyItem::LetBinding(l) => match l.ty {
            Some(t) => match float_fmt(t) {
                Some(f) => Some((l.name.name@, f)),
                None => None,
            },
            None => None,
        },
        _ => None,
    }
}

pub open spec fn float_body_fold(m: Map<Seq<char>, FpFmt>, body: Seq<ModuleBodyItem>) -> Map<Seq<char>, FpFmt>
    decreases body.len(),
{
    if body.len() == 0 {
        m
    } else {
        let prev = float_body_fold(m, body.drop_last());
        match item_float(body.last()) {
            Some((n, f)) => prev.insert(n, f),
            None => prev,
        }
    }
}

/// Name → float format of every scalar declared with a float type.
pub fn build_float_names(ports: &[PortDecl], body: &[ModuleBodyItem]) -> (r: NameMap<FpFmt>)
    ensures
        r@ == float_body_fold(float_port_fold(Map::empty(), ports@), body@),
{
    let mut m: NameMap<FpFmt> = NameMap::new();
    let mut i: usize = 0;
    assert(ports@.take(0) =~= Seq::<PortDecl>::empty());
    while i < ports.len()
        invariant
            i <= ports@.len(),
            m@ == float_port_fold(Map::empty(), ports@.take(i as int)),
        decreases ports@.len() - i,
    {
        assert(ports@.take(i as int + 1).drop_last() =~= ports@.take(i as int));
        assert(ports@.take(i as int + 1).last() == ports@[i as int]);
        if let Some(f) = type_float_fmt(&ports[i].ty) {
            m.insert(ports[i].name.name.clone(), f);
        }
        i = i + 1;
    }
    assert(ports@.take(i as int) =~= ports@);
    let ghost base = m@;
    let mut j: usize = 0;
    assert(body@.take(0) =~= Seq::<ModuleBodyItem>::empty());
    while j < body.len()
        invariant
            j <= body@.len(),
            m@ == float_body_fold(base, body@.take(j as int)),
        decreases body@.len() - j,
    {
        assert(body@.take(j as int + 1).drop_last() =~= body@.take(j as int));
        assert(body@.take(j as int + 1).last() == body@[j as int]);
        match &body[j] {
            ModuleBodyItem::RegDecl(r) => {
                if let Some(f) = type_float_fmt(&r.ty) {
                    m.insert(r.name.name.clone(), f);
                }
            },
            ModuleBodyItem::WireDecl(w) => {
                if let Some(f) = type_float_fmt(&w.ty) {
                    m.insert(w.name.name.clone(), f);
                }
            },
            ModuleBodyItem::LetBinding(l) => {
                match &l.ty {
                    Some(t) => {
                        if let Some(f) = type_float_fmt(t) {
                            m.insert(l.name.name.clone(), f);
                        }
                    },
                    None => {},
                }
            },
            _ => {},
        }
        j = j + 1;
    }
    assert(body@.take(j as int) =~= body@);
    m
}

/// `{indent}{name}_{i} = _{name}[{i}];` for each element index below
/// `count`.
pub open spec fn vec_copy_lines(indent: Seq<char>, name: Seq<char>, count: nat) -> Seq<char>
    decreases count,
{
    if count == 0 {
        seq![]
    } else {
        let i = (count - 1) as nat;
        vec_copy_lines(indent, name, i) + indent + name + "_"@ + dec_str(i) + " = _"@ + name + "["@
            + dec_str(i) + "];\n"@
    }
}

/// Text `emit_port_reg_public_copy` appends: per-element copies of a Vec
/// port register, a word-array conversion for a 65..=128-bit port, else a
/// plain copy of the shadow register to the public port field.
pub open spec fn port_reg_copy_text(
    indent: Seq<char>,
    name: Seq<char>,
    widths: Map<Seq<char>, u32>,
    vec_count: Option<u64>,
) -> Seq<char> {
    match vec_count {
        Some(count) => vec_copy_lines(indent, name, count as nat),
        None => {
            let bits: u32 = if widths.contains_key(name) { widths[name] } else { 0 };
            if 64 < bits && bits <= 128 {
                indent + "_arch_u128_to_vl(_"@ + name + ", "@ + name + "._data, "@ + dec_str(
                    crate::cpp_fmt::wide_words_spec(bits) as nat,
                ) + ");\n"@
            } else {
                indent + name + " = _"@ + name + ";\n"@
            }
        },
    }
}

/// Copy a port register's internal shadow value to its public field.
pub fn emit_port_reg_public_copy(
    cpp: &mut String,
    name: &str,
    widths: &NameMap<u32>,
    vec_count: Option<u64>,
    indent: &str,
)
    ensures
        final(cpp)@ == old(cpp)@ + port_reg_copy_text(indent@, name@, widths@, vec_count),
{
    match vec_count {
        Some(count) => {
            let ghost c0 = cpp@;
            let mut i: u64 = 0;
            while i < count
                invariant
                    i <= count,
                    cpp@ == c0 + vec_copy_lines(indent@, name@, i as nat),
                decreases count - i,
            {
                let d = fmt_dec(i);
                push_str(cpp, indent);
                push_str(cpp, name);
                push_str(cpp, "_");
                push_str(cpp, d.as_str());
                push_str(cpp, " = _");
                push_str(cpp, name);
                push_str(cpp, "[");
                push_str(cpp, d.as_str());
                push_str(cpp, "];\n");
                assert(vec_copy_lines(indent@, name@, (i + 1) as nat) == vec_copy_lines(
                    indent@,
                    name@,
                    i as nat,
                ) + indent@ + name@ + "_"@ + dec_str(i as nat) + " = _"@ + name@ + "["@ + dec_str(
                    i as nat,
                ) + "];\n"@);
                i = i + 1;
            }
        },
        None => {
            let bits: u32 = match widths.get(name) {
                Some(b) => *b,
                None => 0,
            };
            if bits > 64 && bits <= 128 {
                let w = fmt_dec(crate::cpp_fmt::wide_words(bits) as u64);
                push_str(cpp, indent);
                push_str(cpp, "_arch_u128_to_vl(_");
                push_str(cpp, name);
                push_str(cpp, ", ");
                push_str(cpp, name);
                push_str(cpp, "._data, ");
                push_str(cpp, w.as_str());
                push_str(cpp, ");\n");
            } else {
                push_str(cpp, indent);
                push_str(cpp, name);
                push_str(cpp, " = _");
                push_str(cpp, name);
                push_str(cpp, ";\n");
            }
        },
    }
}

} // verus!
