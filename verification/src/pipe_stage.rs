//! Statements of pipeline stages: clocked and combinational assignments,
//! `if`/`else` and `for` ranges, and the state machine of stages that
//! `wait until` a condition.
use vstd::prelude::*;
use crate::ast::{Expr, ExprKind, ForRange, LitKind, ModuleBodyItem, RegReset, StageDecl, Stmt};
use crate::cpp_fmt::{mask_of, mask_u64};
use crate::cpp_text::own;
use crate::pipeline::{PipeScope, PipeView, pipe_ok, pipe_text};
use crate::sim::SimCodegen;
use crate::text::{dec_str, fmt_dec, fmt_hex_upper, hex_upper, push_str};

verus! {

/// `n` spaces.
pub open spec fn spaces(n: nat) -> Seq<char>
    decreases n,
{
    if n == 0 {
        Seq::empty()
    } else {
        spaces((n - 1) as nat) + " "@
    }
}

/// Where a clocked assignment writes: a port by its name, a stage signal
/// by its prefixed register field.
pub open spec fn reg_target(t: Expr, v: PipeView) -> Seq<char> {
    match t.kind {
        ExprKind::Ident(n) => if v.ports.contains(n@) {
            n@
        } else {
            "_"@ + v.prefix + "_"@ + n@
        },
        _ => pipe_text(t, v),
    }
}

/// Where a combinational assignment writes: a port by its name, a stage
/// signal by its prefixed name.
pub open spec fn comb_target(t: Expr, v: PipeView) -> Seq<char> {
    match t.kind {
        ExprKind::Ident(n) => if v.ports.contains(n@) {
            n@
        } else {
            v.prefix + "_"@ + n@
        },
        _ => pipe_text(t, v),
    }
}

/// The mask a clocked assignment applies: the target's recorded width
/// when it is between 1 and 63 bits.
pub open spec fn assign_mask(t: Expr, v: PipeView) -> Seq<char> {
    let key = match t.kind {
        ExprKind::Ident(n) => v.prefix + "_"@ + n@,
        _ => Seq::empty(),
    };
    if v.widths.contains_key(key) && 0 < v.widths[key] < 64 {
        " & 0x"@ + hex_upper(mask_of(v.widths[key] as nat) as nat) + "ULL"@
    } else {
        Seq::empty()
    }
}

/// The C++ of a clocked statement of stage logic, indented by `ind`.
pub open spec fn pipe_stmt(st: Stmt, v: PipeView, ind: nat) -> Seq<char>
    decreases st, 0int,
{
    match st {
        Stmt::Assign(a) => spaces(ind) + reg_target(a.target, v) + " = ("@ + pipe_text(a.value, v)
            + ")"@ + assign_mask(a.target, v) + ";\n"@,
        Stmt::IfElse(ie) => spaces(ind) + "if ("@ + pipe_text(ie.cond, v) + ") {\n"@ + pipe_stmts(
            ie.then_stmts@,
            v,
            ind + 2,
        ) + (if ie.else_stmts@.len() > 0 {
            spaces(ind) + "} else {\n"@ + pipe_stmts(ie.else_stmts@, v, ind + 2)
        } else {
            Seq::empty()
        }) + spaces(ind) + "}\n"@,
        Stmt::For(f) => match f.range {
            ForRange::Range(lo, hi) => spaces(ind) + "for (int "@ + f.var.name@ + " = "@ + pipe_text(
                lo,
                v,
            ) + "; "@ + f.var.name@ + " <= "@ + pipe_text(hi, v) + "; "@ + f.var.name@ + "++) {\n"@
                + pipe_stmts(f.body@, v, ind + 2) + spaces(ind) + "}\n"@,
            _ => Seq::empty(),
        },
        _ => Seq::empty(),
    }
}

/// Clocked statements one after another.
pub open spec fn pipe_stmts(sts: Seq<Stmt>, v: PipeView, ind: nat) -> Seq<char>
    decreases sts, 0int,
{
    if sts.len() == 0 {
        Seq::empty()
    } else {
        pipe_stmts(sts.drop_last(), v, ind) + pipe_stmt(sts.last(), v, ind)
    }
}

/// The C++ of a combinational statement of stage logic.
pub open spec fn pipe_comb_stmt(st: Stmt, v: PipeView, ind: nat) -> Seq<char>
    decreases st, 0int,
{
    match st {
        Stmt::Assign(a) => spaces(ind) + comb_target(a.target, v) + " = "@ + pipe_text(a.value, v)
            + ";\n"@,
        Stmt::IfElse(ie) => spaces(ind) + "if ("@ + pipe_text(ie.cond, v) + ") {\n"@
            + pipe_comb_stmts(ie.then_stmts@, v, ind + 2) + (if ie.else_stmts@.len() > 0 {
            spaces(ind) + "} else {\n"@ + pipe_comb_stmts(ie.else_stmts@, v, ind + 2)
        } else {
            Seq::empty()
        }) + spaces(ind) + "}\n"@,
        _ => Seq::empty(),
    }
}

/// Combinational statements one after another.
pub open spec fn pipe_comb_stmts(sts: Seq<Stmt>, v: PipeView, ind: nat) -> Seq<char>
    decreases sts, 0int,
{
    if sts.len() == 0 {
        Seq::empty()
    } else {
        pipe_comb_stmts(sts.drop_last(), v, ind) + pipe_comb_stmt(sts.last(), v, ind)
    }
}

/// The nesting depth of a statement (0 for a leaf).
pub open spec fn stmt_depth(st: Stmt) -> nat
    decreases st, 0int,
{
    match st {
        Stmt::IfElse(ie) => 1 + vstd::math::max(
            stmts_depth(ie.then_stmts@) as int,
            stmts_depth(ie.else_stmts@) as int,
        ) as nat,
        Stmt::For(f) => 1 + stmts_depth(f.body@),
        _ => 0,
    }
}

pub open spec fn stmts_depth(sts: Seq<Stmt>) -> nat
    decreases sts, 0int,
{
    if sts.len() == 0 {
        0
    } else {
        vstd::math::max(stmts_depth(sts.drop_last()) as int, stmt_depth(sts.last()) as int) as nat
    }
}

/// The expressions a clocked statement lowers are accepted.
pub open spec fn pipe_stmt_ok(st: Stmt, v: PipeView) -> bool
    decreases st, 0int,
{
    match st {
        Stmt::Assign(a) => (!(a.target.kind is Ident) ==> pipe_ok(a.target, v)) && pipe_ok(a.value, v),
        Stmt::IfElse(ie) => pipe_ok(ie.cond, v) && pipe_stmts_ok(ie.then_stmts@, v) && pipe_stmts_ok(
            ie.else_stmts@,
            v,
        ),
        Stmt::For(f) => match f.range {
            ForRange::Range(lo, hi) => pipe_ok(lo, v) && pipe_ok(hi, v) && pipe_stmts_ok(f.body@, v),
            _ => true,
        },
        _ => true,
    }
}

pub open spec fn pipe_stmts_ok(sts: Seq<Stmt>, v: PipeView) -> bool
    decreases sts, 0int,
{
    if sts.len() == 0 {
        true
    } else {
        pipe_stmts_ok(sts.drop_last(), v) && pipe_stmt_ok(sts.last(), v)
    }
}

/// The expressions a combinational statement lowers are accepted.
pub open spec fn pipe_comb_ok(st: Stmt, v: PipeView) -> bool
    decreases st, 0int,
{
    match st {
        Stmt::Assign(a) => (!(a.target.kind is Ident) ==> pipe_ok(a.target, v)) && pipe_ok(a.value, v),
        Stmt::IfElse(ie) => pipe_ok(ie.cond, v) && pipe_combs_ok(ie.then_stmts@, v) && pipe_combs_ok(
            ie.else_stmts@,
            v,
        ),
        _ => true,
    }
}

pub open spec fn pipe_combs_ok(sts: Seq<Stmt>, v: PipeView) -> bool
    decreases sts, 0int,
{
    if sts.len() == 0 {
        true
    } else {
        pipe_combs_ok(sts.drop_last(), v) && pipe_comb_ok(sts.last(), v)
    }
}

/// A statement waits (`wait until` or `do ... until`), itself or inside
/// an `if` or a `for`.
pub open spec fn stmt_waits(st: Stmt) -> bool
    decreases st, 0int,
{
    match st {
        Stmt::WaitUntil(_, _) => true,
        Stmt::DoUntil { .. } => true,
        Stmt::IfElse(ie) => stmts_wait(ie.then_stmts@) || stmts_wait(ie.else_stmts@),
        Stmt::For(f) => stmts_wait(f.body@),
        _ => false,
    }
}

pub open spec fn stmts_wait(sts: Seq<Stmt>) -> bool
    decreases sts, 0int,
{
    if sts.len() == 0 {
        false
    } else {
        stmts_wait(sts.drop_last()) || stmt_waits(sts.last())
    }
}

/// A stage waits when one of its clocked blocks does.
pub open spec fn stage_waits(body: Seq<ModuleBodyItem>) -> bool {
    exists|i: int| 0 <= i < body.len() && #[trigger] item_waits(body[i])
}

pub open spec fn item_waits(it: ModuleBodyItem) -> bool {
    match it {
        ModuleBodyItem::RegBlock(rb) => stmts_wait(rb.stmts@),
        _ => false,
    }
}

/// The reset value text of a pipeline register.
pub open spec fn reset_value_text(r: RegReset) -> Seq<char> {
    match r {
        RegReset::Explicit(_, _, _, val) => reset_literal(val),
        RegReset::Inherit(_, val) => reset_literal(val),
        _ => "0"@,
    }
}

pub open spec fn reset_literal(val: Expr) -> Seq<char> {
    match val.kind {
        ExprKind::Literal(LitKind::Dec(x)) => dec_str(x as nat),
        ExprKind::Literal(LitKind::Hex(x)) => "0x"@ + hex_upper(x as nat),
        ExprKind::Bool(b) => if b {
            "1"@
        } else {
            "0"@
        },
        _ => "0"@,
    }
}


/// The statements of a stage's first clocked block (none without one).
pub open spec fn first_reg_block(body: Seq<ModuleBodyItem>) -> Option<Seq<Stmt>>
    decreases body.len(),
{
    if body.len() == 0 {
        None
    } else {
        match first_reg_block(body.drop_last()) {
            Some(sts) => Some(sts),
            None => match body.last() {
                ModuleBodyItem::RegBlock(rb) => Some(rb.stmts@),
                _ => None,
            },
        }
    }
}

pub open spec fn stage_seq(body: Seq<ModuleBodyItem>) -> Seq<Stmt> {
    match first_reg_block(body) {
        Some(sts) => sts,
        None => Seq::empty(),
    }
}

/// A `wait until` or a `do ... until`.
pub open spec fn is_wait(st: Stmt) -> bool {
    st is WaitUntil || st is DoUntil
}

/// The condition a waiting statement waits for.
pub open spec fn wait_cond(st: Stmt) -> Expr {
    match st {
        Stmt::WaitUntil(c, _) => c,
        Stmt::DoUntil { body, cond } => cond,
        _ => arbitrary(),
    }
}

/// The statements a waiting statement repeats while it waits.
pub open spec fn wait_hold(st: Stmt) -> Seq<Stmt> {
    match st {
        Stmt::DoUntil { body, cond } => body@,
        _ => Seq::empty(),
    }
}

/// The positions of the waiting statements, in order.
pub open spec fn wait_positions(sts: Seq<Stmt>) -> Seq<int>
    decreases sts.len(),
{
    if sts.len() == 0 {
        Seq::empty()
    } else {
        wait_positions(sts.drop_last()) + if is_wait(sts.last()) {
            seq![sts.len() - 1]
        } else {
            Seq::<int>::empty()
        }
    }
}

/// The valid flag of the stage before this one, `1` for the first stage.
pub open spec fn upstream_valid(v: PipeView) -> Seq<char> {
    if v.stage > 0 {
        "_"@ + v.stage_prefixes[v.stage - 1] + "_valid_r"@
    } else {
        "1"@
    }
}

pub open spec fn case_open(pad2: Seq<char>, g: int) -> Seq<char> {
    pad2 + "case "@ + dec_str((g + 1) as nat) + ": {\n"@
}

pub open spec fn case_test(pad2: Seq<char>, cond: Seq<char>) -> Seq<char> {
    pad2 + "  if ("@ + cond + ") {\n"@
}

pub open spec fn case_last(pad2: Seq<char>, p: Seq<char>) -> Seq<char> {
    pad2 + "    _"@ + p + "_fsm_state = 0;\n"@ + pad2 + "    _"@ + p + "_valid_r = 1;\n"@
}

pub open spec fn case_next(pad2: Seq<char>, p: Seq<char>, g: int) -> Seq<char> {
    pad2 + "    _"@ + p + "_fsm_state = "@ + dec_str((g + 2) as nat) + ";\n"@
}

pub open spec fn case_close(pad2: Seq<char>) -> Seq<char> {
    pad2 + "  }\n"@ + pad2 + "  break;\n"@ + pad2 + "}\n"@
}

/// The statements after the last wait.
pub open spec fn trailing(sts: Seq<Stmt>, wp: Seq<int>) -> Seq<Stmt> {
    sts.subrange(wp.last() + 1, sts.len() as int)
}

/// State `g + 1`: repeat the hold statements of wait `g`; when its
/// condition holds, run the statements up to the next wait and move on,
/// or after the last wait run the trailing statements, return to idle and
/// raise the stage's valid flag.
#[verifier::opaque]
pub open spec fn wait_case(sts: Seq<Stmt>, wp: Seq<int>, v: PipeView, ind: nat, g: int) -> Seq<char> {
    let pad2 = spaces(ind + 2);
    let w = sts[wp[g]];
    case_open(pad2, g) + pipe_stmts(wait_hold(w), v, ind + 4) + case_test(
        pad2,
        pipe_text(wait_cond(w), v),
    ) + case_branch(sts, wp, v, ind, g) + case_close(pad2)
}

/// What state `g + 1` does once its condition holds.
pub open spec fn case_branch(sts: Seq<Stmt>, wp: Seq<int>, v: PipeView, ind: nat, g: int) -> Seq<char> {
    let pad2 = spaces(ind + 2);
    if g + 1 >= wp.len() {
        pipe_stmts(trailing(sts, wp), v, ind + 4) + case_last(pad2, v.prefix)
    } else {
        pipe_stmts(sts.subrange(wp[g] + 1, wp[g + 1]), v, ind + 4) + case_next(pad2, v.prefix, g)
    }
}

/// The first `k` wait states.
pub open spec fn wait_cases(sts: Seq<Stmt>, wp: Seq<int>, v: PipeView, ind: nat, k: int) -> Seq<char>
    decreases k,
{
    if k <= 0 {
        Seq::empty()
    } else {
        wait_cases(sts, wp, v, ind, k - 1) + wait_case(sts, wp, v, ind, k - 1)
    }
}

pub open spec fn idle_open(pad2: Seq<char>, up: Seq<char>) -> Seq<char> {
    pad2 + "case 0: {\n"@ + pad2 + "  if ("@ + up + ") {\n"@
}

pub open spec fn idle_test(pad2: Seq<char>, cond: Seq<char>) -> Seq<char> {
    pad2 + "    if ("@ + cond + ") {\n"@
}

pub open spec fn idle_done(pad2: Seq<char>, p: Seq<char>, up: Seq<char>) -> Seq<char> {
    pad2 + "      _"@ + p + "_valid_r = "@ + up + ";\n"@
}

pub open spec fn idle_next(pad2: Seq<char>, p: Seq<char>) -> Seq<char> {
    pad2 + "      _"@ + p + "_fsm_state = 2;\n"@
}

pub open spec fn idle_else(pad2: Seq<char>, p: Seq<char>) -> Seq<char> {
    pad2 + "    } else {\n"@ + pad2 + "      _"@ + p + "_fsm_state = 1;\n"@
}

pub open spec fn idle_close(pad2: Seq<char>) -> Seq<char> {
    pad2 + "    }\n"@ + pad2 + "  }\n"@ + pad2 + "  break;\n"@ + pad2 + "}\n"@
}

/// The idle state: with the upstream stage valid, run the statements
/// before the first wait; when its condition already holds, go straight on
/// (finishing the stage when it is the only wait), else enter state 1 and
/// run its hold statements once.
#[verifier::opaque]
pub open spec fn wait_idle(sts: Seq<Stmt>, wp: Seq<int>, v: PipeView, ind: nat) -> Seq<char> {
    let pad2 = spaces(ind + 2);
    let up = upstream_valid(v);
    let w = sts[wp[0]];
    idle_open(pad2, up) + pipe_stmts(sts.subrange(0, wp[0]), v, ind + 4) + idle_test(
        pad2,
        pipe_text(wait_cond(w), v),
    ) + idle_branch(sts, wp, v, ind) + idle_else(pad2, v.prefix) + pipe_stmts(wait_hold(w), v, ind + 6)
        + idle_close(pad2)
}

/// What the idle state does when the first condition already holds:
/// finish the stage (its only wait) or go on to state 2.
pub open spec fn idle_branch(sts: Seq<Stmt>, wp: Seq<int>, v: PipeView, ind: nat) -> Seq<char> {
    let pad2 = spaces(ind + 2);
    if wp.len() == 1 {
        pipe_stmts(trailing(sts, wp), v, ind + 6) + idle_done(pad2, v.prefix, upstream_valid(v))
    } else {
        idle_next(pad2, v.prefix)
    }
}

/// The state machine of a waiting stage (nothing for a stage that does
/// not wait).
pub open spec fn wait_stage_text(stage: StageDecl, v: PipeView, ind: nat) -> Seq<char> {
    let sts = stage_seq(stage.body@);
    let wp = wait_positions(sts);
    if wp.len() == 0 {
        Seq::empty()
    } else {
        spaces(ind) + "switch (_"@ + v.prefix + "_fsm_state) {\n"@ + wait_idle(sts, wp, v, ind)
            + wait_cases(sts, wp, v, ind, wp.len() as int) + spaces(ind + 2) + "default: _"@ + v.prefix
            + "_fsm_state = 0; break;\n"@ + spaces(ind) + "}\n"@
    }
}

/// A statement of a waiting stage lowers, nested no deeper than the
/// indentation allows.
pub open spec fn wait_stmt_ok(st: Stmt, v: PipeView, ind: nat) -> bool {
    if is_wait(st) {
        pipe_ok(wait_cond(st), v) && pipe_stmts_ok(wait_hold(st), v) && ind + 6 + 2 * stmts_depth(
            wait_hold(st),
        ) <= usize::MAX
    } else {
        pipe_stmt_ok(st, v) && ind + 6 + 2 * stmt_depth(st) <= usize::MAX
    }
}

/// Every statement of a waiting stage's block is accepted.
#[verifier::opaque]
pub open spec fn wait_stmts_ok(sts: Seq<Stmt>, v: PipeView, ind: nat) -> bool {
    forall|i: int| 0 <= i < sts.len() ==> wait_stmt_ok(#[trigger] sts[i], v, ind)
}

/// `n` spaces.
pub fn spaces_exec(n: usize) -> (r: String)
    ensures
        r@ == spaces(n as nat),
{
    let mut s = String::new();
    let mut i: usize = 0;
    proof {
        assert(s@ =~= spaces(0));
    }
    while i < n
        invariant
            i <= n,
            s@ == spaces(i as nat),
        decreases n - i,
    {
        push_str(&mut s, " ");
        i = i + 1;
    }
    s
}

fn reset_literal_exec(val: &Expr) -> (r: String)
    ensures
        r@ == reset_literal(*val),
{
    match &val.kind {
        ExprKind::Literal(LitKind::Dec(x)) => fmt_dec(*x),
        ExprKind::Literal(LitKind::Hex(x)) => {
            let mut s = own("0x");
            push_str(&mut s, fmt_hex_upper(*x).as_str());
            s
        },
        ExprKind::Bool(b) => if *b {
            own("1")
        } else {
            own("0")
        },
        _ => own("0"),
    }
}

fn stmts_wait_exec(sts: &Vec<Stmt>) -> (r: bool)
    ensures
        r == stmts_wait(sts@),
    decreases sts, 1int,
{
    let mut i: usize = 0;
    while i < sts.len()
        invariant
            i <= sts@.len(),
            !stmts_wait(sts@.take(i as int)),
        decreases sts@.len() - i,
    {
        proof {
            assert(sts@.take(i + 1).drop_last() =~= sts@.take(i as int));
            assert(decreases_to!(sts => sts@[i as int]));
        }
        if stmt_waits_exec(&sts[i]) {
            proof {
                lemma_stmts_wait_prefix(sts@, i + 1);
            }
            return true;
        }
        i = i + 1;
    }
    proof {
        assert(sts@.take(sts@.len() as int) =~= sts@);
    }
    false
}

/// A waiting prefix makes the whole sequence wait.
proof fn lemma_stmts_wait_prefix(sts: Seq<Stmt>, k: int)
    requires
        0 <= k <= sts.len(),
        stmts_wait(sts.take(k)),
    ensures
        stmts_wait(sts),
    decreases sts.len() - k,
{
    if k < sts.len() {
        assert(sts.take(k + 1).drop_last() =~= sts.take(k));
        lemma_stmts_wait_prefix(sts, k + 1);
    } else {
        assert(sts.take(k) =~= sts);
    }
}

fn stmt_waits_exec(st: &Stmt) -> (r: bool)
    ensures
        r == stmt_waits(*st),
    decreases st, 0int,
{
    match st {
        Stmt::WaitUntil(_, _) => true,
        Stmt::DoUntil { .. } => true,
        Stmt::IfElse(ie) => stmts_wait_exec(&ie.then_stmts) || stmts_wait_exec(&ie.else_stmts),
        Stmt::For(f) => stmts_wait_exec(&f.body),
        _ => false,
    }
}

impl<'a> SimCodegen<'a> {
    /// Whether clocked stage logic waits anywhere, inside `if`s and `for`s
    /// too.
    pub fn pipeline_stmts_contain_wait(stmts: &Vec<Stmt>) -> (r: bool)
        ensures
            r == stmts_wait(stmts@),
    {
        stmts_wait_exec(stmts)
    }

    /// Whether a stage waits: one of its clocked blocks does.
    pub fn pipeline_stage_has_wait(stage: &StageDecl) -> (r: bool)
        ensures
            r == stage_waits(stage.body@),
    {
        let mut i: usize = 0;
        while i < stage.body.len()
            invariant
                i <= stage.body@.len(),
                forall|k: int| 0 <= k < i ==> !item_waits(#[trigger] stage.body@[k]),
            decreases stage.body@.len() - i,
        {
            if let ModuleBodyItem::RegBlock(rb) = &stage.body[i] {
                if Self::pipeline_stmts_contain_wait(&rb.stmts) {
                    proof {
                        assert(item_waits(stage.body@[i as int]));
                    }
                    return true;
                }
            }
            i = i + 1;
        }
        false
    }

    /// The reset value of a pipeline register: its literal reset value,
    /// `0` for anything else.
    pub fn pipeline_reset_value(reset: &RegReset) -> (r: Option<String>)
        ensures
            r matches Some(t) && t@ == reset_value_text(*reset),
    {
        match reset {
            RegReset::Explicit(_, _, _, val) => Some(reset_literal_exec(val)),
            RegReset::Inherit(_, val) => Some(reset_literal_exec(val)),
            _ => Some(own("0")),
        }
    }
}

/// Each statement of an accepted sequence is accepted and no deeper than
/// the sequence.
proof fn lemma_stmts_elem(sts: Seq<Stmt>, v: PipeView, i: int)
    requires
        0 <= i < sts.len(),
    ensures
        pipe_stmts_ok(sts, v) ==> pipe_stmt_ok(sts[i], v),
        pipe_combs_ok(sts, v) ==> pipe_comb_ok(sts[i], v),
        stmt_depth(sts[i]) <= stmts_depth(sts),
    decreases sts.len(),
{
    if i < sts.len() - 1 {
        lemma_stmts_elem(sts.drop_last(), v, i);
    }
}

fn reg_target_exec(g: &SimCodegen, t: &Expr, s: &PipeScope) -> (r: String)
    requires
        !(t.kind is Ident) ==> pipe_ok(*t, s@),
    ensures
        r@ == reg_target(*t, s@),
{
    match &t.kind {
        ExprKind::Ident(n) => if s.ports.contains(n.as_str()) {
            own(n.as_str())
        } else {
            let mut o = own("_");
            push_str(&mut o, s.prefix);
            push_str(&mut o, "_");
            push_str(&mut o, n.as_str());
            o
        },
        _ => g.pipeline_sim_expr(t, s),
    }
}

fn comb_target_exec(g: &SimCodegen, t: &Expr, s: &PipeScope) -> (r: String)
    requires
        !(t.kind is Ident) ==> pipe_ok(*t, s@),
    ensures
        r@ == comb_target(*t, s@),
{
    match &t.kind {
        ExprKind::Ident(n) => if s.ports.contains(n.as_str()) {
            own(n.as_str())
        } else {
            let mut o = own(s.prefix);
            push_str(&mut o, "_");
            push_str(&mut o, n.as_str());
            o
        },
        _ => g.pipeline_sim_expr(t, s),
    }
}

fn assign_mask_exec(t: &Expr, s: &PipeScope) -> (r: String)
    ensures
        r@ == assign_mask(*t, s@),
{
    let key = match &t.kind {
        ExprKind::Ident(n) => {
            let mut k = own(s.prefix);
            push_str(&mut k, "_");
            push_str(&mut k, n.as_str());
            k
        },
        _ => String::new(),
    };
    proof {
        assert(key@ == match t.kind {
            ExprKind::Ident(n) => s@.prefix + "_"@ + n@,
            _ => Seq::<char>::empty(),
        });
    }
    match s.widths.get(key.as_str()) {
        Some(b) => {
            if *b > 0 && *b < 64 {
                let mut o = own(" & 0x");
                push_str(&mut o, fmt_hex_upper(mask_u64(*b)).as_str());
                push_str(&mut o, "ULL");
                o
            } else {
                String::new()
            }
        },
        None => String::new(),
    }
}

impl<'a> SimCodegen<'a> {
    /// Appends the C++ of a clocked statement of stage logic, indented by
    /// `indent`: assignments write the stage's register fields, masked to
    /// the target's width; `if`/`else` and `for` ranges nest by two spaces.
    pub fn emit_pipeline_sim_stmt(&self, cpp: &mut String, stmt: &Stmt, s: &PipeScope, indent: usize)
        requires
            pipe_stmt_ok(*stmt, s@),
            indent + 2 * stmt_depth(*stmt) <= usize::MAX,
        ensures
            final(cpp)@ == old(cpp)@ + pipe_stmt(*stmt, s@, indent as nat),
        decreases stmt, 0int,
    {
        match stmt {
            Stmt::Assign(a) => self.emit_pipe_assign(cpp, a, s, indent),
            Stmt::IfElse(ie) => self.emit_pipe_if(cpp, ie, s, indent),
            Stmt::For(f) => self.emit_pipe_for(cpp, f, s, indent),
            _ => {},
        }
    }

    fn emit_pipe_assign(&self, cpp: &mut String, a: &crate::ast::Assign, s: &PipeScope, indent: usize)
        requires
            !(a.target.kind is Ident) ==> pipe_ok(a.target, s@),
            pipe_ok(a.value, s@),
        ensures
            final(cpp)@ == old(cpp)@ + (spaces(indent as nat) + reg_target(a.target, s@) + " = ("@
                + pipe_text(a.value, s@) + ")"@ + assign_mask(a.target, s@) + ";\n"@),
    {
        let pad = spaces_exec(indent);
        let tgt = reg_target_exec(self, &a.target, s);
        let val = self.pipeline_sim_expr(&a.value, s);
        let mask = assign_mask_exec(&a.target, s);
        push_str(cpp, pad.as_str());
        push_str(cpp, tgt.as_str());
        push_str(cpp, " = (");
        push_str(cpp, val.as_str());
        push_str(cpp, ")");
        push_str(cpp, mask.as_str());
        push_str(cpp, ";\n");
    }

    fn emit_pipe_if(&self, cpp: &mut String, ie: &crate::ast::IfElse, s: &PipeScope, indent: usize)
        requires
            pipe_ok(ie.cond, s@),
            pipe_stmts_ok(ie.then_stmts@, s@),
            pipe_stmts_ok(ie.else_stmts@, s@),
            indent + 2 + 2 * stmts_depth(ie.then_stmts@) <= usize::MAX,
            indent + 2 + 2 * stmts_depth(ie.else_stmts@) <= usize::MAX,
        ensures
            final(cpp)@ == old(cpp)@ + (spaces(indent as nat) + "if ("@ + pipe_text(ie.cond, s@)
                + ") {\n"@ + pipe_stmts(ie.then_stmts@, s@, (indent + 2) as nat) + (if ie.else_stmts@.len() > 0 {
                spaces(indent as nat) + "} else {\n"@ + pipe_stmts(ie.else_stmts@, s@, (indent + 2) as nat)
            } else {
                Seq::empty()
            }) + spaces(indent as nat) + "}\n"@),
        decreases ie, 0int,
    {
        let pad = spaces_exec(indent);
        let cond = self.pipeline_sim_expr(&ie.cond, s);
        push_str(cpp, pad.as_str());
        push_str(cpp, "if (");
        push_str(cpp, cond.as_str());
        push_str(cpp, ") {\n");
        self.emit_pipeline_sim_stmts(cpp, &ie.then_stmts, s, indent + 2);
        if ie.else_stmts.len() > 0 {
            push_str(cpp, pad.as_str());
            push_str(cpp, "} else {\n");
            self.emit_pipeline_sim_stmts(cpp, &ie.else_stmts, s, indent + 2);
        }
        push_str(cpp, pad.as_str());
        push_str(cpp, "}\n");
    }

    fn emit_pipe_for(&self, cpp: &mut String, f: &crate::ast::ForLoop, s: &PipeScope, indent: usize)
        requires
            f.range matches ForRange::Range(lo, hi) ==> pipe_ok(lo, s@) && pipe_ok(hi, s@)
                && pipe_stmts_ok(f.body@, s@),
            indent + 2 + 2 * stmts_depth(f.body@) <= usize::MAX,
        ensures
            final(cpp)@ == old(cpp)@ + match f.range {
                ForRange::Range(lo, hi) => spaces(indent as nat) + "for (int "@ + f.var.name@ + " = "@
                    + pipe_text(lo, s@) + "; "@ + f.var.name@ + " <= "@ + pipe_text(hi, s@) + "; "@
                    + f.var.name@ + "++) {\n"@ + pipe_stmts(f.body@, s@, (indent + 2) as nat) + spaces(
                    indent as nat,
                ) + "}\n"@,
                _ => Seq::empty(),
            },
        decreases f, 0int,
    {
        if let ForRange::Range(lo_expr, hi_expr) = &f.range {
            let pad = spaces_exec(indent);
            let lo = self.pipeline_sim_expr(lo_expr, s);
            let hi = self.pipeline_sim_expr(hi_expr, s);
            let v = f.var.name.as_str();
            push_str(cpp, pad.as_str());
            push_str(cpp, "for (int ");
            push_str(cpp, v);
            push_str(cpp, " = ");
            push_str(cpp, lo.as_str());
            push_str(cpp, "; ");
            push_str(cpp, v);
            push_str(cpp, " <= ");
            push_str(cpp, hi.as_str());
            push_str(cpp, "; ");
            push_str(cpp, v);
            push_str(cpp, "++) {\n");
            self.emit_pipeline_sim_stmts(cpp, &f.body, s, indent + 2);
            push_str(cpp, pad.as_str());
            push_str(cpp, "}\n");
        }
    }

    /// Appends clocked statements one after another.
    pub fn emit_pipeline_sim_stmts(&self, cpp: &mut String, sts: &Vec<Stmt>, s: &PipeScope, indent: usize)
        requires
            pipe_stmts_ok(sts@, s@),
            indent + 2 * stmts_depth(sts@) <= usize::MAX,
        ensures
            final(cpp)@ == old(cpp)@ + pipe_stmts(sts@, s@, indent as nat),
        decreases sts, 1int,
    {
        let ghost start = cpp@;
        let mut i: usize = 0;
        proof {
            assert(sts@.take(0) =~= Seq::<Stmt>::empty());
            assert(cpp@ =~= start + pipe_stmts(sts@.take(0), s@, indent as nat));
        }
        while i < sts.len()
            invariant
                i <= sts@.len(),
                pipe_stmts_ok(sts@, s@),
                indent + 2 * stmts_depth(sts@) <= usize::MAX,
                cpp@ == start + pipe_stmts(sts@.take(i as int), s@, indent as nat),
            decreases sts@.len() - i,
        {
            proof {
                lemma_stmts_elem(sts@, s@, i as int);
                assert(sts@.take(i + 1).drop_last() =~= sts@.take(i as int));
                assert(decreases_to!(sts => sts@[i as int]));
            }
            self.emit_pipeline_sim_stmt(cpp, &sts[i], s, indent);
            proof {
                assert(sts@.take(i + 1).last() == sts@[i as int]);
            }
            i = i + 1;
        }
        proof {
            assert(sts@.take(sts@.len() as int) =~= sts@);
        }
    }

    /// Appends the C++ of a combinational statement of stage logic:
    /// assignments write the stage's prefixed signals, `if`/`else` nests
    /// by two spaces, anything else emits nothing.
    pub fn emit_pipeline_sim_comb_stmt(
        &self,
        cpp: &mut String,
        stmt: &Stmt,
        s: &PipeScope,
        indent: usize,
    )
        requires
            pipe_comb_ok(*stmt, s@),
            indent + 2 * stmt_depth(*stmt) <= usize::MAX,
        ensures
            final(cpp)@ == old(cpp)@ + pipe_comb_stmt(*stmt, s@, indent as nat),
        decreases stmt, 0int,
    {
        let pad = spaces_exec(indent);
        match stmt {
            Stmt::Assign(a) => {
                let tgt = comb_target_exec(self, &a.target, s);
                let val = self.pipeline_sim_expr(&a.value, s);
                push_str(cpp, pad.as_str());
                push_str(cpp, tgt.as_str());
                push_str(cpp, " = ");
                push_str(cpp, val.as_str());
                push_str(cpp, ";\n");
            },
            Stmt::IfElse(ie) => {
                let cond = self.pipeline_sim_expr(&ie.cond, s);
                push_str(cpp, pad.as_str());
                push_str(cpp, "if (");
                push_str(cpp, cond.as_str());
                push_str(cpp, ") {\n");
                self.emit_pipeline_sim_comb_stmts(cpp, &ie.then_stmts, s, indent + 2);
                if ie.else_stmts.len() > 0 {
                    push_str(cpp, pad.as_str());
                    push_str(cpp, "} else {\n");
                    self.emit_pipeline_sim_comb_stmts(cpp, &ie.else_stmts, s, indent + 2);
                }
                push_str(cpp, pad.as_str());
                push_str(cpp, "}\n");
            },
            _ => {},
        }
    }

    /// Appends combinational statements one after another.
    pub fn emit_pipeline_sim_comb_stmts(
        &self,
        cpp: &mut String,
        sts: &Vec<Stmt>,
        s: &PipeScope,
        indent: usize,
    )
        requires
            pipe_combs_ok(sts@, s@),
            indent + 2 * stmts_depth(sts@) <= usize::MAX,
        ensures
            final(cpp)@ == old(cpp)@ + pipe_comb_stmts(sts@, s@, indent as nat),
        decreases sts, 1int,
    {
        let ghost start = cpp@;
        let mut i: usize = 0;
        proof {
            assert(sts@.take(0) =~= Seq::<Stmt>::empty());
            assert(cpp@ =~= start + pipe_comb_stmts(sts@.take(0), s@, indent as nat));
        }
        while i < sts.len()
            invariant
                i <= sts@.len(),
                pipe_combs_ok(sts@, s@),
                indent + 2 * stmts_depth(sts@) <= usize::MAX,
                cpp@ == start + pipe_comb_stmts(sts@.take(i as int), s@, indent as nat),
            decreases sts@.len() - i,
        {
            proof {
                lemma_stmts_elem(sts@, s@, i as int);
                assert(sts@.take(i + 1).drop_last() =~= sts@.take(i as int));
                assert(decreases_to!(sts => sts@[i as int]));
            }
            self.emit_pipeline_sim_comb_stmt(cpp, &sts[i], s, indent);
            proof {
                assert(sts@.take(i + 1).last() == sts@[i as int]);
            }
            i = i + 1;
        }
        proof {
            assert(sts@.take(sts@.len() as int) =~= sts@);
        }
    }
}

/// Positions as integers.
pub open spec fn idx_view(v: Seq<usize>) -> Seq<int> {
    v.map_values(|i: usize| i as int)
}

/// The waiting statements lie in order inside the sequence.
proof fn lemma_wait_positions(sts: Seq<Stmt>)
    ensures
        forall|g: int|
            0 <= g < wait_positions(sts).len() ==> 0 <= #[trigger] wait_positions(sts)[g] < sts.len()
                && is_wait(sts[wait_positions(sts)[g]]),
        forall|g: int, h: int|
            0 <= g < h < wait_positions(sts).len() ==> #[trigger] wait_positions(sts)[g]
                < #[trigger] wait_positions(sts)[h],
    decreases sts.len(),
{
    if sts.len() > 0 {
        lemma_wait_positions(sts.drop_last());
        let wp = wait_positions(sts);
        let wq = wait_positions(sts.drop_last());
        assert forall|g: int| 0 <= g < wq.len() implies wp[g] == wq[g] by {}
    }
}

/// A statement accepted in a waiting stage lowers as a clocked statement.
proof fn lemma_wait_stmt_ok(st: Stmt, v: PipeView, ind: nat)
    requires
        wait_stmt_ok(st, v, ind),
    ensures
        pipe_stmt_ok(st, v),
        ind + 6 + 2 * stmt_depth(st) <= usize::MAX,
{
}

fn first_reg_block_exec(body: &Vec<ModuleBodyItem>) -> (r: Option<&Vec<Stmt>>)
    ensures
        match r {
            Some(sts) => first_reg_block(body@) == Some(sts@),
            None => first_reg_block(body@) is None,
        },
{
    let mut i: usize = 0;
    while i < body.len()
        invariant
            i <= body@.len(),
            first_reg_block(body@.take(i as int)) is None,
        decreases body@.len() - i,
    {
        proof {
            assert(body@.take(i + 1).drop_last() =~= body@.take(i as int));
        }
        if let ModuleBodyItem::RegBlock(rb) = &body[i] {
            proof {
                lemma_first_reg_block_prefix(body@, i + 1);
            }
            return Some(&rb.stmts);
        }
        i = i + 1;
    }
    proof {
        assert(body@.take(body@.len() as int) =~= body@);
    }
    None
}

proof fn lemma_first_reg_block_prefix(body: Seq<ModuleBodyItem>, k: int)
    requires
        0 <= k <= body.len(),
        first_reg_block(body.take(k)) is Some,
    ensures
        first_reg_block(body) == first_reg_block(body.take(k)),
    decreases body.len() - k,
{
    if k < body.len() {
        assert(body.take(k + 1).drop_last() =~= body.take(k));
        lemma_first_reg_block_prefix(body, k + 1);
    } else {
        assert(body.take(k) =~= body);
    }
}

fn wait_positions_exec(sts: &Vec<Stmt>) -> (r: Vec<usize>)
    ensures
        idx_view(r@) == wait_positions(sts@),
{
    let mut out: Vec<usize> = Vec::new();
    let mut i: usize = 0;
    while i < sts.len()
        invariant
            i <= sts@.len(),
            idx_view(out@) == wait_positions(sts@.take(i as int)),
        decreases sts@.len() - i,
    {
        proof {
            assert(sts@.take(i + 1).drop_last() =~= sts@.take(i as int));
            assert(sts@.take(i + 1).last() == sts@[i as int]);
        }
        let w = match &sts[i] {
            Stmt::WaitUntil(_, _) => true,
            Stmt::DoUntil { .. } => true,
            _ => false,
        };
        if w {
            out.push(i);
        }
        proof {
            assert(idx_view(out@) =~= wait_positions(sts@.take(i + 1)));
        }
        i = i + 1;
    }
    proof {
        assert(sts@.take(sts@.len() as int) =~= sts@);
    }
    out
}

/// The condition of a waiting statement and the body it repeats.
fn wait_parts(st: &Stmt) -> (r: Option<(&Expr, Option<&Vec<Stmt>>)>)
    ensures
        r is Some == is_wait(*st),
        r matches Some(p) ==> *p.0 == wait_cond(*st) && match p.1 {
            Some(b) => b@ == wait_hold(*st),
            None => wait_hold(*st) == Seq::<Stmt>::empty(),
        },
{
    match st {
        Stmt::DoUntil { body, cond } => Some((cond, Some(body))),
        Stmt::WaitUntil(c, _) => Some((c, None)),
        _ => None,
    }
}

/// What the states of a waiting stage rely on: wait `g` lies inside the
/// statements and waits, the next wait (if any) lies after it, and every
/// statement lowers within the indentation.
proof fn lemma_wait_facts(sts: Seq<Stmt>, wp: Seq<usize>, v: PipeView, ind: nat, g: int)
    requires
        idx_view(wp) == wait_positions(sts),
        0 <= g < wp.len(),
        wait_stmts_ok(sts, v, ind),
    ensures
        wp[g] < sts.len(),
        is_wait(sts[wp[g] as int]),
        idx_view(wp)[g] == wp[g] as int,
        wp.last() < sts.len(),
        idx_view(wp).last() == wp.last() as int,
        g + 1 < wp.len() ==> wp[g] < wp[g + 1] < sts.len() && idx_view(wp)[g + 1] == wp[g + 1] as int,
        wait_stmt_ok(sts[wp[g] as int], v, ind),
        ind + 6 <= usize::MAX,
        stmts_all_ok(sts, v, ind + 6int),
{
    reveal(wait_stmts_ok);
    lemma_wait_positions(sts);
    assert(idx_view(wp)[g] == wp[g] as int);
    assert(idx_view(wp)[wp.len() - 1] == wp[wp.len() - 1] as int);
    assert(wait_positions(sts)[wp.len() - 1] < sts.len());
    if g + 1 < wp.len() {
        assert(idx_view(wp)[g + 1] == wp[g + 1] as int);
        assert(wait_positions(sts)[g] < wait_positions(sts)[g + 1]);
        assert(wait_positions(sts)[g + 1] < sts.len());
    }
    assert(wait_stmt_ok(sts[wp[g] as int], v, ind));
    reveal(stmts_all_ok);
    assert forall|j: int| 0 <= j < sts.len() implies pipe_stmt_ok(#[trigger] sts[j], v) && ind + 6 + 2
        * stmt_depth(sts[j]) <= usize::MAX by {
        lemma_wait_stmt_ok(sts[j], v, ind);
    }
}

/// Every statement lowers, nested within the indentation `ind`.
#[verifier::opaque]
pub open spec fn stmts_all_ok(sts: Seq<Stmt>, v: PipeView, ind: int) -> bool {
    forall|j: int|
        0 <= j < sts.len() ==> pipe_stmt_ok(#[trigger] sts[j], v) && ind + 2 * stmt_depth(sts[j])
            <= usize::MAX
}

proof fn lemma_all_ok_weaken(sts: Seq<Stmt>, v: PipeView, a: int, b: int)
    requires
        stmts_all_ok(sts, v, b),
        a <= b,
    ensures
        stmts_all_ok(sts, v, a),
{
    reveal(stmts_all_ok);
}

/// `pad` followed by `a`, `b` and `c`.
fn cat_pad(pad: &str, a: &str, b: &str, c: &str) -> (r: String)
    ensures
        r@ == pad@ + a@ + b@ + c@,
{
    let mut o = own(pad);
    push_str(&mut o, a);
    push_str(&mut o, b);
    push_str(&mut o, c);
    o
}

fn case_open_exec(pad2: &str, g: usize) -> (r: String)
    requires
        g < usize::MAX,
    ensures
        r@ == case_open(pad2@, g as int),
{
    cat_pad(pad2, "case ", fmt_dec((g + 1) as u64).as_str(), ": {\n")
}

fn case_last_exec(pad2: &str, p: &str) -> (r: String)
    ensures
        r@ == case_last(pad2@, p@),
{
    let mut o = cat_pad(pad2, "    _", p, "_fsm_state = 0;\n");
    let t = cat_pad(pad2, "    _", p, "_valid_r = 1;\n");
    push_str(&mut o, t.as_str());
    o
}

fn case_next_exec(pad2: &str, p: &str, g: usize) -> (r: String)
    requires
        g + 2 <= usize::MAX,
    ensures
        r@ == case_next(pad2@, p@, g as int),
{
    let mut o = cat_pad(pad2, "    _", p, "_fsm_state = ");
    push_str(&mut o, fmt_dec((g + 2) as u64).as_str());
    push_str(&mut o, ";\n");
    o
}

fn case_close_exec(pad2: &str) -> (r: String)
    ensures
        r@ == case_close(pad2@),
{
    let mut o = cat_pad(pad2, "  }\n", pad2, "  break;\n");
    push_str(&mut o, pad2);
    push_str(&mut o, "}\n");
    o
}

fn idle_open_exec(pad2: &str, up: &str) -> (r: String)
    ensures
        r@ == idle_open(pad2@, up@),
{
    let mut o = cat_pad(pad2, "case 0: {\n", pad2, "  if (");
    push_str(&mut o, up);
    push_str(&mut o, ") {\n");
    o
}

fn idle_done_exec(pad2: &str, p: &str, up: &str) -> (r: String)
    ensures
        r@ == idle_done(pad2@, p@, up@),
{
    let mut o = cat_pad(pad2, "      _", p, "_valid_r = ");
    push_str(&mut o, up);
    push_str(&mut o, ";\n");
    o
}

fn idle_else_exec(pad2: &str, p: &str) -> (r: String)
    ensures
        r@ == idle_else(pad2@, p@),
{
    let mut o = cat_pad(pad2, "    } else {\n", pad2, "      _");
    push_str(&mut o, p);
    push_str(&mut o, "_fsm_state = 1;\n");
    o
}

fn idle_close_exec(pad2: &str) -> (r: String)
    ensures
        r@ == idle_close(pad2@),
{
    let mut o = cat_pad(pad2, "    }\n", pad2, "  }\n");
    let t = cat_pad(pad2, "  break;\n", pad2, "}\n");
    push_str(&mut o, t.as_str());
    o
}

fn upstream_exec(s: &PipeScope) -> (r: String)
    requires
        s.stage > 0 ==> s.stage - 1 < s.stage_prefixes@.len(),
    ensures
        r@ == upstream_valid(s@),
{
    if s.stage > 0 {
        proof {
            assert(s@.stage_prefixes[s.stage - 1] == s.stage_prefixes@[s.stage - 1]@);
        }
        let mut o = own("_");
        push_str(&mut o, s.stage_prefixes[s.stage - 1].as_str());
        push_str(&mut o, "_valid_r");
        o
    } else {
        own("1")
    }
}

/// `pad2` followed by `a`, the prefix and `b`.
fn pad_prefix_line(cpp: &mut String, pad2: &str, a: &str, p: &str, b: &str)
    ensures
        final(cpp)@ == old(cpp)@ + (pad2@ + a@ + p@ + b@),
{
    push_str(cpp, pad2);
    push_str(cpp, a);
    push_str(cpp, p);
    push_str(cpp, b);
}

impl<'a> SimCodegen<'a> {
    /// Appends the clocked statements `from..to` of `sts`.
    fn emit_stmt_range(
        &self,
        cpp: &mut String,
        sts: &Vec<Stmt>,
        from: usize,
        to: usize,
        s: &PipeScope,
        indent: usize,
    )
        requires
            from <= to <= sts@.len(),
            stmts_all_ok(sts@, s@, indent as int),
        ensures
            final(cpp)@ == old(cpp)@ + pipe_stmts(sts@.subrange(from as int, to as int), s@, indent as nat),
    {
        let ghost start = cpp@;
        let mut j: usize = from;
        proof {
            reveal(stmts_all_ok);
            assert(sts@.subrange(from as int, from as int) =~= Seq::<Stmt>::empty());
        }
        while j < to
            invariant
                from <= j <= to <= sts@.len(),
                forall|k: int|
                    0 <= k < sts@.len() ==> pipe_stmt_ok(#[trigger] sts@[k], s@) && indent + 2 * stmt_depth(
                        sts@[k],
                    ) <= usize::MAX,
                cpp@ == start + pipe_stmts(sts@.subrange(from as int, j as int), s@, indent as nat),
            decreases to - j,
        {
            proof {
                assert(sts@.subrange(from as int, j + 1).drop_last() =~= sts@.subrange(
                    from as int,
                    j as int,
                ));
                assert(sts@.subrange(from as int, j + 1).last() == sts@[j as int]);
            }
            self.emit_pipeline_sim_stmt(cpp, &sts[j], s, indent);
            j = j + 1;
        }
    }

    /// Appends the statements a waiting statement repeats.
    fn emit_hold(&self, cpp: &mut String, st: &Stmt, s: &PipeScope, indent: usize)
        requires
            is_wait(*st),
            pipe_stmts_ok(wait_hold(*st), s@),
            indent + 2 * stmts_depth(wait_hold(*st)) <= usize::MAX,
        ensures
            final(cpp)@ == old(cpp)@ + pipe_stmts(wait_hold(*st), s@, indent as nat),
    {
        match wait_parts(st) {
            Some((_, Some(body))) => self.emit_pipeline_sim_stmts(cpp, body, s, indent),
            _ => {
                proof {
                    assert(cpp@ =~= old(cpp)@ + pipe_stmts(wait_hold(*st), s@, indent as nat));
                }
            },
        }
    }

    /// The C++ of the condition of a waiting statement.
    fn wait_cond_text(&self, st: &Stmt, s: &PipeScope) -> (r: String)
        requires
            is_wait(*st),
            pipe_ok(wait_cond(*st), s@),
        ensures
            r@ == pipe_text(wait_cond(*st), s@),
    {
        match wait_parts(st) {
            Some((c, _)) => self.pipeline_sim_expr(c, s),
            None => String::new(),
        }
    }

    /// Appends wait state `g + 1` (see [`wait_case`]).
    fn emit_wait_case(
        &self,
        cpp: &mut String,
        sts: &Vec<Stmt>,
        wp: &Vec<usize>,
        g: usize,
        s: &PipeScope,
        indent: usize,
    )
        requires
            idx_view(wp@) == wait_positions(sts@),
            g < wp@.len(),
            wait_stmts_ok(sts@, s@, indent as nat),
        ensures
            final(cpp)@ == old(cpp)@ + wait_case(sts@, idx_view(wp@), s@, indent as nat, g as int),
    {
        proof {
            lemma_wait_facts(sts@, wp@, s@, indent as nat, g as int);
            lemma_all_ok_weaken(sts@, s@, indent + 4int, indent + 6int);
        }
        let ghost v = s@;
        let ghost iv = idx_view(wp@);
        let ghost c0 = cpp@;
        let n = wp.len();
        proof {
            assert(g < n);
        }
        let w = &sts[wp[g]];
        let pad2 = spaces_exec(indent + 2);
        let cond = self.wait_cond_text(w, s);
        let open = case_open_exec(pad2.as_str(), g);
        push_str(cpp, open.as_str());
        self.emit_hold(cpp, w, s, indent + 4);
        let test = cat_pad(pad2.as_str(), "  if (", cond.as_str(), ") {\n");
        push_str(cpp, test.as_str());
        self.emit_case_branch(cpp, sts, wp, g, s, indent, pad2.as_str());
        let close = case_close_exec(pad2.as_str());
        push_str(cpp, close.as_str());
        proof {
            reveal(wait_case);
            assert(cpp@ =~= c0 + wait_case(sts@, iv, v, indent as nat, g as int));
        }
    }

    /// Appends the idle state (see [`wait_idle`]).
    fn emit_wait_idle(
        &self,
        cpp: &mut String,
        sts: &Vec<Stmt>,
        wp: &Vec<usize>,
        s: &PipeScope,
        indent: usize,
    )
        requires
            s.stage > 0 ==> s.stage - 1 < s.stage_prefixes@.len(),
            idx_view(wp@) == wait_positions(sts@),
            wp@.len() > 0,
            wait_stmts_ok(sts@, s@, indent as nat),
        ensures
            final(cpp)@ == old(cpp)@ + wait_idle(sts@, idx_view(wp@), s@, indent as nat),
    {
        proof {
            lemma_wait_facts(sts@, wp@, s@, indent as nat, 0);
            lemma_all_ok_weaken(sts@, s@, indent + 4int, indent + 6int);
        }
        let ghost v = s@;
        let ghost iv = idx_view(wp@);
        let ghost c0 = cpp@;
        let w = &sts[wp[0]];
        let pad2 = spaces_exec(indent + 2);
        let up = upstream_exec(s);
        let cond = self.wait_cond_text(w, s);
        let open = idle_open_exec(pad2.as_str(), up.as_str());
        push_str(cpp, open.as_str());
        self.emit_stmt_range(cpp, sts, 0, wp[0], s, indent + 4);
        let test = cat_pad(pad2.as_str(), "    if (", cond.as_str(), ") {\n");
        push_str(cpp, test.as_str());
        self.emit_idle_branch(cpp, sts, wp, s, indent, pad2.as_str(), up.as_str());
        let els = idle_else_exec(pad2.as_str(), s.prefix);
        push_str(cpp, els.as_str());
        self.emit_hold(cpp, w, s, indent + 6);
        let close = idle_close_exec(pad2.as_str());
        push_str(cpp, close.as_str());
        proof {
            reveal(wait_idle);
            assert(cpp@ =~= c0 + wait_idle(sts@, iv, v, indent as nat));
        }
    }

    /// Appends what state `g + 1` does once its condition holds.
    fn emit_case_branch(
        &self,
        cpp: &mut String,
        sts: &Vec<Stmt>,
        wp: &Vec<usize>,
        g: usize,
        s: &PipeScope,
        indent: usize,
        pad2: &str,
    )
        requires
            idx_view(wp@) == wait_positions(sts@),
            g < wp@.len(),
            wait_stmts_ok(sts@, s@, indent as nat),
            pad2@ == spaces((indent + 2) as nat),
        ensures
            final(cpp)@ == old(cpp)@ + case_branch(sts@, idx_view(wp@), s@, indent as nat, g as int),
    {
        proof {
            lemma_wait_facts(sts@, wp@, s@, indent as nat, g as int);
            lemma_all_ok_weaken(sts@, s@, indent + 4int, indent + 6int);
        }
        let n = wp.len();
        let slen = sts.len();
        if g + 1 >= n {
            let last = wp[n - 1];
            self.emit_stmt_range(cpp, sts, last + 1, slen, s, indent + 4);
            let t = case_last_exec(pad2, s.prefix);
            push_str(cpp, t.as_str());
        } else {
            self.emit_stmt_range(cpp, sts, wp[g] + 1, wp[g + 1], s, indent + 4);
            let t = case_next_exec(pad2, s.prefix, g);
            push_str(cpp, t.as_str());
        }
    }

    /// Appends the idle state's branch for a condition that already holds.
    fn emit_idle_branch(
        &self,
        cpp: &mut String,
        sts: &Vec<Stmt>,
        wp: &Vec<usize>,
        s: &PipeScope,
        indent: usize,
        pad2: &str,
        up: &str,
    )
        requires
            idx_view(wp@) == wait_positions(sts@),
            wp@.len() > 0,
            wait_stmts_ok(sts@, s@, indent as nat),
            pad2@ == spaces((indent + 2) as nat),
            up@ == upstream_valid(s@),
        ensures
            final(cpp)@ == old(cpp)@ + idle_branch(sts@, idx_view(wp@), s@, indent as nat),
    {
        proof {
            lemma_wait_facts(sts@, wp@, s@, indent as nat, 0);
        }
        let n = wp.len();
        let slen = sts.len();
        if n == 1 {
            let last = wp[n - 1];
            self.emit_stmt_range(cpp, sts, last + 1, slen, s, indent + 6);
            let t = idle_done_exec(pad2, s.prefix, up);
            push_str(cpp, t.as_str());
        } else {
            let t = cat_pad(pad2, "      _", s.prefix, "_fsm_state = 2;\n");
            push_str(cpp, t.as_str());
        }
    }

    /// Appends the wait states, one per wait.
    fn emit_wait_cases(&self, cpp: &mut String, sts: &Vec<Stmt>, wp: &Vec<usize>, s: &PipeScope, indent: usize)
        requires
            idx_view(wp@) == wait_positions(sts@),
            wait_stmts_ok(sts@, s@, indent as nat),
        ensures
            final(cpp)@ == old(cpp)@ + wait_cases(sts@, idx_view(wp@), s@, indent as nat, wp@.len() as int),
    {
        let ghost head = cpp@;
        let ghost sq = sts@;
        let ghost iv = idx_view(wp@);
        let ghost v = s@;
        proof {
            assert(head =~= head + wait_cases(sq, iv, v, indent as nat, 0));
        }
        let n = wp.len();
        let mut g: usize = 0;
        while g < n
            invariant
                g <= n == wp@.len(),
                v == s@,
                sq == sts@,
                iv == idx_view(wp@),
                idx_view(wp@) == wait_positions(sts@),
                wait_stmts_ok(sts@, s@, indent as nat),
                cpp@ == head + wait_cases(sq, iv, v, indent as nat, g as int),
            decreases n - g,
        {
            self.emit_wait_case(cpp, sts, wp, g, s, indent);
            proof {
                assert(cpp@ =~= head + wait_cases(sq, iv, v, indent as nat, g + 1));
            }
            g = g + 1;
        }
    }

    /// Appends the state machine of a stage whose clocked block waits: the
    /// statements between waits run in states of their own, state 0 takes
    /// new data from the upstream stage, and the stage's valid flag rises
    /// when the last wait is passed. A stage that does not wait appends
    /// nothing.
    pub fn emit_pipeline_sim_wait_stage(
        &self,
        cpp: &mut String,
        stage: &StageDecl,
        s: &PipeScope,
        indent: usize,
    )
        requires
            wait_stmts_ok(stage_seq(stage.body@), s@, indent as nat),
            wait_positions(stage_seq(stage.body@)).len() > 0 && s.stage > 0 ==> s.stage - 1
                < s.stage_prefixes@.len(),
        ensures
            final(cpp)@ == old(cpp)@ + wait_stage_text(*stage, s@, indent as nat),
    {
        let sts = match first_reg_block_exec(&stage.body) {
            Some(b) => b,
            None => {
                proof {
                    assert(cpp@ =~= old(cpp)@ + wait_stage_text(*stage, s@, indent as nat));
                }
                return;
            },
        };
        let ghost sq = sts@;
        let ghost v = s@;
        let ghost c0 = cpp@;
        proof {
            assert(stage_seq(stage.body@) == sq);
        }
        let wp = wait_positions_exec(sts);
        if wp.len() == 0 {
            proof {
                assert(cpp@ =~= old(cpp)@ + wait_stage_text(*stage, s@, indent as nat));
            }
            return;
        }
        proof {
            lemma_wait_facts(sts@, wp@, s@, indent as nat, 0);
        }
        let ghost iv = idx_view(wp@);
        let pad = spaces_exec(indent);
        let pad2 = spaces_exec(indent + 2);
        pad_prefix_line(cpp, pad.as_str(), "switch (_", s.prefix, "_fsm_state) {\n");
        self.emit_wait_idle(cpp, sts, &wp, s, indent);
        self.emit_wait_cases(cpp, sts, &wp, s, indent);
        let ghost body = cpp@;
        pad_prefix_line(cpp, pad2.as_str(), "default: _", s.prefix, "_fsm_state = 0; break;\n");
        push_str(cpp, pad.as_str());
        push_str(cpp, "}\n");
        proof {
            assert(cpp@ =~= old(cpp)@ + wait_stage_text(*stage, s@, indent as nat));
        }
    }
}

} // verus!
