//! Properties of the generator that hold for every input.
use vstd::prelude::*;
use vstd::arithmetic::power2::{lemma_pow2_unfold, pow2};
use crate::ast::{BinOp, Expr, ExprKind, Item, ParamDecl, Span};
use crate::const_eval::{bit_len, clog2, const_eval, const_reducible};
use crate::ctx::{CtxView, resolve_name_spec, vget, vset};
use crate::functions::{all_functions, dedup_functions, define_candidates, defines, emitted_functions};
use crate::infer::is_relational_or_logic;
use crate::lowering::{cpp_spec, width_spec, widths_sum};
use crate::lookup::{find_construct, global_symbol, inst_params, inst_ports};
use crate::pipe_stage::{
    first_reg_block, is_wait, item_waits, stage_seq, stage_waits, stmt_waits, stmts_wait, wait_positions,
    wait_stage_text,
};
use crate::pipeline::PipeView;
use crate::debug_set::{debug_levels, debug_modules, root_modules};
use crate::ast::{ModuleBodyItem, StageDecl, Stmt, Symbol};
use crate::verilated::verilated_cpp_text;
use crate::source_map::{
    insert_by_start, lemma_newline_count_le, locate_from, locate_ok, seg_holds, sort_by_start, SourceMap,
};

verus! {

/// An expression that `is_const_reducible` accepts folds to the same value
/// whatever the parameters and the parameters being folded.
pub proof fn law_const_reducible_ignores_params(e: Expr, params: Seq<ParamDecl>, seen: Set<Seq<char>>)
    requires
        const_reducible(e),
    ensures
        const_eval(e, params, seen) == const_eval(e, Seq::empty(), Set::empty()),
    decreases e,
{
    match e.kind {
        ExprKind::Clog2(a) => law_const_reducible_ignores_params(*a, params, seen),
        ExprKind::Unary(_, a) => law_const_reducible_ignores_params(*a, params, seen),
        ExprKind::Binary(_, l, r) => {
            law_const_reducible_ignores_params(*l, params, seen);
            law_const_reducible_ignores_params(*r, params, seen);
        },
        _ => {},
    }
}

proof fn lemma_bit_len_bounds(x: nat)
    ensures
        x < pow2(bit_len(x)),
        x > 0 ==> pow2((bit_len(x) - 1) as nat) <= x,
        x > 0 ==> bit_len(x) >= 1,
    decreases x,
{
    if x == 0 {
        vstd::arithmetic::power2::lemma2_to64();
    } else {
        lemma_bit_len_bounds(x / 2);
        lemma_pow2_unfold(bit_len(x));
        if x / 2 > 0 {
            lemma_pow2_unfold(bit_len(x / 2));
        } else {
            vstd::arithmetic::power2::lemma2_to64();
        }
    }
}

/// `$clog2(v)` is the least `k` with `2^k >= v`.
pub proof fn law_clog2_is_least_covering_power(v: u64)
    ensures
        v <= pow2(clog2(v) as nat),
        clog2(v) > 0 ==> pow2((clog2(v) - 1) as nat) < v,
{
    if v <= 1 {
        vstd::arithmetic::power2::lemma2_to64();
    } else {
        lemma_bit_len_bounds((v - 1) as nat);
        vstd::arithmetic::power2::lemma2_to64();
        lemma_bit_len_below((v - 1) as nat, 64);
    }
}

proof fn lemma_bit_len_below(x: nat, k: nat)
    requires
        x < pow2(k),
    ensures
        bit_len(x) <= k,
    decreases k,
{
    if x > 0 {
        if k == 0 {
            vstd::arithmetic::power2::lemma2_to64();
        } else {
            lemma_pow2_unfold(k);
            lemma_bit_len_below(x / 2, (k - 1) as nat);
        }
    }
}

/// Whether segments are in non-decreasing order of start offset.
pub open spec fn sorted_by_start(xs: Seq<(usize, Seq<char>, Seq<char>)>) -> bool {
    forall|i: int, j: int| 0 <= i <= j < xs.len() ==> xs[i].0 <= xs[j].0
}

proof fn lemma_insert_by_start(xs: Seq<(usize, Seq<char>, Seq<char>)>, x: (usize, Seq<char>, Seq<char>))
    requires
        sorted_by_start(xs),
    ensures
        sorted_by_start(insert_by_start(xs, x)),
        insert_by_start(xs, x).to_multiset() == xs.to_multiset().insert(x),
        insert_by_start(xs, x).len() == xs.len() + 1,
        forall|k: int|
            0 <= k < insert_by_start(xs, x).len() ==> (#[trigger] insert_by_start(xs, x)[k] == x
                || xs.contains(insert_by_start(xs, x)[k])),
    decreases xs.len(),
{
    broadcast use vstd::seq_lib::group_to_multiset_ensures;

    if xs.len() == 0 {
        assert(seq![x] =~= Seq::<(usize, Seq<char>, Seq<char>)>::empty().push(x));
    } else if xs.last().0 <= x.0 {
    } else {
        let ys = insert_by_start(xs.drop_last(), x);
        lemma_insert_by_start(xs.drop_last(), x);
        assert(xs.drop_last().push(xs.last()) =~= xs);
        assert forall|k: int| 0 <= k < ys.len() implies #[trigger] ys[k].0 <= xs.last().0 by {
            if ys[k] != x {
                let j = choose|j: int| 0 <= j < xs.drop_last().len() && xs.drop_last()[j] == ys[k];
                assert(xs[j] == ys[k]);
            }
        }
        assert forall|k: int| 0 <= k < ys.push(xs.last()).len() implies (#[trigger] ys.push(
            xs.last(),
        )[k] == x || xs.contains(ys.push(xs.last())[k])) by {
            if k < ys.len() && ys[k] != x {
                let j = choose|j: int| 0 <= j < xs.drop_last().len() && xs.drop_last()[j] == ys[k];
                assert(xs[j] == ys[k]);
            } else if k == ys.len() {
                assert(xs[xs.len() - 1] == xs.last());
            }
        }
    }
}

/// Sorting segments by start orders them by start and keeps each segment
/// (the same multiset).
pub proof fn law_sort_by_start_sorts(xs: Seq<(usize, Seq<char>, Seq<char>)>)
    ensures
        sorted_by_start(sort_by_start(xs)),
        sort_by_start(xs).to_multiset() == xs.to_multiset(),
    decreases xs.len(),
{
    broadcast use vstd::seq_lib::group_to_multiset_ensures;

    if xs.len() > 0 {
        law_sort_by_start_sorts(xs.drop_last());
        lemma_insert_by_start(sort_by_start(xs.drop_last()), xs.last());
        assert(xs.drop_last().push(xs.last()) =~= xs);
    } else {
        assert(sort_by_start(xs) =~= xs);
    }
}

/// Two start-sorted segment lists that hold the same segments, where no two
/// different segments share a start, are the same list.
proof fn lemma_sorted_same_segments_equal(
    s1: Seq<(usize, Seq<char>, Seq<char>)>,
    s2: Seq<(usize, Seq<char>, Seq<char>)>,
)
    requires
        sorted_by_start(s1),
        sorted_by_start(s2),
        s1.to_multiset() == s2.to_multiset(),
        forall|x: (usize, Seq<char>, Seq<char>), y: (usize, Seq<char>, Seq<char>)|
            #![trigger s1.to_multiset().count(x), s1.to_multiset().count(y)]
            s1.to_multiset().count(x) > 0 && s1.to_multiset().count(y) > 0 && x.0 == y.0 ==> x == y,
    ensures
        s1 == s2,
    decreases s1.len(),
{
    broadcast use vstd::seq_lib::group_to_multiset_ensures;

    assert(s1.len() == s1.to_multiset().len());
    assert(s2.len() == s2.to_multiset().len());
    if s1.len() == 0 {
        assert(s1 =~= s2);
    } else {
        let n = s1.len() as int;
        let x1 = s1.last();
        let x2 = s2.last();
        assert(s1.contains(x1)) by {
            assert(s1[n - 1] == x1);
        }
        assert(s2.contains(x2)) by {
            assert(s2[n - 1] == x2);
        }
        assert(s2.to_multiset().count(x1) > 0);
        assert(s1.to_multiset().count(x2) > 0);
        let k = choose|k: int| 0 <= k < s2.len() && s2[k] == x1;
        let j = choose|j: int| 0 <= j < s1.len() && s1[j] == x2;
        assert(s1[j].0 <= s1[n - 1].0);
        assert(s2[k].0 <= s2[n - 1].0);
        assert(x1.0 == x2.0);
        assert(x1 == x2);
        let d1 = s1.drop_last();
        let d2 = s2.drop_last();
        assert(d1.push(x1) =~= s1);
        assert(d2.push(x2) =~= s2);
        assert(d1.to_multiset() =~= d2.to_multiset()) by {
            assert forall|y: (usize, Seq<char>, Seq<char>)|
                d1.to_multiset().count(y) == d2.to_multiset().count(y) by {
                assert(d1.push(x1).to_multiset() == d1.to_multiset().insert(x1));
                assert(d2.push(x2).to_multiset() == d2.to_multiset().insert(x2));
                assert(s1.to_multiset().count(y) == s2.to_multiset().count(y));
                assert(s1.to_multiset() == d1.to_multiset().insert(x1));
                assert(s2.to_multiset() == d2.to_multiset().insert(x1));
                if y == x1 {
                    assert(d1.to_multiset().insert(x1).count(y) == d1.to_multiset().count(y) + 1);
                    assert(d2.to_multiset().insert(x1).count(y) == d2.to_multiset().count(y) + 1);
                } else {
                    assert(d1.to_multiset().insert(x1).count(y) == d1.to_multiset().count(y));
                    assert(d2.to_multiset().insert(x1).count(y) == d2.to_multiset().count(y));
                }
            }
        }
        assert forall|x: (usize, Seq<char>, Seq<char>), y: (usize, Seq<char>, Seq<char>)|
            #![trigger d1.to_multiset().count(x), d1.to_multiset().count(y)]
            d1.to_multiset().count(x) > 0 && d1.to_multiset().count(y) > 0 && x.0 == y.0 implies x
                == y by {
            assert(d1.push(x1).to_multiset() == d1.to_multiset().insert(x1));
            assert(s1.to_multiset().count(x) > 0);
            assert(s1.to_multiset().count(y) > 0);
        }
        lemma_sorted_same_segments_equal(d1, d2);
        assert(s1 =~= s2);
    }
}

/// Segments whose start offsets are pairwise distinct sort to the same list
/// whatever order they are given in: a source map does not depend on the
/// order of its input segments.
pub proof fn law_sort_by_start_ignores_input_order(
    segs: Seq<(usize, Seq<char>, Seq<char>)>,
    perm: Seq<(usize, Seq<char>, Seq<char>)>,
)
    requires
        perm.to_multiset() == segs.to_multiset(),
        forall|i: int, j: int| 0 <= i < j < segs.len() ==> #[trigger] segs[i].0 != #[trigger] segs[j].0,
    ensures
        sort_by_start(perm) == sort_by_start(segs),
        forall|offset: usize, i: int|
            #![trigger locate_from(sort_by_start(perm), offset, i)]
            locate_from(sort_by_start(perm), offset, i) == locate_from(sort_by_start(segs), offset, i),
{
    broadcast use vstd::seq_lib::group_to_multiset_ensures;

    law_sort_by_start_sorts(segs);
    law_sort_by_start_sorts(perm);
    let s1 = sort_by_start(perm);
    let s2 = sort_by_start(segs);
    assert forall|x: (usize, Seq<char>, Seq<char>), y: (usize, Seq<char>, Seq<char>)|
        #![trigger s1.to_multiset().count(x), s1.to_multiset().count(y)]
        s1.to_multiset().count(x) > 0 && s1.to_multiset().count(y) > 0 && x.0 == y.0 implies x == y by {
        assert(segs.to_multiset().count(x) > 0);
        assert(segs.to_multiset().count(y) > 0);
        assert(segs.contains(x));
        assert(segs.contains(y));
        let p = choose|p: int| 0 <= p < segs.len() && segs[p] == x;
        let q = choose|q: int| 0 <= q < segs.len() && segs[q] == y;
        if p < q {
            assert(segs[p].0 != segs[q].0);
        } else if q < p {
            assert(segs[q].0 != segs[p].0);
        }
    }
    lemma_sorted_same_segments_equal(s1, s2);
}

/// Two source maps built from the same segments in different orders, no
/// two segments sharing a start offset, are the same map: an offset is
/// accepted by one exactly when it is accepted by the other, and both
/// locate it in the same file and line.
pub proof fn law_source_maps_of_reordered_segments_agree(
    a: SourceMap,
    b: SourceMap,
    segs: Seq<(usize, Seq<char>, Seq<char>)>,
    perm: Seq<(usize, Seq<char>, Seq<char>)>,
)
    requires
        a@ == sort_by_start(perm),
        b@ == sort_by_start(segs),
        perm.to_multiset() == segs.to_multiset(),
        forall|i: int, j: int| 0 <= i < j < segs.len() ==> #[trigger] segs[i].0 != #[trigger] segs[j].0,
    ensures
        a@ == b@,
        forall|offset: usize| #[trigger] locate_ok(a@, offset) == locate_ok(b@, offset),
        forall|offset: usize| #[trigger] locate_from(a@, offset, 0) == locate_from(b@, offset, 0),
{
    law_sort_by_start_ignores_input_order(segs, perm);
}

/// A located offset lies in the segment it is reported in (the first that
/// holds it), and lines are numbered from 1.
pub proof fn law_locate_finds_holding_segment(
    segs: Seq<(usize, Seq<char>, Seq<char>)>,
    offset: usize,
    i: int,
)
    requires
        0 <= i,
        locate_ok(segs, offset),
    ensures
        locate_from(segs, offset, i) matches Some((f, line)) ==> line >= 1 && exists|k: int|
            i <= k < segs.len() && #[trigger] seg_holds(segs, k, offset) && segs[k].1 == f,
    decreases segs.len() - i,
{
    if 0 <= i < segs.len() {
        if seg_holds(segs, i, offset) {
            let local = offset - segs[i].0;
            let bytes = vstd::utf8::encode_utf8(segs[i].2);
            if local <= bytes.len() {
                lemma_newline_count_le(bytes.take(local as int));
                assert(seg_holds(segs, i, offset) && segs[i].1 == segs[i].1);
            }
        } else {
            law_locate_finds_holding_segment(segs, offset, i + 1);
        }
    }
}

/// `VFunctions.h` holds at most one function of each name.
pub proof fn law_functions_emitted_once(items: Seq<Item>)
    ensures
        forall|i: int, j: int|
            0 <= i < j < emitted_functions(items).len() ==> #[trigger] emitted_functions(items)[i].name.name@
                != #[trigger] emitted_functions(items)[j].name.name@,
{
    lemma_dedup_distinct(all_functions(items));
}

proof fn lemma_dedup_distinct(fs: Seq<crate::ast::FunctionDecl>)
    ensures
        forall|k: int|
            0 <= k < dedup_functions(fs).0.len() ==> dedup_functions(fs).1.contains(
                #[trigger] dedup_functions(fs).0[k].name.name@,
            ),
        forall|i: int, j: int|
            0 <= i < j < dedup_functions(fs).0.len() ==> #[trigger] dedup_functions(fs).0[i].name.name@
                != #[trigger] dedup_functions(fs).0[j].name.name@,
    decreases fs.len(),
{
    if fs.len() > 0 {
        lemma_dedup_distinct(fs.drop_last());
    }
}

/// Each parameter name gets at most one `#define` in `VFunctions.h`.
pub proof fn law_parameters_defined_once(items: Seq<Item>, fp: Map<Seq<char>, Option<u64>>)
    ensures
        forall|i: int, j: int|
            0 <= i < j < defines(define_candidates(items), fp).2.len() ==> #[trigger] defines(
                define_candidates(items),
                fp,
            ).2[i] != #[trigger] defines(define_candidates(items), fp).2[j],
{
    lemma_defines_distinct(define_candidates(items), fp);
}

proof fn lemma_defines_distinct(ps: Seq<(ParamDecl, Seq<ParamDecl>)>, fp: Map<Seq<char>, Option<u64>>)
    ensures
        forall|k: int|
            0 <= k < defines(ps, fp).2.len() ==> defines(ps, fp).1.contains(
                #[trigger] defines(ps, fp).2[k],
            ),
        forall|i: int, j: int|
            0 <= i < j < defines(ps, fp).2.len() ==> #[trigger] defines(ps, fp).2[i]
                != #[trigger] defines(ps, fp).2[j],
    decreases ps.len(),
{
    if ps.len() > 0 {
        lemma_defines_distinct(ps.drop_last(), fp);
        let prev = defines(ps.drop_last(), fp);
        let cur = defines(ps, fp);
        let n = ps.last().0.name.name@;
        if prev.1.contains(n) {
            assert(cur == prev);
        } else {
            match crate::functions::define_value(ps.last().0, ps.last().1, fp) {
                Some(v) => {
                    assert(cur.2 == prev.2.push(n));
                    assert(cur.1 == prev.1.insert(n));
                    assert forall|k: int| 0 <= k < cur.2.len() implies cur.1.contains(
                        #[trigger] cur.2[k],
                    ) by {
                        if k < prev.2.len() {
                            assert(prev.1.contains(prev.2[k]));
                        }
                    }
                    assert forall|i: int, j: int| 0 <= i < j < cur.2.len() implies #[trigger] cur.2[i]
                        != #[trigger] cur.2[j] by {
                        if j == prev.2.len() {
                            assert(prev.1.contains(prev.2[i]));
                        } else {
                            assert(prev.2[i] != prev.2[j]);
                        }
                    }
                },
                None => {
                    assert(cur.2 == prev.2);
                    assert(cur.1 == prev.1.insert(n));
                },
            }
        }
    }
}

/// A register is read through its current-state field and, on the left of
/// a clocked assignment, written through its next-state field.
pub proof fn law_register_read_and_clocked_write(cv: CtxView, n: String)
    requires
        cv.reg_names.contains(n@),
        !vset(cv.fsm_vec_port_regs, n@),
        !cv.fsm_mode,
        vget(cv.ident_subst, n@) is None,
        vget(cv.loop_var_subst, n@) is None,
        !(cv.wide_names.contains(n@) && cv.port_names.contains(n@)),
    ensures
        cpp_spec(Expr { kind: ExprKind::Ident(n), span: Span { start: 0, end: 0 } }, cv, false)
            == "_"@ + n@,
        cpp_spec(
            Expr { kind: ExprKind::Ident(n), span: Span { start: 0, end: 0 } },
            CtxView { posedge_lhs: true, ..cv },
            true,
        ) == "_n_"@ + n@,
{
}

/// Comparisons and logical operators are one bit wide; a concatenation is
/// as wide as its parts together.
pub proof fn law_relational_width_and_concat_width(op: BinOp, l: Expr, r: Expr, parts: Vec<Expr>, cv: CtxView)
    ensures
        is_relational_or_logic(op) ==> width_spec(
            Expr { kind: ExprKind::Binary(op, Box::new(l), Box::new(r)), span: Span { start: 0, end: 0 } },
            cv,
        ) == 1,
        width_spec(
            Expr { kind: ExprKind::Concat(parts), span: Span { start: 0, end: 0 } },
            cv,
        ) == widths_sum(parts@, cv),
{
}


/// An instance's params are found exactly where its ports are: both come
/// from the same construct of the file, or from the same module symbol.
pub proof fn law_inst_params_follow_ports(items: Seq<Item>, globals: Seq<(String, Symbol)>, n: Seq<char>)
    ensures
        inst_ports(items, globals, n) is Some <==> inst_params(items, globals, n) is Some,
        find_construct(items, n, 0) matches Some((ps, qs)) ==> inst_ports(items, globals, n) == Some(ps)
            && inst_params(items, globals, n) == Some(qs),
{
}

/// `it` is a clocked block holding `sts`.
spec fn block_stmts(it: ModuleBodyItem, sts: Seq<Stmt>) -> bool {
    match it {
        ModuleBodyItem::RegBlock(rb) => rb.stmts@ == sts,
        _ => false,
    }
}

/// The statements of a stage's first clocked block are those of one of
/// its clocked blocks.
proof fn lemma_first_reg_block_in_body(body: Seq<ModuleBodyItem>)
    ensures
        first_reg_block(body) matches Some(sts) ==> exists|i: int|
            0 <= i < body.len() && #[trigger] block_stmts(body[i], sts),
    decreases body.len(),
{
    if body.len() > 0 {
        lemma_first_reg_block_in_body(body.drop_last());
        if first_reg_block(body.drop_last()) is Some {
            let sts = first_reg_block(body.drop_last())->0;
            let i = choose|i: int|
                0 <= i < body.drop_last().len() && #[trigger] block_stmts(body.drop_last()[i], sts);
            assert(body[i] == body.drop_last()[i]);
            assert(block_stmts(body[i], sts));
        } else {
            let k = body.len() - 1;
            assert(body[k] == body.last());
            if first_reg_block(body) is Some {
                assert(block_stmts(body[k], first_reg_block(body)->0));
            }
        }
    }
}

/// Statements that never wait have no waiting positions.
proof fn lemma_no_wait_no_positions(sts: Seq<Stmt>)
    requires
        !stmts_wait(sts),
    ensures
        wait_positions(sts).len() == 0,
    decreases sts.len(),
{
    if sts.len() > 0 {
        lemma_no_wait_no_positions(sts.drop_last());
        assert(!stmt_waits(sts.last()));
        match sts.last() {
            Stmt::WaitUntil(_, _) => {
                assert(stmt_waits(sts.last()));
            },
            Stmt::DoUntil { .. } => {
                assert(stmt_waits(sts.last()));
            },
            _ => {},
        }
        assert(wait_positions(sts) =~= wait_positions(sts.drop_last()));
    }
}

/// A stage whose clocked blocks never wait gets no state machine: its
/// wait-stage text is empty.
pub proof fn law_plain_stage_has_no_state_machine(stage: StageDecl, v: PipeView, ind: nat)
    requires
        !stage_waits(stage.body@),
    ensures
        wait_stage_text(stage, v, ind) == Seq::<char>::empty(),
{
    let body = stage.body@;
    lemma_first_reg_block_in_body(body);
    match first_reg_block(body) {
        Some(sts) => {
            let i = choose|i: int|
                0 <= i < body.len() && #[trigger] block_stmts(body[i], sts);
            assert(!item_waits(body[i]));
            lemma_no_wait_no_positions(sts);
        },
        None => {
            assert(stage_seq(body) =~= Seq::<Stmt>::empty());
            assert(wait_positions(stage_seq(body)) =~= Seq::<int>::empty());
        },
    }
}


/// Debug instrumentation reaches at least as far with a larger depth, and
/// from depth 1 on it covers every root module.
pub proof fn law_debug_set_grows_with_depth(items: Seq<Item>, d1: u32, d2: u32)
    requires
        d1 <= d2,
    ensures
        debug_modules(items, true, d1).subset_of(debug_modules(items, true, d2)),
        d1 >= 1 ==> root_modules(items).subset_of(debug_modules(items, true, d1)),
    decreases d2 - d1,
{
    if d1 < d2 {
        law_debug_set_grows_with_depth(items, d1, (d2 - 1) as u32);
        assert(debug_levels(items, (d2 - 1) as nat).subset_of(debug_levels(items, d2 as nat)));
    }
    if d1 >= 1 {
        lemma_roots_in_levels(items, d1 as nat);
    }
}

proof fn lemma_roots_in_levels(items: Seq<Item>, k: nat)
    requires
        k >= 1,
    ensures
        root_modules(items).subset_of(debug_levels(items, k)),
    decreases k,
{
    if k > 1 {
        lemma_roots_in_levels(items, (k - 1) as nat);
    } else {
        assert(debug_levels(items, 0) =~= Set::<Seq<char>>::empty());
    }
}

/// Whether `t` occurs in `s` at position `i`.
pub open spec fn occurs_at(s: Seq<char>, t: Seq<char>, i: int) -> bool {
    0 <= i && i + t.len() <= s.len() && s.subrange(i, i + t.len()) == t
}

/// `verilated.cpp` starts with the include of `verilated.h` and defines the
/// static members that the header declares out of line
/// (`_s_verbosity`, `_s_trace_file`, `_s_trace_claimed`) and the
/// `extern "C"` coverage-file opener.
pub proof fn law_verilated_cpp_defines_header_statics()
    ensures
        occurs_at(verilated_cpp_text(), "#include \"verilated.h\""@, 0),
        exists|i: int| occurs_at(verilated_cpp_text(), "int Verilated::_s_verbosity = 1;"@, i),
        exists|i: int| occurs_at(verilated_cpp_text(), "const char* Verilated::_s_trace_file = nullptr;"@, i),
        exists|i: int| occurs_at(verilated_cpp_text(), "bool Verilated::_s_trace_claimed = false;"@, i),
        exists|i: int|
            occurs_at(
                verilated_cpp_text(),
                "extern \"C\" FILE* _arch_cov_dat_open(const char* path) {"@,
                i,
            ),
{
    let p0 = "#include \"verilated.h\""@;
    let p1 = "\n#include <cstdio>\n#include <cstdlib>\n"@;
    let p2 = "int Verilated::_s_verbosity = 1;"@;
    let p3 = "\n"@;
    let p4 = "const char* Verilated::_s_trace_file = nullptr;"@;
    let p5 = "bool Verilated::_s_trace_claimed = false;"@;
    let t = verilated_cpp_text();
    let a1: int = p0.len() as int + p1.len() as int;
    let a2: int = a1 + p2.len() + p3.len();
    let a3: int = a2 + p4.len() + p3.len();
    let p7 = "extern \"C\" FILE* _arch_cov_dat_open(const char* path) {"@;
    assert(t.subrange(0, p0.len() as int) =~= p0);
    assert(t.subrange(a1, a1 + p2.len()) =~= p2);
    assert(occurs_at(t, p2, a1));
    assert(t.subrange(a2, a2 + p4.len()) =~= p4);
    assert(occurs_at(t, p4, a2));
    assert(t.subrange(a3, a3 + p5.len()) =~= p5);
    assert(occurs_at(t, p5, a3));
    let c = "\n\n// --coverage-dat: Verilator-compatible coverage.dat writer. Each\n// class's atexit dumper calls _arch_cov_dat_open() to get a FILE*\n// opened for append; the first call writes the header line so\n// verilator_coverage --annotate parses cleanly. Subsequent calls\n// just append their point lines.\n"@;
    let a5: int = a3 + p5.len() + c.len();
    assert(t.subrange(a5, a5 + p7.len()) =~= p7);
    assert(occurs_at(t, p7, a5));
}

} // verus!
