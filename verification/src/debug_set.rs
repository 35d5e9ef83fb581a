//! The modules instrumented under `--debug`: those within `debug_depth`
//! levels of instantiation from a root module (one no module
//! instantiates).
use vstd::prelude::*;
use crate::ast::{Item, ModuleBodyItem};
use crate::functions::strs_view;
use crate::names::{NameMap, NameSet};
use crate::sim::SimCodegen;

verus! {

/// The module names a body instantiates, in order.
pub open spec fn inst_children(body: Seq<ModuleBodyItem>) -> Seq<Seq<char>>
    decreases body.len(),
{
    if body.len() == 0 {
        Seq::empty()
    } else {
        let rest = inst_children(body.drop_last());
        match body.last() {
            ModuleBodyItem::Inst(inst) => rest.push(inst.module_name.name@),
            _ => rest,
        }
    }
}

/// Module name → the module names it instantiates; of two modules with
/// one name the later counts.
pub open spec fn child_map(items: Seq<Item>) -> Map<Seq<char>, Seq<Seq<char>>>
    decreases items.len(),
{
    if items.len() == 0 {
        Map::empty()
    } else {
        let rest = child_map(items.drop_last());
        match items.last() {
            Item::Module(m) => rest.insert(m.name.name@, inst_children(m.body@)),
            _ => rest,
        }
    }
}

/// Some module instantiates `c`.
pub open spec fn is_instantiated(items: Seq<Item>, c: Seq<char>) -> bool {
    exists|n: Seq<char>| #[trigger] child_map(items).contains_key(n) && child_map(items)[n].contains(c)
}

/// The modules no module instantiates.
pub open spec fn root_modules(items: Seq<Item>) -> Set<Seq<char>> {
    Set::new(|n: Seq<char>| child_map(items).contains_key(n) && !is_instantiated(items, n))
}

/// `c` is instantiated by a module of `prev`.
pub open spec fn child_of(items: Seq<Item>, prev: Set<Seq<char>>, c: Seq<char>) -> bool {
    exists|p: Seq<char>|
        #[trigger] prev.contains(p) && child_map(items).contains_key(p) && child_map(items)[p].contains(c)
}

/// The names at instantiation level `k` (roots at level 1).
pub open spec fn debug_level(items: Seq<Item>, k: nat) -> Set<Seq<char>>
    decreases k,
{
    if k == 0 {
        Set::empty()
    } else if k == 1 {
        root_modules(items)
    } else {
        Set::new(|c: Seq<char>| child_of(items, debug_level(items, (k - 1) as nat), c))
    }
}

/// The names at levels `1..=k`.
pub open spec fn debug_levels(items: Seq<Item>, k: nat) -> Set<Seq<char>>
    decreases k,
{
    if k == 0 {
        Set::empty()
    } else {
        debug_levels(items, (k - 1) as nat).union(debug_level(items, k))
    }
}

/// The modules instrumented under `--debug` (none without it).
pub open spec fn debug_modules(items: Seq<Item>, debug: bool, depth: u32) -> Set<Seq<char>> {
    if debug {
        debug_levels(items, depth as nat)
    } else {
        Set::empty()
    }
}

/// The view of a map from names to name lists.
pub open spec fn lists_view(m: Map<Seq<char>, Vec<String>>) -> Map<Seq<char>, Seq<Seq<char>>> {
    m.map_values(|v: Vec<String>| strs_view(v@))
}

fn inst_children_exec(body: &Vec<ModuleBodyItem>) -> (r: Vec<String>)
    ensures
        strs_view(r@) == inst_children(body@),
{
    let mut out: Vec<String> = Vec::new();
    let mut i: usize = 0;
    while i < body.len()
        invariant
            i <= body@.len(),
            strs_view(out@) == inst_children(body@.take(i as int)),
        decreases body@.len() - i,
    {
        proof {
            assert(body@.take(i + 1).drop_last() =~= body@.take(i as int));
        }
        if let ModuleBodyItem::Inst(inst) = &body[i] {
            out.push(inst.module_name.name.clone());
        }
        proof {
            assert(strs_view(out@) =~= inst_children(body@.take(i + 1)));
        }
        i = i + 1;
    }
    proof {
        assert(body@.take(body@.len() as int) =~= body@);
    }
    out
}

/// The child map of the file and the module names in file order.
fn child_map_exec(items: &Vec<Item>) -> (r: (NameMap<Vec<String>>, Vec<String>))
    ensures
        lists_view(r.0@) == child_map(items@),
        forall|k: int| 0 <= k < r.1@.len() ==> child_map(items@).contains_key(#[trigger] r.1@[k]@),
        forall|n: Seq<char>| #[trigger] child_map(items@).contains_key(n) ==> strs_view(r.1@).contains(n),
{
    let mut m: NameMap<Vec<String>> = NameMap::new();
    let mut names: Vec<String> = Vec::new();
    let mut i: usize = 0;
    proof {
        assert(lists_view(m@) =~= child_map(items@.take(0)));
    }
    while i < items.len()
        invariant
            i <= items@.len(),
            lists_view(m@) == child_map(items@.take(i as int)),
            forall|k: int| 0 <= k < names@.len() ==> child_map(items@.take(i as int)).contains_key(
                #[trigger] names@[k]@,
            ),
            forall|n: Seq<char>| #[trigger] child_map(items@.take(i as int)).contains_key(n) ==> strs_view(
                names@,
            ).contains(n),
        decreases items@.len() - i,
    {
        proof {
            assert(items@.take(i + 1).drop_last() =~= items@.take(i as int));
        }
        let ghost before = names@;
        if let Item::Module(md) = &items[i] {
            let ch = inst_children_exec(&md.body);
            m.insert(md.name.name.clone(), ch);
            names.push(md.name.name.clone());
            proof {
                assert(lists_view(m@) =~= child_map(items@.take(i + 1)));
                assert(strs_view(names@) == strs_view(before).push(md.name.name@));
                assert forall|n: Seq<char>| #[trigger] child_map(items@.take(i + 1)).contains_key(n) implies strs_view(
                    names@,
                ).contains(n) by {
                    if n != md.name.name@ {
                        assert(child_map(items@.take(i as int)).contains_key(n));
                        let j = choose|j: int| 0 <= j < strs_view(before).len() && strs_view(before)[j] == n;
                        assert(strs_view(names@)[j] == n);
                    } else {
                        assert(strs_view(names@)[before.len() as int] == n);
                    }
                }
            }
        } else {
            proof {
                assert(child_map(items@.take(i + 1)) == child_map(items@.take(i as int)));
            }
        }
        i = i + 1;
    }
    proof {
        assert(items@.take(items@.len() as int) =~= items@);
    }
    (m, names)
}


/// The names a list holds.
pub open spec fn names_of(v: Seq<String>) -> Set<Seq<char>> {
    Set::new(|c: Seq<char>| exists|t: int| 0 <= t < v.len() && #[trigger] v[t]@ == c)
}

/// The names of `names` that `inst` does not hold, in order.
fn roots_exec(names: &Vec<String>, inst: &NameSet) -> (r: Vec<String>)
    ensures
        forall|c: Seq<char>| #[trigger] names_of(r@).contains(c) <==> names_of(names@).contains(c) && !inst@.contains(c),
{
    let mut out: Vec<String> = Vec::new();
    let mut i: usize = 0;
    while i < names.len()
        invariant
            i <= names@.len(),
            forall|c: Seq<char>|
                #[trigger] names_of(out@).contains(c) <==> (exists|t: int| 0 <= t < i && #[trigger] names@[t]@ == c)
                    && !inst@.contains(c),
        decreases names@.len() - i,
    {
        let ghost before = out@;
        if !inst.contains(names[i].as_str()) {
            out.push(names[i].clone());
        }
        proof {
            assert forall|c: Seq<char>| #[trigger] names_of(out@).contains(c) <==> (exists|t: int|
                0 <= t < i + 1 && #[trigger] names@[t]@ == c) && !inst@.contains(c) by {
                if names_of(out@).contains(c) {
                    let t = choose|t: int| 0 <= t < out@.len() && #[trigger] out@[t]@ == c;
                    if t < before.len() {
                        assert(before[t]@ == c);
                        assert(names_of(before).contains(c));
                    }
                }
                if (exists|t: int| 0 <= t < i + 1 && #[trigger] names@[t]@ == c) && !inst@.contains(c) {
                    let t = choose|t: int| 0 <= t < i + 1 && #[trigger] names@[t]@ == c;
                    if t < i {
                        assert(names_of(before).contains(c));
                        let u = choose|u: int| 0 <= u < before.len() && #[trigger] before[u]@ == c;
                        assert(out@[u]@ == c);
                    } else {
                        assert(out@[before.len() as int]@ == c);
                    }
                }
            }
        }
        i = i + 1;
    }
    proof {
        assert forall|c: Seq<char>| #[trigger] names_of(out@).contains(c) <==> names_of(names@).contains(c)
            && !inst@.contains(c) by {}
    }
    out
}

/// Adds every name of `v` to `set`.
fn insert_all(set: &mut NameSet, v: &Vec<String>)
    ensures
        final(set)@ == old(set)@.union(names_of(v@)),
{
    let ghost start = set@;
    let mut i: usize = 0;
    while i < v.len()
        invariant
            i <= v@.len(),
            forall|c: Seq<char>|
                #[trigger] set@.contains(c) <==> start.contains(c) || exists|t: int| 0 <= t < i && #[trigger] v@[t]@ == c,
        decreases v@.len() - i,
    {
        set.insert(v[i].clone());
        i = i + 1;
    }
    proof {
        assert(set@ =~= start.union(names_of(v@)));
    }
}

/// The names the modules of `frontier` instantiate.
fn next_level(frontier: &Vec<String>, m: &NameMap<Vec<String>>) -> (r: Vec<String>)
    ensures
        forall|c: Seq<char>|
            #[trigger] names_of(r@).contains(c) <==> exists|p: Seq<char>|
                #[trigger] names_of(frontier@).contains(p) && lists_view(m@).contains_key(p) && lists_view(
                    m@,
                )[p].contains(c),
{
    let mut out: Vec<String> = Vec::new();
    let mut i: usize = 0;
    while i < frontier.len()
        invariant
            i <= frontier@.len(),
            forall|c: Seq<char>|
                #[trigger] names_of(out@).contains(c) <==> exists|t: int|
                    0 <= t < i && lists_view(m@).contains_key(#[trigger] frontier@[t]@) && lists_view(m@)[frontier@[t]@].contains(c),
        decreases frontier@.len() - i,
    {
        match m.get(frontier[i].as_str()) {
            Some(ch) => {
                let ghost before = out@;
                let mut j: usize = 0;
                while j < ch.len()
                    invariant
                        j <= ch@.len(),
                        forall|c: Seq<char>|
                            #[trigger] names_of(out@).contains(c) <==> names_of(before).contains(c) || exists|u: int|
                                0 <= u < j && #[trigger] ch@[u]@ == c,
                    decreases ch@.len() - j,
                {
                    let ghost b2 = out@;
                    out.push(ch[j].clone());
                    proof {
                        assert forall|c: Seq<char>| #[trigger] names_of(out@).contains(c) <==> names_of(before).contains(c)
                            || exists|u: int| 0 <= u < j + 1 && #[trigger] ch@[u]@ == c by {
                            if names_of(out@).contains(c) {
                                let t = choose|t: int| 0 <= t < out@.len() && #[trigger] out@[t]@ == c;
                                if t < b2.len() {
                                    assert(b2[t]@ == c);
                                    assert(names_of(b2).contains(c));
                                }
                            }
                            if names_of(b2).contains(c) {
                                let t = choose|t: int| 0 <= t < b2.len() && #[trigger] b2[t]@ == c;
                                assert(out@[t]@ == c);
                            }
                            if exists|u: int| 0 <= u < j + 1 && #[trigger] ch@[u]@ == c {
                                let u = choose|u: int| 0 <= u < j + 1 && #[trigger] ch@[u]@ == c;
                                if u == j {
                                    assert(out@[b2.len() as int]@ == c);
                                }
                            }
                        }
                    }
                    j = j + 1;
                }
                proof {
                    assert(lists_view(m@)[frontier@[i as int]@] == strs_view(ch@));
                    assert forall|c: Seq<char>| #[trigger] names_of(out@).contains(c) <==> exists|t: int|
                        0 <= t < i + 1 && lists_view(m@).contains_key(#[trigger] frontier@[t]@) && lists_view(m@)[frontier@[t]@].contains(c) by {
                        if exists|u: int| 0 <= u < ch@.len() && #[trigger] ch@[u]@ == c {
                            let u = choose|u: int| 0 <= u < ch@.len() && #[trigger] ch@[u]@ == c;
                            assert(strs_view(ch@)[u] == c);
                        }
                        if lists_view(m@).contains_key(frontier@[i as int]@) && lists_view(m@)[frontier@[i as int]@].contains(c) {
                            let u = choose|u: int| 0 <= u < strs_view(ch@).len() && strs_view(ch@)[u] == c;
                            assert(ch@[u]@ == c);
                        }
                    }
                }
            },
            None => {
                proof {
                    assert(!lists_view(m@).contains_key(frontier@[i as int]@));
                }
            },
        }
        i = i + 1;
    }
    proof {
        assert forall|c: Seq<char>| #[trigger] names_of(out@).contains(c) <==> exists|p: Seq<char>|
            #[trigger] names_of(frontier@).contains(p) && lists_view(m@).contains_key(p) && lists_view(m@)[p].contains(c) by {
            if names_of(out@).contains(c) {
                let t = choose|t: int| 0 <= t < i && lists_view(m@).contains_key(#[trigger] frontier@[t]@) && lists_view(m@)[frontier@[t]@].contains(c);
                assert(names_of(frontier@).contains(frontier@[t]@));
            }
            if exists|p: Seq<char>| #[trigger] names_of(frontier@).contains(p) && lists_view(m@).contains_key(p) && lists_view(m@)[p].contains(c) {
                let p = choose|p: Seq<char>| #[trigger] names_of(frontier@).contains(p) && lists_view(m@).contains_key(p) && lists_view(m@)[p].contains(c);
                let t = choose|t: int| 0 <= t < frontier@.len() && #[trigger] frontier@[t]@ == p;
                assert(lists_view(m@).contains_key(frontier@[t]@));
            }
        }
    }
    out
}

impl<'a> SimCodegen<'a> {
    /// The modules whose models carry `--debug` instrumentation: with
    /// `debug` on, every module (and instantiated name) within
    /// `debug_depth` levels of instantiation from a root module, roots
    /// counting as level 1; none with `debug` off.
    pub fn debug_module_set(&self) -> (r: NameSet)
        ensures
            r@ == debug_modules(self.source.items@, self.debug, self.debug_depth),
    {
        if !self.debug {
            return NameSet::new();
        }
        let ghost items = self.source.items@;
        let (m, names) = child_map_exec(&self.source.items);
        let mut inst = NameSet::new();
        let mut i: usize = 0;
        while i < names.len()
            invariant
                i <= names@.len(),
                items == self.source.items@,
                lists_view(m@) == child_map(items),
                forall|k: int| 0 <= k < names@.len() ==> child_map(items).contains_key(#[trigger] names@[k]@),
                forall|c: Seq<char>|
                    #[trigger] inst@.contains(c) <==> exists|k: int|
                        0 <= k < i && child_map(items)[#[trigger] names@[k]@].contains(c),
            decreases names@.len() - i,
        {
            match m.get(names[i].as_str()) {
                Some(ch) => {
                    let ghost before = inst@;
                    let mut j: usize = 0;
                    while j < ch.len()
                        invariant
                            j <= ch@.len(),
                            strs_view(ch@) == child_map(items)[names@[i as int]@],
                            forall|c: Seq<char>|
                                #[trigger] inst@.contains(c) <==> (before.contains(c) || exists|t: int|
                                    0 <= t < j && #[trigger] ch@[t]@ == c),
                        decreases ch@.len() - j,
                    {
                        inst.insert(ch[j].clone());
                        j = j + 1;
                    }
                    proof {
                        assert forall|c: Seq<char>| #[trigger] inst@.contains(c) <==> exists|k: int|
                            0 <= k < i + 1 && child_map(items)[#[trigger] names@[k]@].contains(c) by {
                            if inst@.contains(c) && !before.contains(c) {
                                let t = choose|t: int| 0 <= t < ch@.len() && #[trigger] ch@[t]@ == c;
                                assert(strs_view(ch@)[t] == c);
                            }
                            if exists|k: int| 0 <= k < i + 1 && child_map(items)[#[trigger] names@[k]@].contains(c) {
                                let k = choose|k: int| 0 <= k < i + 1 && child_map(items)[#[trigger] names@[k]@].contains(c);
                                if k == i {
                                    let t = choose|t: int| 0 <= t < strs_view(ch@).len() && strs_view(ch@)[t] == c;
                                    assert(ch@[t]@ == c);
                                }
                            }
                        }
                    }
                },
                None => {
                    proof {
                        assert(child_map(items).contains_key(names@[i as int]@));
                        assert(lists_view(m@).contains_key(names@[i as int]@));
                    }
                },
            }
            i = i + 1;
        }
        proof {
            assert forall|c: Seq<char>| #[trigger] inst@.contains(c) <==> is_instantiated(items, c) by {
                if inst@.contains(c) {
                    let k = choose|k: int| 0 <= k < names@.len() && child_map(items)[#[trigger] names@[k]@].contains(c);
                    assert(child_map(items).contains_key(names@[k]@));
                }
                if is_instantiated(items, c) {
                    let n = choose|n: Seq<char>| #[trigger] child_map(items).contains_key(n) && child_map(items)[n].contains(c);
                    assert(strs_view(names@).contains(n));
                    let k = choose|k: int| 0 <= k < strs_view(names@).len() && strs_view(names@)[k] == n;
                    assert(names@[k]@ == n);
                }
            }
        }
        let mut frontier = roots_exec(&names, &inst);
        proof {
            assert forall|c: Seq<char>| #[trigger] names_of(frontier@).contains(c) <==> debug_level(items, 1).contains(c) by {
                if child_map(items).contains_key(c) {
                    assert(strs_view(names@).contains(c));
                    let k = choose|k: int| 0 <= k < strs_view(names@).len() && strs_view(names@)[k] == c;
                    assert(names@[k]@ == c);
                }
                if names_of(names@).contains(c) {
                    let k = choose|k: int| 0 <= k < names@.len() && #[trigger] names@[k]@ == c;
                    assert(child_map(items).contains_key(names@[k]@));
                }
            }
        }
        let mut result = NameSet::new();
        let depth: u64 = self.debug_depth as u64;
        let mut lvl: u64 = 1;
        proof {
            assert(result@ =~= debug_levels(items, 0));
        }
        while lvl <= depth
            invariant
                1 <= lvl <= depth + 1,
                depth == self.debug_depth,
                items == self.source.items@,
                lists_view(m@) == child_map(items),
                lvl <= depth ==> forall|c: Seq<char>| #[trigger] names_of(frontier@).contains(c) <==> debug_level(items, lvl as nat).contains(c),
                result@ == debug_levels(items, (lvl - 1) as nat),
            decreases depth + 1 - lvl,
        {
            insert_all(&mut result, &frontier);
            proof {
                assert(names_of(frontier@) =~= debug_level(items, lvl as nat));
                assert(result@ =~= debug_levels(items, lvl as nat));
            }
            if lvl < depth {
                let next = next_level(&frontier, &m);
                proof {
                    assert forall|c: Seq<char>| #[trigger] names_of(next@).contains(c) <==> debug_level(items, (lvl + 1) as nat).contains(c) by {
                        assert(debug_level(items, (lvl + 1) as nat).contains(c) == child_of(items, debug_level(items, lvl as nat), c));
                        if child_of(items, debug_level(items, lvl as nat), c) {
                            let p = choose|p: Seq<char>| #[trigger] debug_level(items, lvl as nat).contains(p) && child_map(items).contains_key(p) && child_map(items)[p].contains(c);
                            assert(names_of(frontier@).contains(p));
                        }
                        if names_of(next@).contains(c) {
                            let p = choose|p: Seq<char>| #[trigger] names_of(frontier@).contains(p) && lists_view(m@).contains_key(p) && lists_view(m@)[p].contains(c);
                            assert(debug_level(items, lvl as nat).contains(p));
                        }
                    }
                }
                frontier = next;
            }
            lvl = lvl + 1;
        }
        result
    }
}

} // verus!
