//! Flat names of the ports of an arbiter's port arrays: an instance
//! connection `<group><index>_<signal>` names element `index` of the port
//! array `group`.
use vstd::prelude::*;
use crate::arbiter::arbiter_named;
use crate::ast::{InstDecl, Item, PortArray, PortDecl};
use crate::const_eval::{const_eval, eval_const_expr_with_overrides, with_overrides};
use crate::sim::SimCodegen;
use vstd::string::*;
use crate::text::{push_str, str_eq};

verus! {

/// Position of the last `'_'` among the first `end` characters.
pub open spec fn last_underscore(s: Seq<char>, end: int) -> Option<int>
    decreases end,
{
    if end <= 0 {
        None
    } else if s[end - 1] == '_' {
        Some(end - 1)
    } else {
        last_underscore(s, end - 1)
    }
}

/// Whether `c` is an ASCII decimal digit.
pub open spec fn is_digit_char(c: char) -> bool {
    '0' <= c && c <= '9'
}

/// Start of the run of digits that ends at `end`.
pub open spec fn digit_run_start(s: Seq<char>, end: int) -> int
    decreases end,
{
    if end > 0 && is_digit_char(s[end - 1]) {
        digit_run_start(s, end - 1)
    } else {
        end
    }
}

/// The decimal value of a string of digits.
pub open spec fn digits_value(s: Seq<char>) -> nat
    decreases s.len(),
{
    if s.len() == 0 {
        0
    } else {
        digits_value(s.drop_last()) * 10 + ((s.last() as int - '0' as int) as nat)
    }
}

/// Position of the first port array at or after `i` named `n`.
pub open spec fn port_array_named(arrays: Seq<PortArray>, n: Seq<char>, i: int) -> Option<int>
    decreases arrays.len() - i,
{
    if i < 0 || i >= arrays.len() {
        None
    } else if arrays[i].name.name@ == n {
        Some(i)
    } else {
        port_array_named(arrays, n, i + 1)
    }
}

/// Whether one of `signals` is named `n`.
pub open spec fn has_signal(signals: Seq<PortDecl>, n: Seq<char>) -> bool {
    exists|j: int| 0 <= j < signals.len() && #[trigger] signals[j].name.name@ == n
}

/// The flat port `<group>_<signal>` and element index that the connection
/// port `port` of `inst` names, when `port` is `<group><digits>_<signal>`
/// (split at its last `'_'`, the digits being the longest run before it),
/// `group` is non-empty, the digits fit in 64 bits, the instantiated
/// arbiter has a port array `group` with a signal `signal`, and the index
/// is below the array's element count (folded with the instance's
/// parameter assignments; 0 where it does not fold).
pub open spec fn indexed_port(items: Seq<Item>, inst: InstDecl, port: Seq<char>) -> Option<(Seq<char>, u64)> {
    match last_underscore(port, port.len() as int) {
        None => None,
        Some(k) => {
            let ds = digit_run_start(port, k);
            let index = digits_value(port.subrange(ds, k));
            if ds == k || index > u64::MAX || ds == 0 {
                None
            } else {
                match arbiter_named(items, inst.module_name.name@, 0) {
                    None => None,
                    Some(a) => match port_array_named(a.port_arrays@, port.subrange(0, ds), 0) {
                        None => None,
                        Some(p) => {
                            let pa = a.port_arrays@[p];
                            let count = match const_eval(
                                pa.count_expr,
                                with_overrides(a.params@, inst.param_assigns@),
                                Set::empty(),
                            ) {
                                Some(v) => v,
                                None => 0,
                            };
                            if !has_signal(pa.signals@, port.subrange(k + 1, port.len() as int)) || index
                                >= count {
                                None
                            } else {
                                Some((port.subrange(0, ds) + port.subrange(k, port.len() as int), index as u64))
                            }
                        },
                    },
                }
            }
        },
    }
}

proof fn lemma_digits_value_grows(s: Seq<char>, j: int)
    requires
        0 <= j <= s.len(),
    ensures
        digits_value(s.take(j)) <= digits_value(s),
    decreases s.len() - j,
{
    if j < s.len() {
        lemma_digits_value_grows(s.drop_last(), if j <= s.len() - 1 { j } else { j - 1 });
        assert(s.drop_last().take(j) =~= s.take(j));
    } else {
        assert(s.take(j) =~= s);
    }
}

impl<'a> SimCodegen<'a> {
    /// The flat port name and element index that an instance's connection
    /// port names in the instantiated arbiter's port arrays (see
    /// [`indexed_port`]).
    pub fn indexed_arbiter_port(&self, inst: &InstDecl, port_name: &str) -> (r: Option<(String, u64)>)
        ensures
            match r {
                Some((name, index)) => indexed_port(self.source.items@, *inst, port_name@) == Some(
                    (name@, index),
                ),
                None => indexed_port(self.source.items@, *inst, port_name@) is None,
            },
    {
        let ghost s = port_name@;
        let n = port_name.unicode_len();
        let mut k: usize = n;
        while k > 0 && port_name.get_char(k - 1) != '_'
            invariant
                k <= n,
                n == s.len(),
                s == port_name@,
                last_underscore(s, n as int) == last_underscore(s, k as int),
            decreases k,
        {
            k = k - 1;
        }
        if k == 0 {
            return None;
        }
        let k = k - 1;
        assert(last_underscore(s, n as int) == Some(k as int));
        let mut ds: usize = k;
        while ds > 0 && '0' <= port_name.get_char(ds - 1) && port_name.get_char(ds - 1) <= '9'
            invariant
                ds <= k < n,
                n == s.len(),
                s == port_name@,
                digit_run_start(s, k as int) == digit_run_start(s, ds as int),
                forall|t: int| ds <= t < k ==> is_digit_char(#[trigger] s[t]),
            decreases ds,
        {
            ds = ds - 1;
        }
        assert(digit_run_start(s, k as int) == ds);
        if ds == k {
            return None;
        }
        let ghost digits = s.subrange(ds as int, k as int);
        let mut index: u64 = 0;
        let mut j: usize = ds;
        assert(digits.take(0) =~= Seq::<char>::empty());
        while j < k
            invariant
                ds <= j <= k < n,
                n == s.len(),
                s == port_name@,
                digits == s.subrange(ds as int, k as int),
                forall|t: int| ds <= t < k ==> is_digit_char(#[trigger] s[t]),
                last_underscore(s, s.len() as int) == Some(k as int),
                digit_run_start(s, k as int) == ds as int,
                ds < k,
                index == digits_value(digits.take(j - ds)),
            decreases k - j,
        {
            let c = port_name.get_char(j);
            let d: u64 = (c as u32 - 48) as u64;
            proof {
                let t = digits.take(j - ds + 1);
                assert(t.drop_last() =~= digits.take(j - ds));
                assert(t.last() == c);
            }
            if index > 1844674407370955161 || (index == 1844674407370955161 && d > 5) {
                proof {
                    let t = digits.take(j - ds + 1);
                    assert(t.drop_last() =~= digits.take(j - ds));
                    assert(d as int == (t.last() as int - '0' as int));
                    assert(digits_value(t) == index * 10 + d);
                    assert(digits_value(t) > u64::MAX);
                    lemma_digits_value_grows(digits, j - ds + 1);
                }
                return None;
            }
            index = index * 10 + d;
            j = j + 1;
        }
        assert(digits.take(k - ds) =~= digits);
        if ds == 0 {
            return None;
        }
        let group = port_name.substring_char(0, ds);
        let signal = port_name.substring_char(k + 1, n);
        let arbiter = match self.lookup_inst_arbiter(inst.module_name.name.as_str()) {
            Some(a) => a,
            None => return None,
        };
        let arrays = &arbiter.port_arrays;
        let mut p: usize = 0;
        while p < arrays.len() && !str_eq(arrays[p].name.name.as_str(), group)
            invariant
                p <= arrays@.len(),
                arrays == &arbiter.port_arrays,
                port_array_named(arrays@, group@, 0) == port_array_named(arrays@, group@, p as int),
            decreases arrays@.len() - p,
        {
            p = p + 1;
        }
        if p == arrays.len() {
            return None;
        }
        let pa = &arrays[p];
        let mut found = false;
        let mut q: usize = 0;
        while q < pa.signals.len()
            invariant
                q <= pa.signals@.len(),
                found == exists|t: int| 0 <= t < q && #[trigger] pa.signals@[t].name.name@ == signal@,
            decreases pa.signals@.len() - q,
        {
            if str_eq(pa.signals[q].name.name.as_str(), signal) {
                found = true;
            }
            q = q + 1;
        }
        if !found {
            return None;
        }
        let count = eval_const_expr_with_overrides(
            &pa.count_expr,
            arbiter.params.as_slice(),
            inst.param_assigns.as_slice(),
        );
        if index >= count {
            return None;
        }
        let mut name = String::from_str(group);
        push_str(&mut name, port_name.substring_char(k, n));
        Some((name, index))
    }
}

} // verus!
