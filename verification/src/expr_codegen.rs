//! Lowering of HDL expressions to C++ expressions, and its text helpers.
use vstd::prelude::*;
use vstd::string::*;
use crate::text::{replace_all, replace_str};

verus! {

/// Floating-point format of a simulated signal or expression.
#[derive(Clone, Copy, Debug, PartialEq, Eq, Structural)]
pub enum FpFmt {
    Fp32,
    Bf16,
    E4m3,
    E5m2,
}

impl FpFmt {
    /// Suffix of the `_arch_fp.h` helper names (`_arch_f32_add`, ...).
    pub open spec fn helper_tag_spec(self) -> Seq<char> {
        match self {
            FpFmt::Fp32 => "f32"@,
            FpFmt::Bf16 => "bf16"@,
            FpFmt::E4m3 => "e4m3"@,
            FpFmt::E5m2 => "e5m2"@,
        }
    }

    pub fn helper_tag(self) -> (r: &'static str)
        ensures
            r@ == self.helper_tag_spec(),
    {
        match self {
            FpFmt::Fp32 => "f32",
            FpFmt::Bf16 => "bf16",
            FpFmt::E4m3 => "e4m3",
            FpFmt::E5m2 => "e5m2",
        }
    }
}

/// Text of `sv_fmt_to_printf`: each SystemVerilog format token replaced by
/// its printf equivalent, zero-padded tokens first.
pub open spec fn sv_fmt_to_printf_spec(s: Seq<char>) -> Seq<char> {
    let s1 = replace_all(s, "%0t"@, "%lu"@);
    let s2 = replace_all(s1, "%0d"@, "%lld"@);
    let s3 = replace_all(s2, "%0h"@, "%llx"@);
    let s4 = replace_all(s3, "%0b"@, "%llu"@);
    let s5 = replace_all(s4, "%t"@, "%lu"@);
    let s6 = replace_all(s5, "%h"@, "%llx"@);
    let s7 = replace_all(s6, "%d"@, "%lld"@);
    replace_all(s7, "%b"@, "%llu"@)
}

/// Convert SystemVerilog / ARCH format tokens to printf ones.
pub fn sv_fmt_to_printf(s: &str) -> (r: String)
    ensures
        r@ == sv_fmt_to_printf_spec(s@),
{
    proof {
        reveal_strlit("%0t");
        reveal_strlit("%0d");
        reveal_strlit("%0h");
        reveal_strlit("%0b");
        reveal_strlit("%t");
        reveal_strlit("%h");
        reveal_strlit("%d");
        reveal_strlit("%b");
    }
    let s1 = replace_str(s, "%0t", "%lu");
    let s2 = replace_str(s1.as_str(), "%0d", "%lld");
    let s3 = replace_str(s2.as_str(), "%0h", "%llx");
    let s4 = replace_str(s3.as_str(), "%0b", "%llu");
    let s5 = replace_str(s4.as_str(), "%t", "%lu");
    let s6 = replace_str(s5.as_str(), "%h", "%llx");
    let s7 = replace_str(s6.as_str(), "%d", "%lld");
    replace_str(s7.as_str(), "%b", "%llu")
}

/// `char::is_whitespace`: the Unicode `White_Space` code points.
pub open spec fn is_ws(c: char) -> bool {
    ('\u{9}' <= c && c <= '\u{d}') || c == ' ' || c == '\u{85}' || c == '\u{a0}' || c
        == '\u{1680}' || ('\u{2000}' <= c && c <= '\u{200a}') || c == '\u{2028}' || c
        == '\u{2029}' || c == '\u{202f}' || c == '\u{205f}' || c == '\u{3000}'
}

fn is_ws_exec(c: char) -> (r: bool)
    ensures
        r == is_ws(c),
{
    ('\u{9}' <= c && c <= '\u{d}') || c == ' ' || c == '\u{85}' || c == '\u{a0}' || c
        == '\u{1680}' || ('\u{2000}' <= c && c <= '\u{200a}') || c == '\u{2028}' || c
        == '\u{2029}' || c == '\u{202f}' || c == '\u{205f}' || c == '\u{3000}'
}

/// `s` without its leading whitespace.
pub open spec fn trim_start(s: Seq<char>) -> Seq<char>
    decreases s.len(),
{
    if s.len() > 0 && is_ws(s[0]) { trim_start(s.subrange(1, s.len() as int)) } else { s }
}

/// `s` without its trailing whitespace.
pub open spec fn trim_end(s: Seq<char>) -> Seq<char>
    decreases s.len(),
{
    if s.len() > 0 && is_ws(s.last()) { trim_end(s.drop_last()) } else { s }
}

/// `str::trim`.
pub open spec fn trim(s: Seq<char>) -> Seq<char> {
    trim_end(trim_start(s))
}

/// Net paren depth after the first `k` characters of `t`.
pub open spec fn paren_depth(t: Seq<char>, k: int) -> int
    decreases k,
{
    if k <= 0 {
        0
    } else {
        paren_depth(t, k - 1) + if t[k - 1] == '(' {
            1int
        } else if t[k - 1] == ')' {
            -1int
        } else {
            0int
        }
    }
}

/// Whether the whole (trimmed) text is one balanced parenthesised group:
/// it starts with `(`, ends with `)`, and the depth opened by the first
/// `(` stays open until the last character.
pub open spec fn fully_wrapped(s: Seq<char>) -> bool {
    let t = trim(s);
    &&& t.len() > 0
    &&& t[0] == '('
    &&& t.last() == ')'
    &&& forall|k: int| 1 <= k < t.len() ==> paren_depth(t, k) > 0
    &&& paren_depth(t, t.len() as int) == 0
}

proof fn lemma_trim_start_is_suffix(s: Seq<char>, a: int)
    requires
        0 <= a <= s.len(),
        forall|j: int| 0 <= j < a ==> is_ws(s[j]),
        a == s.len() || !is_ws(s[a]),
    ensures
        trim_start(s) == s.subrange(a, s.len() as int),
    decreases a,
{
    if a == 0 {
        assert(s.subrange(0, s.len() as int) =~= s);
    } else {
        let d = s.subrange(1, s.len() as int);
        lemma_trim_start_is_suffix(d, a - 1);
        assert(d.subrange(a - 1, d.len() as int) =~= s.subrange(a, s.len() as int));
    }
}

proof fn lemma_trim_end_is_prefix(s: Seq<char>, b: int)
    requires
        0 <= b <= s.len(),
        forall|j: int| b <= j < s.len() ==> is_ws(s[j]),
        b == 0 || !is_ws(s[b - 1]),
    ensures
        trim_end(s) == s.subrange(0, b),
    decreases s.len() - b,
{
    if b == s.len() {
        assert(s.subrange(0, b) =~= s);
    } else {
        let d = s.drop_last();
        lemma_trim_end_is_prefix(d, b);
        assert(d.subrange(0, b) =~= s.subrange(0, b));
    }
}

/// `str::trim`.
pub fn trim_str(s: &str) -> (r: &str)
    ensures
        r@ == trim(s@),
{
    let n = s.unicode_len();
    let mut a: usize = 0;
    while a < n && is_ws_exec(s.get_char(a))
        invariant
            n == s@.len(),
            a <= n,
            forall|j: int| 0 <= j < a ==> is_ws(s@[j]),
        decreases n - a,
    {
        a = a + 1;
    }
    let mut b: usize = n;
    while b > a && is_ws_exec(s.get_char(b - 1))
        invariant
            n == s@.len(),
            a <= b <= n,
            forall|j: int| b <= j < n ==> is_ws(s@[j]),
        decreases b,
    {
        b = b - 1;
    }
    proof {
        lemma_trim_start_is_suffix(s@, a as int);
        let t = s@.subrange(a as int, n as int);
        lemma_trim_end_is_prefix(t, (b - a) as int);
        assert(t.subrange(0, (b - a) as int) =~= s@.subrange(a as int, b as int));
    }
    s.substring_char(a, b)
}

/// Whether `s` (ignoring surrounding whitespace) is fully wrapped in one
/// balanced pair of parentheses: true for `(!busy)` and `(a + b)`, false
/// for `(uint8_t)(!busy)`, where the first `)` closes the cast.
pub fn is_fully_wrapped_in_parens(s: &str) -> (r: bool)
    requires
        s@.len() < u32::MAX,
    ensures
        r == fully_wrapped(s@),
{
    let t = trim_str(s);
    let n = t.unicode_len();
    proof {
        assert(trim_start(s@).len() <= s@.len()) by {
            lemma_trim_start_len(s@);
        }
        lemma_trim_end_len(trim_start(s@));
    }
    if n == 0 || t.get_char(0) != '(' || t.get_char(n - 1) != ')' {
        return false;
    }
    let mut depth: u32 = 0;
    let mut i: usize = 0;
    while i < n
        invariant
            n == t@.len(),
            t@ == trim(s@),
            n < u32::MAX,
            t@[0] == '(',
            0 <= i <= n,
            depth as int == paren_depth(t@, i as int),
            forall|k: int| 1 <= k <= i && k < n ==> paren_depth(t@, k) > 0,
            i > 0 ==> depth > 0 || i == n,
            depth <= i,
        decreases n - i,
    {
        let c = t.get_char(i);
        if c == '(' {
            depth = depth + 1;
        } else if c == ')' {
            depth = depth - 1;
            if depth == 0 && i < n - 1 {
                assert(paren_depth(t@, (i + 1) as int) == 0);
                assert(!fully_wrapped(s@)) by {
                    let k = (i + 1) as int;
                    assert(1 <= k < t@.len() && !(paren_depth(trim(s@), k) > 0));
                }
                return false;
            }
        }
        i = i + 1;
    }
    depth == 0
}

proof fn lemma_trim_start_len(s: Seq<char>)
    ensures
        trim_start(s).len() <= s.len(),
    decreases s.len(),
{
    if s.len() > 0 && is_ws(s[0]) {
        lemma_trim_start_len(s.subrange(1, s.len() as int));
    }
}

proof fn lemma_trim_end_len(s: Seq<char>)
    ensures
        trim_end(s).len() <= s.len(),
    decreases s.len(),
{
    if s.len() > 0 && is_ws(s.last()) {
        lemma_trim_end_len(s.drop_last());
    }
}

} // verus!
