//! Text primitives for building generated C++: number formatting and a few
//! character-level string predicates, each stated over `Seq<char>`.
use vstd::prelude::*;
use vstd::string::*;

verus! {

/// Text of one decimal digit (`d < 10`).
pub open spec fn dec_digit(d: nat) -> Seq<char> {
    if d == 0 { "0"@ }
    else if d == 1 { "1"@ }
    else if d == 2 { "2"@ }
    else if d == 3 { "3"@ }
    else if d == 4 { "4"@ }
    else if d == 5 { "5"@ }
    else if d == 6 { "6"@ }
    else if d == 7 { "7"@ }
    else if d == 8 { "8"@ }
    else { "9"@ }
}

/// Text of one upper-case hexadecimal digit (`d < 16`).
pub open spec fn hex_digit_upper(d: nat) -> Seq<char> {
    if d < 10 { dec_digit(d) }
    else if d == 10 { "A"@ }
    else if d == 11 { "B"@ }
    else if d == 12 { "C"@ }
    else if d == 13 { "D"@ }
    else if d == 14 { "E"@ }
    else { "F"@ }
}

/// Text of one lower-case hexadecimal digit (`d < 16`).
pub open spec fn hex_digit_lower(d: nat) -> Seq<char> {
    if d < 10 { dec_digit(d) }
    else if d == 10 { "a"@ }
    else if d == 11 { "b"@ }
    else if d == 12 { "c"@ }
    else if d == 13 { "d"@ }
    else if d == 14 { "e"@ }
    else { "f"@ }
}

/// Decimal text of `n` without leading zeros (`format!("{n}")`).
pub open spec fn dec_str(n: nat) -> Seq<char>
    decreases n,
{
    if n < 10 { dec_digit(n) } else { dec_str(n / 10) + dec_digit(n % 10) }
}

/// Upper-case hexadecimal text of `n` without prefix (`format!("{n:X}")`).
pub open spec fn hex_upper(n: nat) -> Seq<char>
    decreases n,
{
    if n < 16 { hex_digit_upper(n) } else { hex_upper(n / 16) + hex_digit_upper(n % 16) }
}

/// Lower-case hexadecimal text of `n` without prefix (`format!("{n:x}")`).
pub open spec fn hex_lower(n: nat) -> Seq<char>
    decreases n,
{
    if n < 16 { hex_digit_lower(n) } else { hex_lower(n / 16) + hex_digit_lower(n % 16) }
}

fn dec_digit_str(d: u64) -> (r: &'static str)
    requires
        d < 10,
    ensures
        r@ == dec_digit(d as nat),
{
    if d == 0 { "0" }
    else if d == 1 { "1" }
    else if d == 2 { "2" }
    else if d == 3 { "3" }
    else if d == 4 { "4" }
    else if d == 5 { "5" }
    else if d == 6 { "6" }
    else if d == 7 { "7" }
    else if d == 8 { "8" }
    else { "9" }
}

fn hex_digit_str(d: u64, upper: bool) -> (r: &'static str)
    requires
        d < 16,
    ensures
        upper ==> r@ == hex_digit_upper(d as nat),
        !upper ==> r@ == hex_digit_lower(d as nat),
{
    if d < 10 {
        dec_digit_str(d)
    } else if upper {
        if d == 10 { "A" } else if d == 11 { "B" } else if d == 12 { "C" }
        else if d == 13 { "D" } else if d == 14 { "E" } else { "F" }
    } else {
        if d == 10 { "a" } else if d == 11 { "b" } else if d == 12 { "c" }
        else if d == 13 { "d" } else if d == 14 { "e" } else { "f" }
    }
}

/// Decimal text of `n`.
pub fn fmt_dec(n: u64) -> (s: String)
    ensures
        s@ == dec_str(n as nat),
    decreases n,
{
    if n < 10 {
        String::from_str(dec_digit_str(n))
    } else {
        let mut s = fmt_dec(n / 10);
        s.append(dec_digit_str(n % 10));
        s
    }
}

/// Upper-case hexadecimal text of `n`.
pub fn fmt_hex_upper(n: u64) -> (s: String)
    ensures
        s@ == hex_upper(n as nat),
    decreases n,
{
    if n < 16 {
        String::from_str(hex_digit_str(n, true))
    } else {
        let mut s = fmt_hex_upper(n / 16);
        s.append(hex_digit_str(n % 16, true));
        s
    }
}

/// Lower-case hexadecimal text of `n`.
pub fn fmt_hex_lower(n: u64) -> (s: String)
    ensures
        s@ == hex_lower(n as nat),
    decreases n,
{
    if n < 16 {
        String::from_str(hex_digit_str(n, false))
    } else {
        let mut s = fmt_hex_lower(n / 16);
        s.append(hex_digit_str(n % 16, false));
        s
    }
}

/// Whether two strings hold the same characters.
pub fn str_eq(a: &str, b: &str) -> (r: bool)
    ensures
        r == (a@ == b@),
{
    let n = a.unicode_len();
    let m = b.unicode_len();
    if n != m {
        return false;
    }
    let mut i: usize = 0;
    while i < n
        invariant
            n == a@.len(),
            m == b@.len(),
            n == m,
            i <= n,
            forall|j: int| 0 <= j < i ==> a@[j] == b@[j],
        decreases n - i,
    {
        if a.get_char(i) != b.get_char(i) {
            return false;
        }
        i = i + 1;
    }
    assert(a@ =~= b@);
    true
}

/// Whether `s` begins with `p`.
pub fn starts_with(s: &str, p: &str) -> (r: bool)
    ensures
        r == (p@.len() <= s@.len() && s@.subrange(0, p@.len() as int) == p@),
{
    let n = s.unicode_len();
    let m = p.unicode_len();
    if m > n {
        return false;
    }
    let mut i: usize = 0;
    while i < m
        invariant
            n == s@.len(),
            m == p@.len(),
            m <= n,
            i <= m,
            forall|j: int| 0 <= j < i ==> s@[j] == p@[j],
        decreases m - i,
    {
        if s.get_char(i) != p.get_char(i) {
            assert(s@.subrange(0, m as int)[i as int] != p@[i as int]);
            return false;
        }
        i = i + 1;
    }
    assert(s@.subrange(0, m as int) =~= p@);
    true
}

/// Append all of `t` to `s`.
pub fn push_str(s: &mut String, t: &str)
    ensures
        final(s)@ == old(s)@ + t@,
{
    s.append(t);
}

/// `s` with every non-overlapping occurrence of `pat`, scanned from the
/// left, replaced by `rep` (as `str::replace` does for a non-empty `pat`).
pub open spec fn replace_all(s: Seq<char>, pat: Seq<char>, rep: Seq<char>) -> Seq<char>
    recommends
        pat.len() > 0,
    decreases s.len(),
{
    if s.len() == 0 || pat.len() == 0 {
        s
    } else if pat.len() <= s.len() && s.subrange(0, pat.len() as int) == pat {
        rep + replace_all(s.subrange(pat.len() as int, s.len() as int), pat, rep)
    } else {
        s.subrange(0, 1) + replace_all(s.subrange(1, s.len() as int), pat, rep)
    }
}

/// Whether `pat` occurs in `s` at character position `i`.
fn matches_at(s: &str, i: usize, pat: &str) -> (r: bool)
    requires
        i <= s@.len(),
    ensures
        r == (pat@.len() <= s@.len() - i && s@.subrange(i as int, i + pat@.len()) == pat@),
{
    let n = s.unicode_len();
    let m = pat.unicode_len();
    if m > n - i {
        return false;
    }
    let mut j: usize = 0;
    while j < m
        invariant
            n == s@.len(),
            m == pat@.len(),
            i + m <= n,
            j <= m,
            forall|k: int| 0 <= k < j ==> s@[i + k] == pat@[k],
        decreases m - j,
    {
        if s.get_char(i + j) != pat.get_char(j) {
            assert(s@.subrange(i as int, i + m)[j as int] != pat@[j as int]);
            return false;
        }
        j = j + 1;
    }
    assert(s@.subrange(i as int, i + m) =~= pat@);
    true
}

/// Replace every occurrence of a non-empty `pat` in `s` by `rep`.
pub fn replace_str(s: &str, pat: &str, rep: &str) -> (r: String)
    requires
        pat@.len() > 0,
    ensures
        r@ == replace_all(s@, pat@, rep@),
{
    let n = s.unicode_len();
    let m = pat.unicode_len();
    let mut out = String::new();
    let mut i: usize = 0;
    assert(s@.subrange(0, n as int) =~= s@);
    assert(out@ + replace_all(s@, pat@, rep@) =~= replace_all(s@, pat@, rep@));
    while i < n
        invariant
            n == s@.len(),
            m == pat@.len(),
            m > 0,
            i <= n,
            replace_all(s@, pat@, rep@) == out@ + replace_all(
                s@.subrange(i as int, n as int),
                pat@,
                rep@,
            ),
        decreases n - i,
    {
        let ghost rest = s@.subrange(i as int, n as int);
        if matches_at(s, i, pat) {
            assert(rest.subrange(0, m as int) =~= s@.subrange(i as int, i + m));
            assert(rest.subrange(m as int, rest.len() as int) =~= s@.subrange(i + m, n as int));
            out.append(rep);
            i = i + m;
        } else {
            assert(!(m <= rest.len() && rest.subrange(0, m as int) == pat@)) by {
                if m <= rest.len() {
                    assert(rest.subrange(0, m as int) =~= s@.subrange(i as int, i + m));
                }
            }
            let c = s.substring_char(i, i + 1);
            assert(rest.subrange(0, 1) =~= c@);
            assert(rest.subrange(1, rest.len() as int) =~= s@.subrange(i + 1, n as int));
            out.append(c);
            i = i + 1;
        }
        assert((out@ + replace_all(s@.subrange(i as int, n as int), pat@, rep@))
            =~= out@ + replace_all(s@.subrange(i as int, n as int), pat@, rep@));
    }
    assert(s@.subrange(n as int, n as int).len() == 0);
    assert(out@ + replace_all(s@.subrange(n as int, n as int), pat@, rep@) =~= out@);
    out
}

} // verus!
