//! Mapping of byte offsets in the concatenated source back to file and
//! line, and the per-module registry of coverage points.
use vstd::prelude::*;
use vstd::utf8::is_char_boundary;
use vstd::string::*;

verus! {

/// Source segments `(start offset, file path, text)`, sorted by start.
#[derive(Clone, Debug)]
pub struct SourceMap {
    segments: Vec<(usize, String, String)>,
}

/// View of a segment.
pub open spec fn seg_view(s: (usize, String, String)) -> (usize, Seq<char>, Seq<char>) {
    (s.0, s.1@, s.2@)
}

/// `xs` with `x` inserted after every element whose start is at most
/// `x`'s start (stable insertion into a start-sorted list).
pub open spec fn insert_by_start(
    xs: Seq<(usize, Seq<char>, Seq<char>)>,
    x: (usize, Seq<char>, Seq<char>),
) -> Seq<(usize, Seq<char>, Seq<char>)>
    decreases xs.len(),
{
    if xs.len() == 0 {
        seq![x]
    } else if xs.last().0 <= x.0 {
        xs.push(x)
    } else {
        insert_by_start(xs.drop_last(), x).push(xs.last())
    }
}

/// Stable sort of segments by start offset.
pub open spec fn sort_by_start(xs: Seq<(usize, Seq<char>, Seq<char>)>) -> Seq<(usize, Seq<char>, Seq<char>)>
    decreases xs.len(),
{
    if xs.len() == 0 {
        seq![]
    } else {
        insert_by_start(sort_by_start(xs.drop_last()), xs.last())
    }
}

impl View for SourceMap {
    type V = Seq<(usize, Seq<char>, Seq<char>)>;

    closed spec fn view(&self) -> Seq<(usize, Seq<char>, Seq<char>)> {
        self.segments@.map_values(|s: (usize, String, String)| seg_view(s))
    }
}

/// Insert `x` into the start-sorted `v`, after the elements whose start is
/// at most `x`'s start.
fn insert_segment(v: &mut Vec<(usize, String, String)>, x: (usize, String, String))
    ensures
        final(v)@.map_values(|s: (usize, String, String)| seg_view(s)) == insert_by_start(
            old(v)@.map_values(|s: (usize, String, String)| seg_view(s)),
            seg_view(x),
        ),
{
    let ghost v0 = old(v)@.map_values(|s: (usize, String, String)| seg_view(s));
    let mut j: usize = v.len();
    assert(v0.take(j as int) =~= v0);
    assert(insert_by_start(v0, seg_view(x)) =~= insert_by_start(v0.take(j as int), seg_view(x))
        + v0.skip(j as int));
    while j > 0 && v[j - 1].0 > x.0
        invariant
            j <= v@.len(),
            v@ == old(v)@,
            v0 == old(v)@.map_values(|s: (usize, String, String)| seg_view(s)),
            forall|k: int| j <= k < v@.len() ==> v@[k].0 > x.0,
            insert_by_start(v0, seg_view(x)) == insert_by_start(
                v0.take(j as int),
                seg_view(x),
            ) + v0.skip(j as int),
        decreases j,
    {
        proof {
            let t = v0.take(j as int);
            assert(t.drop_last() =~= v0.take(j - 1));
            assert(t.last() == v0[j - 1]);
            assert(v0.skip(j - 1) =~= seq![v0[j - 1]] + v0.skip(j as int));
            assert(insert_by_start(t, seg_view(x)) == insert_by_start(t.drop_last(), seg_view(x)).push(
                t.last(),
            ));
            assert(insert_by_start(v0.take(j - 1), seg_view(x)).push(v0[j - 1]) + v0.skip(
                j as int,
            ) =~= insert_by_start(v0.take(j - 1), seg_view(x)) + v0.skip(j - 1));
        }
        j = j - 1;
    }
    proof {
        let t = v0.take(j as int);
        if j > 0 {
            assert(t.last() == v0[j - 1]);
            assert(insert_by_start(t, seg_view(x)) == t.push(seg_view(x)));
        } else {
            assert(t =~= Seq::<(usize, Seq<char>, Seq<char>)>::empty());
        }
    }
    v.insert(j, x);
    proof {
        let t = v0.take(j as int);
        assert(v@.map_values(|s: (usize, String, String)| seg_view(s)) =~= t.push(seg_view(x))
            + v0.skip(j as int));
    }
}

impl Default for SourceMap {
    /// The source map with no segments.
    fn default() -> (r: SourceMap)
        ensures
            r@ == Seq::<(usize, Seq<char>, Seq<char>)>::empty(),
    {
        let r = SourceMap { segments: Vec::new() };
        assert(r@ =~= Seq::<(usize, Seq<char>, Seq<char>)>::empty());
        r
    }
}

impl SourceMap {
    /// A source map over `segments`, sorted (stably) by start offset.
    pub fn new(segments: Vec<(usize, String, String)>) -> (r: SourceMap)
        ensures
            r@ == sort_by_start(segments@.map_values(|s: (usize, String, String)| seg_view(s))),
    {
        let ghost input = segments@.map_values(|s: (usize, String, String)| seg_view(s));
        let mut sorted: Vec<(usize, String, String)> = Vec::new();
        let ghost orig = segments@;
        let ghost n = input.len();
        let total = segments.len();
        assert(n == total);
        let mut src = segments;
        let mut rest: Vec<(usize, String, String)> = Vec::new();
        while src.len() > 0
            invariant
                n == orig.len(),
                n == input.len(),
                input == orig.map_values(|s: (usize, String, String)| seg_view(s)),
                src@ == orig.take(src@.len() as int),
                rest@.len() + src@.len() == n,
                forall|k: int| 0 <= k < rest@.len() ==> #[trigger] rest@[k] == orig[n - 1 - k],
            decreases src@.len(),
        {
            let x = src.pop().unwrap();
            rest.push(x);
        }
        assert(sorted@.map_values(|s: (usize, String, String)| seg_view(s)) =~= sort_by_start(
            input.take(0),
        ));
        let mut i: usize = 0;
        while rest.len() > 0
            invariant
                n == input.len(),
                n <= usize::MAX,
                i + rest@.len() == n,
                forall|k: int|
                    0 <= k < rest@.len() ==> seg_view(#[trigger] rest@[k]) == input[i + rest@.len() - 1 - k],
                sorted@.map_values(|s: (usize, String, String)| seg_view(s)) == sort_by_start(
                    input.take(i as int),
                ),
            decreases rest@.len(),
        {
            let x = rest.pop().unwrap();
            assert(seg_view(x) == input[i as int]);
            proof {
                let t = input.take(i as int + 1);
                assert(t.drop_last() =~= input.take(i as int));
                assert(t.last() == input[i as int]);
            }
            insert_segment(&mut sorted, x);
            i = i + 1;
        }
        assert(input.take(n as int) =~= input);
        SourceMap { segments: sorted }
    }
}

/// Whether segment `i` holds `offset`: at or past its start and before
/// the next segment's start (or any offset past the last start).
pub open spec fn seg_holds(segs: Seq<(usize, Seq<char>, Seq<char>)>, i: int, offset: usize) -> bool {
    &&& offset >= segs[i].0
    &&& (i + 1 < segs.len() ==> offset < segs[i + 1].0)
    &&& (i + 1 >= segs.len() ==> offset < usize::MAX)
}

/// Number of newline bytes in `b`.
pub open spec fn newline_count(b: Seq<u8>) -> nat
    decreases b.len(),
{
    if b.len() == 0 {
        0
    } else {
        newline_count(b.drop_last()) + if b.last() == 10u8 { 1nat } else { 0nat }
    }
}

/// Result of `locate` from segment `i` on: the first segment holding the
/// offset decides; an offset past that segment's text has no location.
pub open spec fn locate_from(segs: Seq<(usize, Seq<char>, Seq<char>)>, offset: usize, i: int) -> Option<(Seq<char>, u32)>
    decreases segs.len() - i,
{
    if i < 0 || i >= segs.len() {
        None
    } else if seg_holds(segs, i, offset) {
        let local = offset - segs[i].0;
        let bytes = vstd::utf8::encode_utf8(segs[i].2);
        if local > bytes.len() {
            None
        } else {
            Some((segs[i].1, (1 + newline_count(bytes.take(local))) as u32))
        }
    } else {
        locate_from(segs, offset, i + 1)
    }
}

/// What `locate` needs of a holding segment: its text fits a `u32` line
/// count and the offset does not fall inside a multi-byte character.
pub open spec fn locate_ok(segs: Seq<(usize, Seq<char>, Seq<char>)>, offset: usize) -> bool {
    forall|i: int|
        0 <= i < segs.len() && #[trigger] seg_holds(segs, i, offset) ==> {
            let bytes = vstd::utf8::encode_utf8(segs[i].2);
            let local = offset - segs[i].0;
            &&& bytes.len() < u32::MAX
            &&& local <= bytes.len() ==> is_char_boundary(bytes, local)
        }
}

pub proof fn lemma_newline_count_le(b: Seq<u8>)
    ensures
        newline_count(b) <= b.len(),
    decreases b.len(),
{
    if b.len() > 0 {
        lemma_newline_count_le(b.drop_last());
    }
}

impl SourceMap {
    /// File path and 1-based line of a byte offset into the concatenated
    /// source, or `None` when no segment holds it.
    pub fn locate(&self, offset: usize) -> (r: Option<(&str, u32)>)
        requires
            locate_ok(self@, offset),
        ensures
            match r {
                Some((f, l)) => locate_from(self@, offset, 0) == Some((f@, l)),
                None => locate_from(self@, offset, 0) is None,
            },
    {
        let ghost segs = self@;
        let mut i: usize = 0;
        while i < self.segments.len()
            invariant
                segs == self@,
                i <= segs.len(),
                locate_ok(segs, offset),
                locate_from(segs, offset, 0) == locate_from(segs, offset, i as int),
            decreases segs.len() - i,
        {
            let start = self.segments[i].0;
            let next_start: usize = if i + 1 < self.segments.len() {
                self.segments[i + 1].0
            } else {
                usize::MAX
            };
            if offset >= start && offset < next_start {
                assert(seg_holds(segs, i as int, offset));
                let local = offset - start;
                let src = self.segments[i].2.as_str();
                let bytes = src.as_bytes();
                if local > bytes.len() {
                    return None;
                }
                let mut count: usize = 0;
                let mut k: usize = 0;
                while k < local
                    invariant
                        bytes@ == vstd::utf8::encode_utf8(segs[i as int].2),
                        local <= bytes@.len(),
                        k <= local,
                        count == newline_count(bytes@.take(k as int)),
                        count <= k,
                    decreases local - k,
                {
                    assert(bytes@.take(k as int + 1).drop_last() =~= bytes@.take(k as int));
                    if bytes[k] == 10u8 {
                        count = count + 1;
                    }
                    k = k + 1;
                }
                proof {
                    lemma_newline_count_le(bytes@.take(local as int));
                }
                let line: u32 = 1 + count as u32;
                return Some((self.segments[i].1.as_str(), line));
            }
            i = i + 1;
        }
        None
    }
}

/// One coverage point recorded while generating a module: its kind
/// (`"if"`, `"else"`, `"expr-then"`, ...), the byte offset of its
/// condition, and a short label.
pub struct CovPoint {
    pub kind: &'static str,
    pub span_start: usize,
    pub label: String,
}

/// Per-module coverage state; point ids are positions in `points`.
pub struct CoverageRegistry {
    pub points: Vec<CovPoint>,
}

impl CoverageRegistry {
    /// An empty registry.
    pub fn new() -> (r: CoverageRegistry)
        ensures
            r.points@.len() == 0,
    {
        CoverageRegistry { points: Vec::new() }
    }

    /// Record a new point and return its id (the number of points before).
    pub fn alloc_point(&mut self, kind: &'static str, span_start: usize, label: String) -> (r: usize)
        ensures
            r == old(self).points@.len(),
            final(self).points@ == old(self).points@.push(CovPoint { kind, span_start, label }),
    {
        let idx = self.points.len();
        self.points.push(CovPoint { kind, span_start, label });
        idx
    }
}

} // verus!
