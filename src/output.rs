//! Rendering of the selected lines. Writing is done by implementations of
//! `Output` outside this library; the library plans which parts of a line a
//! colour sink highlights.

use vstd::prelude::*;

verus! {

/// A renderer of the final lines, invoked once with all of them.
pub trait Output {
    fn output(&self, final_lines: Vec<String>);
}

/// A part of a line, by byte offsets, and whether it is highlighted.
#[derive(Clone, Copy, Debug, PartialEq, Eq, Structural)]
pub struct Segment {
    pub start: usize,
    pub end: usize,
    pub highlighted: bool,
}

/// The plain segment from `a` to `b`, if it is not empty.
pub open spec fn gap(a: int, b: int) -> Seq<Segment> {
    if a < b {
        seq![Segment { start: a as usize, end: b as usize, highlighted: false }]
    } else {
        seq![]
    }
}

/// The highlighted segment of a match, if it is not empty.
pub open spec fn mark(span: (usize, usize)) -> Seq<Segment> {
    if span.0 < span.1 {
        seq![Segment { start: span.0, end: span.1, highlighted: true }]
    } else {
        seq![]
    }
}

/// The segments of a line of `len` bytes from `pos` on, given the matches
/// that start at or after `pos`: the text before each match plain, the match
/// highlighted, and the text after the last match plain.
pub open spec fn plan_from(spans: Seq<(usize, usize)>, pos: int, len: int) -> Seq<Segment>
    decreases spans.len(),
{
    if spans.len() == 0 {
        gap(pos, len)
    } else {
        gap(pos, spans[0].0 as int) + mark(spans[0]) + plan_from(spans.drop_first(), spans[0].1 as int, len)
    }
}

/// The matches lie in order within a line of `len` bytes, none overlapping the next.
pub open spec fn spans_ordered(spans: Seq<(usize, usize)>, len: int) -> bool {
    &&& forall|k: int| 0 <= k < spans.len() ==> (#[trigger] spans[k]).0 <= spans[k].1 <= len
    &&& forall|k: int| 0 < k < spans.len() ==> spans[k - 1].1 <= (#[trigger] spans[k]).0
}

/// Cuts a line of `len` bytes into plain and highlighted segments around the
/// given matches. A line without matches is one plain segment (none if empty).
pub fn plan_segments(len: usize, spans: &Vec<(usize, usize)>) -> (r: Vec<Segment>)
    requires
        spans_ordered(spans@, len as int),
    ensures
        r@ == plan_from(spans@, 0, len as int),
{
    let mut r: Vec<Segment> = Vec::new();
    let mut pos: usize = 0;
    let mut k: usize = 0;
    assert(spans@.subrange(0, spans@.len() as int) =~= spans@);
    while k < spans.len()
        invariant
            k <= spans@.len(),
            spans_ordered(spans@, len as int),
            pos <= len,
            k > 0 ==> pos == spans@[k - 1].1,
            k == 0 ==> pos == 0,
            r@ + plan_from(spans@.subrange(k as int, spans@.len() as int), pos as int, len as int)
                == plan_from(spans@, 0, len as int),
        decreases spans@.len() - k,
    {
        let ghost rest = spans@.subrange(k as int, spans@.len() as int);
        let ghost prev = r@;
        let (s, e) = spans[k];
        if pos < s {
            r.push(Segment { start: pos, end: s, highlighted: false });
        }
        if s < e {
            r.push(Segment { start: s, end: e, highlighted: true });
        }
        proof {
            assert(rest.drop_first() =~= spans@.subrange(k + 1, spans@.len() as int));
            assert(r@ =~= prev + gap(pos as int, s as int) + mark((s, e)));
        }
        pos = e;
        k = k + 1;
    }
    let ghost prev = r@;
    if pos < len {
        r.push(Segment { start: pos, end: len, highlighted: false });
    }
    assert(r@ =~= prev + gap(pos as int, len as int));
    r
}

} // verus!
