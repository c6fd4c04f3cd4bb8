//! Route patterns: templates such as `/app/{name}` or `/b/{name}/{number}`,
//! held as one pattern segment per path segment, and matching a path
//! against them.
use vstd::prelude::*;
use crate::decimal::{lemma_numeral_of, lemma_numeral_round_trip, numeral_of, numeral_value, parse_numeral, push_numeral};
use crate::path::{has_no_slash, join_segments, lemma_split_join, path_segments, split_path, strings_view};

verus! {

/// One segment of a route pattern.
pub enum Segment {
    /// Matches exactly this text.
    Literal(String),
    /// Captures any non-empty segment as text.
    Text,
    /// Captures a segment that reads as a `u32`.
    Number,
}

/// A value captured from a path segment.
#[derive(Debug, PartialEq, Eq)]
pub enum Capture {
    Text(String),
    Number(u32),
}

pub enum SegmentView {
    Literal(Seq<char>),
    Text,
    Number,
}

pub enum CaptureView {
    Text(Seq<char>),
    Number(u32),
}

impl View for Segment {
    type V = SegmentView;

    open spec fn view(&self) -> SegmentView {
        match self {
            Segment::Literal(l) => SegmentView::Literal(l@),
            Segment::Text => SegmentView::Text,
            Segment::Number => SegmentView::Number,
        }
    }
}

impl View for Capture {
    type V = CaptureView;

    open spec fn view(&self) -> CaptureView {
        match self {
            Capture::Text(t) => CaptureView::Text(t@),
            Capture::Number(n) => CaptureView::Number(*n),
        }
    }
}

pub open spec fn pattern_view(p: Seq<Segment>) -> Seq<SegmentView> {
    p.map_values(|s: Segment| s@)
}

pub open spec fn captures_view(c: Seq<Capture>) -> Seq<CaptureView> {
    c.map_values(|x: Capture| x@)
}

pub open spec fn opt_captures_view(r: Option<Vec<Capture>>) -> Option<Seq<CaptureView>> {
    match r {
        Some(v) => Some(captures_view(v@)),
        None => None,
    }
}

/// How one pattern segment meets one path segment: `None` where it does not
/// match, `Some(None)` where a literal matches, `Some(Some(c))` where `c` is
/// captured.
pub open spec fn segment_capture(p: SegmentView, seg: Seq<char>) -> Option<Option<CaptureView>> {
    match p {
        SegmentView::Literal(l) => if seg == l {
            Some(None)
        } else {
            None
        },
        SegmentView::Text => if seg.len() > 0 {
            Some(Some(CaptureView::Text(seg)))
        } else {
            None
        },
        SegmentView::Number => match numeral_value(seg) {
            Some(n) => Some(Some(CaptureView::Number(n))),
            None => None,
        },
    }
}

/// The captures of a pattern on a path's segments, in order, or `None` where
/// the counts differ or a segment does not match.
pub open spec fn match_segments(pat: Seq<SegmentView>, segs: Seq<Seq<char>>) -> Option<
    Seq<CaptureView>,
>
    decreases pat.len(),
{
    if pat.len() != segs.len() {
        None
    } else if pat.len() == 0 {
        Some(Seq::<CaptureView>::empty())
    } else {
        match match_segments(pat.drop_last(), segs.drop_last()) {
            None => None,
            Some(cs) => match segment_capture(pat.last(), segs.last()) {
                None => None,
                Some(None) => Some(cs),
                Some(Some(c)) => Some(cs.push(c)),
            },
        }
    }
}

/// Matching a path against a pattern.
pub open spec fn match_path(pat: Seq<SegmentView>, path: Seq<char>) -> Option<Seq<CaptureView>> {
    match_segments(pat, path_segments(path))
}

/// A prefix that fails to match makes the whole fail.
proof fn lemma_prefix_fails(pat: Seq<SegmentView>, segs: Seq<Seq<char>>, k: int)
    requires
        pat.len() == segs.len(),
        0 <= k <= pat.len(),
        match_segments(pat.take(k), segs.take(k)) is None,
    ensures
        match_segments(pat, segs) is None,
    decreases pat.len(),
{
    if k == pat.len() {
        assert(pat.take(k) =~= pat);
        assert(segs.take(k) =~= segs);
    } else {
        assert(pat.drop_last().take(k) =~= pat.take(k));
        assert(segs.drop_last().take(k) =~= segs.take(k));
        lemma_prefix_fails(pat.drop_last(), segs.drop_last(), k);
    }
}

/// Matches one path segment against one pattern segment.
fn match_segment(p: &Segment, seg: &String) -> (r: Option<Option<Capture>>)
    ensures
        match r {
            None => segment_capture(p@, seg@) is None,
            Some(None) => segment_capture(p@, seg@) == Some(None::<CaptureView>),
            Some(Some(c)) => segment_capture(p@, seg@) == Some(Some(c@)),
        },
{
    match p {
        Segment::Literal(l) => {
            if l.eq(seg) {
                Some(None)
            } else {
                None
            }
        },
        Segment::Text => {
            if seg.as_str().unicode_len() > 0 {
                Some(Some(Capture::Text(seg.clone())))
            } else {
                None
            }
        },
        Segment::Number => match parse_numeral(seg.as_str()) {
            Some(n) => Some(Some(Capture::Number(n))),
            None => None,
        },
    }
}

/// Matches a path against a pattern: segment counts must agree, literals
/// must be equal, and each capture must take its segment.
pub fn match_pattern(pattern: &Vec<Segment>, path: &str) -> (r: Option<Vec<Capture>>)
    ensures
        opt_captures_view(r) == match_path(pattern_view(pattern@), path@),
{
    let segs = split_path(path);
    let ghost pat = pattern_view(pattern@);
    let ghost sv = strings_view(segs@);
    if pattern.len() != segs.len() {
        return None;
    }
    let mut caps: Vec<Capture> = Vec::new();
    let mut i: usize = 0;
    assert(pat.take(0) =~= Seq::<SegmentView>::empty());
    assert(sv.take(0) =~= Seq::<Seq<char>>::empty());
    while i < pattern.len()
        invariant
            pat == pattern_view(pattern@),
            sv == strings_view(segs@),
            sv == path_segments(path@),
            pattern@.len() == segs@.len(),
            i <= pattern@.len(),
            match_segments(pat.take(i as int), sv.take(i as int)) == Some(captures_view(caps@)),
        decreases pattern.len() - i,
    {
        let m = match_segment(&pattern[i], &segs[i]);
        let ghost prev = captures_view(caps@);
        assert(pat.take(i + 1).drop_last() =~= pat.take(i as int));
        assert(sv.take(i + 1).drop_last() =~= sv.take(i as int));
        assert(pat.take(i + 1).last() == pattern@[i as int]@);
        assert(sv.take(i + 1).last() == segs@[i as int]@);
        match m {
            None => {
                proof {
                    lemma_prefix_fails(pat, sv, i + 1);
                }
                return None;
            },
            Some(None) => {},
            Some(Some(c)) => {
                caps.push(c);
                assert(captures_view(caps@) =~= prev.push(c@));
            },
        }
        i = i + 1;
    }
    assert(pat.take(i as int) =~= pat);
    assert(sv.take(i as int) =~= sv);
    Some(caps)
}

pub open spec fn table_view(t: Seq<Vec<Segment>>) -> Seq<Seq<SegmentView>> {
    t.map_values(|p: Vec<Segment>| pattern_view(p@))
}

/// Matches a path against a table of patterns in order: the first pattern
/// that matches gives its index and captures, and where none matches the
/// result is `None`.
pub fn recognize(table: &Vec<Vec<Segment>>, path: &str) -> (r: Option<(usize, Vec<Capture>)>)
    ensures
        match r {
            Some((i, caps)) => {
                &&& i < table@.len()
                &&& match_path(table_view(table@)[i as int], path@) == Some(captures_view(caps@))
                &&& forall|j: int|
                    0 <= j < i ==> (#[trigger] match_path(table_view(table@)[j], path@)) is None
            },
            None => forall|j: int|
                0 <= j < table@.len() ==> (#[trigger] match_path(table_view(table@)[j], path@)) is None,
        },
{
    let mut i: usize = 0;
    while i < table.len()
        invariant
            i <= table@.len(),
            forall|j: int| 0 <= j < i ==> (#[trigger] match_path(table_view(table@)[j], path@)) is None,
        decreases table.len() - i,
    {
        let m = match_pattern(&table[i], path);
        assert(table_view(table@)[i as int] == pattern_view(table@[i as int]@));
        match m {
            Some(caps) => {
                return Some((i, caps));
            },
            None => {},
        }
        i = i + 1;
    }
    None
}

/// The text that a capture stands for in a path.
pub open spec fn capture_text(c: CaptureView) -> Seq<char> {
    match c {
        CaptureView::Text(t) => t,
        CaptureView::Number(n) => numeral_of(n as nat),
    }
}

/// The captures line up with the pattern's capture segments, in order and
/// kind.
pub open spec fn fits(pat: Seq<SegmentView>, caps: Seq<CaptureView>) -> bool
    decreases pat.len(),
{
    if pat.len() == 0 {
        caps.len() == 0
    } else {
        match pat.last() {
            SegmentView::Literal(_) => fits(pat.drop_last(), caps),
            SegmentView::Text => caps.len() > 0 && caps.last() is Text && fits(
                pat.drop_last(),
                caps.drop_last(),
            ),
            SegmentView::Number => caps.len() > 0 && caps.last() is Number && fits(
                pat.drop_last(),
                caps.drop_last(),
            ),
        }
    }
}

/// Each segment can be told apart in a path: no literal and no text capture
/// holds a `/`, and no text capture is empty.
pub open spec fn separable(pat: Seq<SegmentView>, caps: Seq<CaptureView>) -> bool {
    &&& forall|i: int|
        0 <= i < pat.len() ==> (#[trigger] pat[i] matches SegmentView::Literal(l) ==> has_no_slash(l))
    &&& forall|i: int|
        0 <= i < caps.len() ==> (#[trigger] caps[i] matches CaptureView::Text(t) ==> t.len() > 0
            && has_no_slash(t))
}

/// The path segments of a pattern filled with captures.
pub open spec fn filled_segments(pat: Seq<SegmentView>, caps: Seq<CaptureView>) -> Seq<Seq<char>>
    decreases pat.len(),
{
    if pat.len() == 0 {
        Seq::<Seq<char>>::empty()
    } else {
        match pat.last() {
            SegmentView::Literal(l) => filled_segments(pat.drop_last(), caps).push(l),
            _ => filled_segments(pat.drop_last(), caps.drop_last()).push(capture_text(caps.last())),
        }
    }
}

/// The path of a pattern filled with captures.
pub open spec fn filled_path(pat: Seq<SegmentView>, caps: Seq<CaptureView>) -> Seq<char> {
    join_segments(filled_segments(pat, caps))
}

proof fn lemma_filled_segments(pat: Seq<SegmentView>, caps: Seq<CaptureView>)
    requires
        fits(pat, caps),
        separable(pat, caps),
    ensures
        filled_segments(pat, caps).len() == pat.len(),
        forall|i: int|
            0 <= i < pat.len() ==> has_no_slash(#[trigger] filled_segments(pat, caps)[i]),
        match_segments(pat, filled_segments(pat, caps)) == Some(caps),
    decreases pat.len(),
{
    if pat.len() == 0 {
        assert(caps =~= Seq::<CaptureView>::empty());
    } else {
        let p = pat.drop_last();
        let f = filled_segments(pat, caps);
        let k = (pat.len() - 1) as int;
        assert(pat[k] == pat.last());
        let c = match pat.last() {
            SegmentView::Literal(_) => caps,
            _ => caps.drop_last(),
        };
        assert(separable(p, c)) by {
            assert forall|i: int| 0 <= i < p.len() implies (#[trigger] p[i] matches SegmentView::Literal(
                l,
            ) ==> has_no_slash(l)) by {
                assert(p[i] == pat[i]);
            }
            assert forall|i: int| 0 <= i < c.len() implies (#[trigger] c[i] matches CaptureView::Text(
                t,
            ) ==> t.len() > 0 && has_no_slash(t)) by {
                assert(c[i] == caps[i]);
            }
        }
        lemma_filled_segments(p, c);
        let fp = filled_segments(p, c);
        assert(f.drop_last() =~= fp);
        match pat.last() {
            SegmentView::Literal(l) => {},
            SegmentView::Text => {
                assert(caps[caps.len() - 1] == caps.last());
                assert(c.push(caps.last()) =~= caps);
            },
            SegmentView::Number => {
                let n = caps.last()->Number_0;
                lemma_numeral_of(n as nat);
                lemma_numeral_round_trip(n);
                assert(c.push(caps.last()) =~= caps);
            },
        }
        assert forall|i: int| 0 <= i < pat.len() implies has_no_slash(#[trigger] f[i]) by {
            if i < k {
                assert(f[i] == fp[i]);
            } else {
                assert(caps.len() > 0 ==> caps[caps.len() - 1] == caps.last());
            }
        }
    }
}

/// Filling a pattern and matching the result gives the captures back, where
/// each segment can be told apart.
pub proof fn lemma_fill_then_match(pat: Seq<SegmentView>, caps: Seq<CaptureView>)
    requires
        pat.len() >= 1,
        fits(pat, caps),
        separable(pat, caps),
    ensures
        match_path(pat, filled_path(pat, caps)) == Some(caps),
{
    lemma_filled_segments(pat, caps);
    lemma_split_join(filled_segments(pat, caps));
}

/// The path of the first `i` pattern segments filled with the first `k`
/// captures.
fn fill_prefix(pattern: &Vec<Segment>, captures: &Vec<Capture>, i: usize, k: usize) -> (r: String)
    requires
        i <= pattern@.len(),
        k <= captures@.len(),
        fits(pattern_view(pattern@).take(i as int), captures_view(captures@).take(k as int)),
    ensures
        r@ == filled_path(
            pattern_view(pattern@).take(i as int),
            captures_view(captures@).take(k as int),
        ),
        filled_segments(
            pattern_view(pattern@).take(i as int),
            captures_view(captures@).take(k as int),
        ).len() == i,
    decreases i,
{
    let ghost pat = pattern_view(pattern@).take(i as int);
    let ghost caps = captures_view(captures@).take(k as int);
    if i == 0 {
        return String::new();
    }
    assert(pat.drop_last() =~= pattern_view(pattern@).take(i - 1));
    assert(pat.last() == pattern@[i - 1]@);
    let ghost f = filled_segments(pat, caps);
    let mut out;
    match &pattern[i - 1] {
        Segment::Literal(l) => {
            assert(f.drop_last() =~= filled_segments(pat.drop_last(), caps));
            out = fill_prefix(pattern, captures, i - 1, k);
            if i > 1 {
                out.append("/");
                proof {
                    reveal_strlit("/");
                }
            }
            out.append(l.as_str());
        },
        _ => {
            assert(caps.drop_last() =~= captures_view(captures@).take(k - 1));
            assert(caps.last() == captures@[k - 1]@);
            assert(f.drop_last() =~= filled_segments(pat.drop_last(), caps.drop_last()));
            out = fill_prefix(pattern, captures, i - 1, k - 1);
            if i > 1 {
                out.append("/");
                proof {
                    reveal_strlit("/");
                }
            }
            match &captures[k - 1] {
                Capture::Text(t) => out.append(t.as_str()),
                Capture::Number(n) => push_numeral(&mut out, *n),
            }
        },
    }
    assert(out@ =~= filled_path(pat, caps));
    out
}

/// The path of a pattern filled with captures: literals as they are, text
/// captures as they are, numbers as their canonical numerals, joined with
/// `/`.
pub fn fill(pattern: &Vec<Segment>, captures: &Vec<Capture>) -> (r: String)
    requires
        fits(pattern_view(pattern@), captures_view(captures@)),
    ensures
        r@ == filled_path(pattern_view(pattern@), captures_view(captures@)),
{
    assert(pattern_view(pattern@).take(pattern@.len() as int) =~= pattern_view(pattern@));
    assert(captures_view(captures@).take(captures@.len() as int) =~= captures_view(captures@));
    fill_prefix(pattern, captures, pattern.len(), captures.len())
}

} // verus!
