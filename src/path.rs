//! A URL path as a sequence of `/`-separated segments.
use vstd::prelude::*;

verus! {

/// The segments of a path, split at every `/`. The empty path has one,
/// empty, segment; a leading `/` gives an empty first segment.
pub open spec fn path_segments(s: Seq<char>) -> Seq<Seq<char>>
    decreases s.len(),
{
    if s.len() == 0 {
        seq![Seq::<char>::empty()]
    } else {
        let r = path_segments(s.drop_last());
        if s.last() == '/' {
            r.push(Seq::<char>::empty())
        } else {
            r.update(r.len() - 1, r.last().push(s.last()))
        }
    }
}

/// The segments joined with `/` between each two.
pub open spec fn join_segments(segs: Seq<Seq<char>>) -> Seq<char>
    decreases segs.len(),
{
    if segs.len() == 0 {
        Seq::<char>::empty()
    } else if segs.len() == 1 {
        segs[0]
    } else {
        join_segments(segs.drop_last()) + seq!['/'] + segs.last()
    }
}

pub open spec fn has_no_slash(s: Seq<char>) -> bool {
    forall|i: int| 0 <= i < s.len() ==> #[trigger] s[i] != '/'
}

pub open spec fn strings_view(v: Seq<String>) -> Seq<Seq<char>> {
    v.map_values(|x: String| x@)
}

pub proof fn lemma_segments_nonempty(s: Seq<char>)
    ensures
        path_segments(s).len() >= 1,
    decreases s.len(),
{
    if s.len() > 0 {
        lemma_segments_nonempty(s.drop_last());
    }
}

/// Text without `/` extends the last segment.
proof fn lemma_segments_extend(a: Seq<char>, b: Seq<char>)
    requires
        has_no_slash(b),
    ensures
        path_segments(a + b) == path_segments(a).update(
            path_segments(a).len() - 1,
            path_segments(a).last() + b,
        ),
    decreases b.len(),
{
    lemma_segments_nonempty(a);
    let r = path_segments(a);
    if b.len() == 0 {
        assert(a + b =~= a);
        assert(r.last() + b =~= r.last());
        assert(r.update(r.len() - 1, r.last() + b) =~= r);
    } else {
        let b0 = b.drop_last();
        assert((a + b).drop_last() =~= a + b0);
        assert((a + b).last() == b.last());
        assert(b.last() == b[b.len() - 1]);
        lemma_segments_extend(a, b0);
        let r0 = r.update(r.len() - 1, r.last() + b0);
        assert(r0.last() == r.last() + b0);
        assert((r.last() + b0).push(b.last()) =~= r.last() + b);
        assert(r0.update(r0.len() - 1, r0.last().push(b.last())) =~= r.update(
            r.len() - 1,
            r.last() + b,
        ));
    }
}

/// Splitting the joined segments gives them back, where none holds a `/`.
pub proof fn lemma_split_join(segs: Seq<Seq<char>>)
    requires
        segs.len() >= 1,
        forall|i: int| 0 <= i < segs.len() ==> has_no_slash(#[trigger] segs[i]),
    ensures
        path_segments(join_segments(segs)) == segs,
    decreases segs.len(),
{
    let e = Seq::<char>::empty();
    if segs.len() == 1 {
        lemma_segments_extend(e, segs[0]);
        assert(e + segs[0] =~= segs[0]);
        assert(seq![e].update(0, e + segs[0]) =~= segs);
    } else {
        let p = segs.drop_last();
        assert forall|i: int| 0 <= i < p.len() implies has_no_slash(#[trigger] p[i]) by {
            assert(p[i] == segs[i]);
        }
        lemma_split_join(p);
        let a = join_segments(p) + seq!['/'];
        assert(a.drop_last() =~= join_segments(p));
        assert(path_segments(a) == p.push(e));
        assert(has_no_slash(segs[segs.len() - 1]));
        lemma_segments_extend(a, segs.last());
        assert(e + segs.last() =~= segs.last());
        assert(p.push(e).update(p.len() as int, e + segs.last()) =~= segs);
    }
}

proof fn lemma_join_extend_last(r: Seq<Seq<char>>, c: char)
    requires
        r.len() >= 1,
    ensures
        join_segments(r.update(r.len() - 1, r.last().push(c))) == join_segments(r).push(c),
{
    let u = r.update(r.len() - 1, r.last().push(c));
    if r.len() > 1 {
        assert(u.drop_last() =~= r.drop_last());
        assert(join_segments(u) =~= join_segments(r).push(c));
    }
}

/// Joining the segments of a path gives the path back.
pub proof fn lemma_join_split(s: Seq<char>)
    ensures
        join_segments(path_segments(s)) == s,
    decreases s.len(),
{
    if s.len() > 0 {
        let p = s.drop_last();
        lemma_join_split(p);
        lemma_segments_nonempty(p);
        let r = path_segments(p);
        if s.last() == '/' {
            assert(r.push(Seq::<char>::empty()).drop_last() =~= r);
            assert(join_segments(r.push(Seq::<char>::empty())) =~= s);
        } else {
            lemma_join_extend_last(r, s.last());
            assert(p.push(s.last()) =~= s);
        }
    }
}

/// Splits a path at every `/`.
pub fn split_path(path: &str) -> (r: Vec<String>)
    ensures
        strings_view(r@) == path_segments(path@),
{
    let n = path.unicode_len();
    let mut done: Vec<String> = Vec::new();
    let mut cur = String::new();
    let mut i: usize = 0;
    assert(path@.take(0) =~= Seq::<char>::empty());
    while i < n
        invariant
            n == path@.len(),
            i <= n,
            strings_view(done@).push(cur@) == path_segments(path@.take(i as int)),
        decreases n - i,
    {
        let c = path.get_char(i);
        let ghost before = path@.take(i as int);
        assert(path@.take(i + 1).drop_last() =~= before);
        assert(path@.take(i + 1).last() == c);
        if c == '/' {
            let ghost old_done = done@;
            let ghost old_cur = cur@;
            done.push(cur);
            cur = String::new();
            assert(strings_view(done@) =~= strings_view(old_done).push(old_cur));
        } else {
            let ghost old_cur = cur@;
            let one = path.substring_char(i, i + 1);
            assert(one@ =~= seq![c]);
            cur.append(one);
            assert(cur@ =~= old_cur.push(c));
            let ghost sv = strings_view(done@).push(old_cur);
            assert(strings_view(done@).push(cur@) =~= sv.update(sv.len() - 1, sv.last().push(c)));
        }
        i = i + 1;
    }
    assert(path@.take(n as int) =~= path@);
    let ghost old_done = done@;
    let ghost last = cur@;
    done.push(cur);
    assert(strings_view(done@) =~= strings_view(old_done).push(last));
    done
}

} // verus!
