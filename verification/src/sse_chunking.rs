//! SSE text may reach the decoder cut at any position: the frames do not
//! depend on where the cuts fall.
use crate::stream::{blank_line, chunked_frames, data_views, frames_of, pushed, replace_crlf, split_blocks, FrameView};
use crate::text::{first_occurrence, occurs_at};
use vstd::prelude::*;

verus! {

/// No carriage return at all.
pub open spec fn no_cr(s: Seq<char>) -> bool {
    forall|i: int| 0 <= i < s.len() ==> s[i] != '\r'
}

/// Every carriage return is immediately followed by a line feed.
pub open spec fn crlf_paired(s: Seq<char>) -> bool {
    forall|i: int| 0 <= i < s.len() && #[trigger] s[i] == '\r' ==> i + 1 < s.len() && s[i + 1] == '\n'
}

/// The chunks written one after another.
pub open spec fn joined_chunks(cs: Seq<Seq<char>>) -> Seq<char>
    decreases cs.len(),
{
    if cs.len() == 0 {
        seq![]
    } else {
        joined_chunks(cs.drop_last()) + cs.last()
    }
}

proof fn lemma_replace_clean_prefix(x: Seq<char>, y: Seq<char>)
    requires
        no_cr(x),
    ensures
        replace_crlf(x + y) == x + replace_crlf(y),
    decreases x.len(),
{
    if x.len() == 0 {
        assert(x + y =~= y);
        assert(x + replace_crlf(y) =~= replace_crlf(y));
    } else {
        let xy = x + y;
        assert(xy[0] == x[0]);
        assert(xy.skip(1) =~= x.skip(1) + y);
        lemma_replace_clean_prefix(x.skip(1), y);
        assert(x =~= seq![x[0]] + x.skip(1));
        assert(x + replace_crlf(y) =~= seq![x[0]] + (x.skip(1) + replace_crlf(y)));
    }
}

proof fn lemma_replace_concat(a: Seq<char>, b: Seq<char>)
    requires
        a.len() == 0 || a.last() != '\r',
    ensures
        replace_crlf(a + b) == replace_crlf(a) + replace_crlf(b),
    decreases a.len(),
{
    let ab = a + b;
    if a.len() == 0 {
        assert(ab =~= b);
        assert(replace_crlf(a) =~= seq![]);
        assert(replace_crlf(a) + replace_crlf(b) =~= replace_crlf(b));
    } else if a.len() >= 2 && a[0] == '\r' && a[1] == '\n' {
        assert(ab[0] == '\r' && ab[1] == '\n');
        assert(ab.skip(2) =~= a.skip(2) + b);
        lemma_replace_concat(a.skip(2), b);
        assert(replace_crlf(ab) =~= seq!['\n'] + (replace_crlf(a.skip(2)) + replace_crlf(b)));
    } else if a.len() == 1 {
        assert(a[0] != '\r');
        assert(ab[0] == a[0]);
        assert(ab.skip(1) =~= b);
        assert(a.skip(1) =~= seq![]);
        assert(replace_crlf(a) =~= seq![a[0]] + replace_crlf(a.skip(1)));
        assert(replace_crlf(a.skip(1)) =~= seq![]);
        assert(replace_crlf(ab) =~= seq![a[0]] + replace_crlf(b));
    } else {
        assert(ab[0] == a[0] && ab[1] == a[1]);
        assert(ab.skip(1) =~= a.skip(1) + b);
        lemma_replace_concat(a.skip(1), b);
        assert(replace_crlf(ab) =~= seq![a[0]] + (replace_crlf(a.skip(1)) + replace_crlf(b)));
    }
}

proof fn lemma_replace_paired(a: Seq<char>)
    requires
        crlf_paired(a),
    ensures
        no_cr(replace_crlf(a)),
    decreases a.len(),
{
    if a.len() == 0 {
    } else if a.len() >= 2 && a[0] == '\r' && a[1] == '\n' {
        let t = a.skip(2);
        assert forall|i: int| 0 <= i < t.len() && #[trigger] t[i] == '\r' implies i + 1 < t.len() && t[i + 1] == '\n' by {
            assert(a[i + 2] == '\r');
        }
        lemma_replace_paired(t);
    } else {
        assert(a[0] != '\r');
        let t = a.skip(1);
        assert forall|i: int| 0 <= i < t.len() && #[trigger] t[i] == '\r' implies i + 1 < t.len() && t[i + 1] == '\n' by {
            assert(a[i + 1] == '\r');
        }
        lemma_replace_paired(t);
    }
}

proof fn lemma_replace_cr_then_lf(c: Seq<char>)
    requires
        c.len() > 0,
        c[0] == '\n',
    ensures
        replace_crlf(seq!['\r'] + c) == seq!['\n'] + replace_crlf(c.skip(1)),
{
    let s = seq!['\r'] + c;
    assert(s[0] == '\r' && s[1] == '\n');
    assert(s.skip(2) =~= c.skip(1));
}

proof fn lemma_replace_lone_cr()
    ensures
        replace_crlf(seq!['\r']) == seq!['\r'],
{
    let s = seq!['\r'];
    assert(s.skip(1) =~= seq![]);
    assert(replace_crlf(s.skip(1)) =~= seq![]);
    assert(replace_crlf(s) =~= seq!['\r'] + seq![]);
}

// ---- Splitting into blocks ----
proof fn lemma_first_exists(s: Seq<char>, p: Seq<char>, j: int)
    requires
        occurs_at(s, p, j),
    ensures
        exists|i: int| first_occurrence(s, p, i),
    decreases j,
{
    if exists|k: int| 0 <= k < j && occurs_at(s, p, k) {
        let k = choose|k: int| 0 <= k < j && occurs_at(s, p, k);
        lemma_first_exists(s, p, k);
    } else {
        assert(first_occurrence(s, p, j));
    }
}

proof fn lemma_first_unique(s: Seq<char>, p: Seq<char>, i: int, j: int)
    requires
        first_occurrence(s, p, i),
        first_occurrence(s, p, j),
    ensures
        i == j,
{
    if i < j {
        assert(!occurs_at(s, p, i));
    }
    if j < i {
        assert(!occurs_at(s, p, j));
    }
}

/// Whether the text holds a blank line.
pub open spec fn has_blank(s: Seq<char>) -> bool {
    exists|i: int| occurs_at(s, blank_line(), i)
}

proof fn lemma_rest_has_no_blank(x: Seq<char>)
    ensures
        !has_blank(split_blocks(x).1),
    decreases x.len(),
{
    if exists|i: int| first_occurrence(x, blank_line(), i) {
        let i = choose|i: int| first_occurrence(x, blank_line(), i);
        lemma_rest_has_no_blank(x.skip(i + 2));
    } else {
        if has_blank(x) {
            let j = choose|j: int| occurs_at(x, blank_line(), j);
            lemma_first_exists(x, blank_line(), j);
        }
    }
}

proof fn lemma_no_cr_rest(x: Seq<char>)
    requires
        no_cr(x),
    ensures
        no_cr(split_blocks(x).1),
    decreases x.len(),
{
    if exists|i: int| first_occurrence(x, blank_line(), i) {
        let i = choose|i: int| first_occurrence(x, blank_line(), i);
        let t = x.skip(i + 2);
        assert forall|k: int| 0 <= k < t.len() implies t[k] != '\r' by {
            assert(t[k] == x[k + i + 2]);
        }
        lemma_no_cr_rest(t);
    }
}

/// Splitting text that continues: the blocks completed before the
/// continuation stay, and the rest is split together with it.
proof fn lemma_split_append(x: Seq<char>, y: Seq<char>)
    ensures
        split_blocks(x + y) == (split_blocks(x).0 + split_blocks(split_blocks(x).1 + y).0, split_blocks(
            split_blocks(x).1 + y,
        ).1),
    decreases x.len(),
{
    let bl = blank_line();
    if exists|i: int| first_occurrence(x, bl, i) {
        let i = choose|i: int| first_occurrence(x, bl, i);
        let xy = x + y;
        assert(xy.subrange(i, i + 2) =~= x.subrange(i, i + 2));
        assert(occurs_at(xy, bl, i));
        assert(bl.len() == 2);
        assert forall|j: int| 0 <= j < i implies !occurs_at(xy, bl, j) by {
            assert(!occurs_at(x, bl, j));
            assert(xy.subrange(j, j + 2) =~= x.subrange(j, j + 2));
        }
        assert(first_occurrence(xy, bl, i));
        let i2 = choose|i: int| first_occurrence(xy, bl, i);
        lemma_first_unique(xy, bl, i, i2);
        assert(xy.take(i) =~= x.take(i));
        assert(xy.skip(i + 2) =~= x.skip(i + 2) + y);
        lemma_split_append(x.skip(i + 2), y);
        let r = split_blocks(x.skip(i + 2));
        assert(split_blocks(x) == (seq![x.take(i)] + r.0, r.1));
        assert(split_blocks(xy).0 =~= seq![x.take(i)] + (r.0 + split_blocks(r.1 + y).0));
    } else {
        assert(split_blocks(x) == (Seq::<Seq<char>>::empty(), x));
        assert(Seq::<Seq<char>>::empty() + split_blocks(x + y).0 =~= split_blocks(x + y).0);
    }
}

/// Text without a blank line is all rest.
proof fn lemma_split_no_blank(x: Seq<char>)
    requires
        !has_blank(x),
    ensures
        split_blocks(x) == (Seq::<Seq<char>>::empty(), x),
{
    if exists|i: int| first_occurrence(x, blank_line(), i) {
        let i = choose|i: int| first_occurrence(x, blank_line(), i);
        assert(occurs_at(x, blank_line(), i));
    }
}

/// A carriage return after a rest does not complete a block.
proof fn lemma_rest_then_cr(x: Seq<char>)
    ensures
        split_blocks(split_blocks(x).1 + seq!['\r']) == (Seq::<Seq<char>>::empty(), split_blocks(x).1 + seq!['\r']),
{
    let r = split_blocks(x).1;
    lemma_rest_has_no_blank(x);
    let t = r + seq!['\r'];
    if has_blank(t) {
        let j = choose|j: int| occurs_at(t, blank_line(), j);
        assert(t.subrange(j, j + 2) == blank_line());
        assert(t.subrange(j, j + 2)[1] == t[j + 1]);
        if j + 1 < r.len() {
            assert(r.subrange(j, j + 2) =~= t.subrange(j, j + 2));
            assert(occurs_at(r, blank_line(), j));
        } else {
            assert(t[j + 1] == '\r');
        }
    }
    lemma_split_no_blank(t);
}

proof fn lemma_frames_concat(a: Seq<Seq<char>>, b: Seq<Seq<char>>)
    ensures
        frames_of(a + b) == frames_of(a) + frames_of(b),
    decreases b.len(),
{
    if b.len() == 0 {
        assert(a + b =~= a);
        assert(frames_of(b) =~= Seq::<FrameView>::empty());
        assert(frames_of(a) + frames_of(b) =~= frames_of(a));
    } else {
        assert((a + b).drop_last() =~= a + b.drop_last());
        assert((a + b).last() == b.last());
        lemma_frames_concat(a, b.drop_last());
        assert(frames_of(a + b) =~= frames_of(a) + frames_of(b));
    }
}

// ---- The decoder over chunks ----
/// What a prefix of text whose carriage returns are all paired gives.
proof fn lemma_prefix_pairs(p: Seq<char>, whole: Seq<char>)
    requires
        crlf_paired(whole),
        p.len() <= whole.len(),
        whole.take(p.len() as int) == p,
    ensures
        (p.len() == 0 || p.last() != '\r') ==> crlf_paired(p),
        (p.len() > 0 && p.last() == '\r') ==> crlf_paired(p.drop_last()) && (p.drop_last().len() == 0
            || p.drop_last().last() != '\r'),
{
    assert forall|i: int| 0 <= i < p.len() implies p[i] == whole[i] by {
        assert(whole.take(p.len() as int)[i] == whole[i]);
    }
    if p.len() == 0 || p.last() != '\r' {
        assert forall|i: int| 0 <= i < p.len() && #[trigger] p[i] == '\r' implies i + 1 < p.len() && p[i + 1] == '\n' by {
            assert(whole[i] == '\r');
            if i + 1 >= p.len() {
                assert(i == p.len() - 1);
            }
        }
    }
    if p.len() > 0 && p.last() == '\r' {
        let d = p.drop_last();
        assert forall|i: int| 0 <= i < d.len() && #[trigger] d[i] == '\r' implies i + 1 < d.len() && d[i + 1] == '\n' by {
            assert(whole[i] == '\r');
            assert(whole[i + 1] == '\n');
            if i + 1 == d.len() {
                assert(p[i + 1] == '\r');
            }
        }
        if d.len() > 0 {
            let i = d.len() - 1;
            if d[i] == '\r' {
                assert(whole[i] == '\r');
                assert(p[i + 1] == '\r');
            }
        }
    }
}

proof fn lemma_joined_take(cs: Seq<Seq<char>>, k: int)
    requires
        1 <= k <= cs.len(),
    ensures
        joined_chunks(cs.take(k)) == joined_chunks(cs.take(k - 1)) + cs[k - 1],
{
    assert(cs.take(k).drop_last() =~= cs.take(k - 1));
    assert(cs.take(k).last() == cs[k - 1]);
}

/// After the first `k` chunks, the decoder has yielded the frames of the
/// blocks their text completes, and holds the rest of that text.
proof fn lemma_pushed_is_split(cs: Seq<Seq<char>>, k: int, whole: Seq<char>)
    requires
        0 <= k <= cs.len(),
        crlf_paired(whole),
        joined_chunks(cs.take(k)).len() <= whole.len(),
        whole.take(joined_chunks(cs.take(k)).len() as int) == joined_chunks(cs.take(k)),
    ensures
        pushed(cs, k) == (
            frames_of(split_blocks(replace_crlf(joined_chunks(cs.take(k)))).0),
            split_blocks(replace_crlf(joined_chunks(cs.take(k)))).1,
        ),
    decreases k,
{
    if k == 0 {
        assert(cs.take(0) =~= Seq::<Seq<char>>::empty());
        let e = Seq::<char>::empty();
        assert(replace_crlf(e) =~= e);
        lemma_split_no_blank(e);
        assert(frames_of(Seq::<Seq<char>>::empty()) =~= Seq::<FrameView>::empty());
    } else {
        let p = joined_chunks(cs.take(k - 1));
        let c = cs[k - 1];
        let q = joined_chunks(cs.take(k));
        lemma_joined_take(cs, k);
        assert(q == p + c);
        assert(whole.take(p.len() as int) =~= q.take(p.len() as int));
        assert(q.take(p.len() as int) =~= p);
        lemma_pushed_is_split(cs, k - 1, whole);
        lemma_prefix_pairs(p, whole);
        let prev = pushed(cs, k - 1);
        let t = replace_crlf(prev.1 + c);
        assert(pushed(cs, k) == (prev.0 + frames_of(split_blocks(t).0), split_blocks(t).1));
        if p.len() == 0 || p.last() != '\r' {
            let rp = replace_crlf(p);
            lemma_replace_paired(p);
            lemma_no_cr_rest(rp);
            let rest = split_blocks(rp).1;
            lemma_replace_clean_prefix(rest, c);
            lemma_replace_concat(p, c);
            lemma_split_append(rp, replace_crlf(c));
            lemma_frames_concat(split_blocks(rp).0, split_blocks(rest + replace_crlf(c)).0);
        } else {
            let d = p.drop_last();
            let cr = seq!['\r'];
            assert(p =~= d + cr);
            lemma_replace_paired(d);
            lemma_replace_concat(d, cr);
            lemma_replace_lone_cr();
            let y = replace_crlf(d);
            assert(replace_crlf(p) == y + cr);
            lemma_no_cr_rest(y);
            let ry = split_blocks(y).1;
            lemma_split_append(y, cr);
            lemma_rest_then_cr(y);
            assert(split_blocks(ry + cr).0 =~= Seq::<Seq<char>>::empty());
            assert(split_blocks(y).0 + Seq::<Seq<char>>::empty() =~= split_blocks(y).0);
            assert(prev == (frames_of(split_blocks(y).0), ry + cr));
            if c.len() == 0 {
                assert(q =~= p);
                assert(prev.1 + c =~= ry + cr);
                lemma_replace_clean_prefix(ry, cr);
                assert(split_blocks(t) == (Seq::<Seq<char>>::empty(), ry + cr));
                assert(frames_of(Seq::<Seq<char>>::empty()) =~= Seq::<FrameView>::empty());
                assert(prev.0 + frames_of(split_blocks(t).0) =~= prev.0);
            } else {
                let i = p.len() - 1;
                assert(whole[i] == '\r') by {
                    assert(whole.take(p.len() as int)[i] == whole[i]);
                }
                assert(whole[i + 1] == '\n');
                assert(q.len() <= whole.len());
                assert(whole.take(q.len() as int)[i + 1] == whole[i + 1]);
                assert(q[i + 1] == c[0]);
                let w = seq!['\n'] + replace_crlf(c.skip(1));
                lemma_replace_cr_then_lf(c);
                assert(prev.1 + c =~= ry + (cr + c));
                lemma_replace_clean_prefix(ry, cr + c);
                assert(t == ry + w);
                assert(q =~= d + (cr + c));
                lemma_replace_concat(d, cr + c);
                assert(replace_crlf(q) == y + w);
                lemma_split_append(y, w);
                lemma_frames_concat(split_blocks(y).0, split_blocks(ry + w).0);
            }
        }
    }
}

/// Pushing SSE text into a new decoder chunk by chunk yields the frames,
/// and leaves the buffer, that pushing it at once does, so finishing yields
/// the same last frame too: wherever the text is cut, the frames are the
/// same. This holds when every carriage return in the text is followed by
/// a line feed.
pub proof fn law_chunking_does_not_matter(cs: Seq<Seq<char>>)
    requires
        crlf_paired(joined_chunks(cs)),
    ensures
        pushed(cs, cs.len() as int) == pushed(seq![joined_chunks(cs)], 1),
        chunked_frames(cs) == chunked_frames(seq![joined_chunks(cs)]),
{
    let whole = joined_chunks(cs);
    assert(cs.take(cs.len() as int) =~= cs);
    assert(whole.take(whole.len() as int) =~= whole);
    lemma_pushed_is_split(cs, cs.len() as int, whole);
    let one = seq![whole];
    assert(one.take(1) =~= one);
    assert(one.drop_last() =~= Seq::<Seq<char>>::empty());
    assert(joined_chunks(one.drop_last()) =~= Seq::<char>::empty());
    assert(one.last() == whole);
    assert(joined_chunks(one) =~= whole);
    lemma_pushed_is_split(one, 1, whole);
}

/// The same law for the strings handed to `decode_sse_chunks`: decoding the
/// chunks gives the frames that decoding their concatenation as one chunk
/// gives.
pub proof fn law_decoding_ignores_chunking(chunks: Seq<String>, whole: String)
    requires
        whole@ == joined_chunks(data_views(chunks)),
        crlf_paired(whole@),
    ensures
        chunked_frames(data_views(chunks)) == chunked_frames(data_views(seq![whole])),
{
    law_chunking_does_not_matter(data_views(chunks));
    assert(data_views(seq![whole]) =~= seq![joined_chunks(data_views(chunks))]);
}

} // verus!
