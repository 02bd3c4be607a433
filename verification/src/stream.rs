//! Server-sent events: an incremental decoder that accepts text cut at any
//! position and yields complete frames.
use crate::text::{self, first_occurrence, is_blank, is_ws, occurs_at, trim_start};
pub use crate::protocol::{decode_stream_chunks, parse_protocol_frame, StreamEvent};
use vstd::prelude::*;

verus! {

#[derive(Debug, Clone, PartialEq, Eq)]
pub struct SseFrame {
    pub event: Option<String>,
    pub data: String,
    pub id: Option<String>,
}

pub struct FrameView {
    pub event: Option<Seq<char>>,
    pub data: Seq<char>,
    pub id: Option<Seq<char>>,
}

pub open spec fn opt_view(o: Option<String>) -> Option<Seq<char>> {
    match o {
        Some(s) => Some(s@),
        None => None,
    }
}

impl View for SseFrame {
    type V = FrameView;

    open spec fn view(&self) -> FrameView {
        FrameView { event: opt_view(self.event), data: self.data@, id: opt_view(self.id) }
    }
}

pub open spec fn frame_views(v: Seq<SseFrame>) -> Seq<FrameView> {
    v.map_values(|f: SseFrame| f@)
}

/// Replaces each `\r\n`, scanning left to right, by `\n`.
pub open spec fn replace_crlf(s: Seq<char>) -> Seq<char>
    decreases s.len(),
{
    if s.len() == 0 {
        seq![]
    } else if s.len() >= 2 && s[0] == '\r' && s[1] == '\n' {
        seq!['\n'] + replace_crlf(s.skip(2))
    } else {
        seq![s[0]] + replace_crlf(s.skip(1))
    }
}

pub open spec fn blank_line() -> Seq<char> {
    seq!['\n', '\n']
}

/// The complete blocks of `s` (each ended by a blank line) and the rest.
pub open spec fn split_blocks(s: Seq<char>) -> (Seq<Seq<char>>, Seq<char>)
    decreases s.len(),
{
    if exists|i: int| first_occurrence(s, blank_line(), i) {
        let i = choose|i: int| first_occurrence(s, blank_line(), i);
        let rest = split_blocks(s.skip(i + 2));
        (seq![s.take(i)] + rest.0, rest.1)
    } else {
        (seq![], s)
    }
}

/// The lines of a block, as `str::lines` yields them: split at `\n`, with a
/// `\r` before the `\n` dropped and no empty line after a final `\n`.
pub open spec fn lines(s: Seq<char>) -> Seq<Seq<char>>
    decreases s.len(),
{
    if s.len() == 0 {
        seq![]
    } else if exists|i: int| first_occurrence(s, seq!['\n'], i) {
        let i = choose|i: int| first_occurrence(s, seq!['\n'], i);
        let piece = s.take(i);
        let line = if piece.len() > 0 && piece.last() == '\r' {
            piece.drop_last()
        } else {
            piece
        };
        seq![line] + lines(s.skip(i + 1))
    } else {
        seq![s]
    }
}

/// The field name and value of one line: split at the first `:`, the value
/// with leading whitespace removed.
pub open spec fn field_of(line: Seq<char>) -> (Seq<char>, Seq<char>) {
    if exists|c: int| first_occurrence(line, seq![':'], c) {
        let c = choose|c: int| first_occurrence(line, seq![':'], c);
        (line.take(c), trim_start(line.skip(c + 1)))
    } else {
        (line, seq![])
    }
}

pub struct FoldState {
    pub event: Option<Seq<char>>,
    pub id: Option<Seq<char>>,
    pub data: Seq<Seq<char>>,
}

/// The effect of the first `n` lines of a block.
pub open spec fn fold_lines(ls: Seq<Seq<char>>, n: int) -> FoldState
    decreases n,
{
    if n <= 0 {
        FoldState { event: None, id: None, data: seq![] }
    } else {
        let st = fold_lines(ls, n - 1);
        let line = ls[n - 1];
        if line.len() > 0 && line[0] == ':' {
            st
        } else {
            let (field, value) = field_of(line);
            if field == "event"@ {
                FoldState { event: Some(value), ..st }
            } else if field == "id"@ {
                FoldState { id: Some(value), ..st }
            } else if field == "data"@ {
                FoldState { data: st.data.push(value), ..st }
            } else {
                st
            }
        }
    }
}

/// `parts` joined by `sep`.
pub open spec fn join(parts: Seq<Seq<char>>, sep: Seq<char>) -> Seq<char>
    decreases parts.len(),
{
    if parts.len() == 0 {
        seq![]
    } else if parts.len() == 1 {
        parts[0]
    } else {
        join(parts.drop_last(), sep) + sep + parts.last()
    }
}

/// The frame a block describes, if it has any `data` line.
pub open spec fn frame_of(block: Seq<char>) -> Option<FrameView> {
    if is_blank(block) {
        None
    } else {
        let ls = lines(block);
        let st = fold_lines(ls, ls.len() as int);
        if st.data.len() == 0 {
            None
        } else {
            Some(FrameView { event: st.event, data: join(st.data, seq!['\n']), id: st.id })
        }
    }
}

/// The frames of a run of blocks, skipping the blocks without one.
pub open spec fn frames_of(bs: Seq<Seq<char>>) -> Seq<FrameView>
    decreases bs.len(),
{
    if bs.len() == 0 {
        seq![]
    } else {
        frames_of(bs.drop_last()) + match frame_of(bs.last()) {
            Some(f) => seq![f],
            None => seq![],
        }
    }
}

/// `s` with trailing `\r` and `\n` characters removed.
pub open spec fn trim_crlf_end(s: Seq<char>) -> Seq<char>
    decreases s.len(),
{
    if s.len() > 0 && (s.last() == '\r' || s.last() == '\n') {
        trim_crlf_end(s.drop_last())
    } else {
        s
    }
}

/// An incremental SSE decoder. The buffer holds the text of a frame that has
/// not been completed yet.
#[derive(Debug, Default)]
pub struct SseDecoder {
    buffer: Vec<char>,
}

impl View for SseDecoder {
    type V = Seq<char>;

    closed spec fn view(&self) -> Seq<char> {
        self.buffer@
    }
}

proof fn lemma_skip_occurs(s: Seq<char>, p: Seq<char>, k: int, i: int)
    requires
        0 <= k <= s.len(),
        i >= 0,
    ensures
        occurs_at(s, p, k + i) == occurs_at(s.skip(k), p, i),
{
    if k + i + p.len() <= s.len() {
        assert(s.skip(k).subrange(i, i + p.len()) == s.subrange(k + i, k + i + p.len()));
    }
}

fn replace_crlf_exec(v: &Vec<char>) -> (r: Vec<char>)
    ensures
        r@ == replace_crlf(v@),
{
    let mut out: Vec<char> = Vec::new();
    let mut i: usize = 0;
    let n = v.len();
    assert(v@.skip(0) == v@);
    while i < n
        invariant
            n == v@.len(),
            i <= n,
            out@ + replace_crlf(v@.skip(i as int)) == replace_crlf(v@),
        decreases n - i,
    {
        let ghost s = v@.skip(i as int);
        if i + 1 < n && v[i] == '\r' && v[i + 1] == '\n' {
            out.push('\n');
            proof {
                assert(s.skip(2) == v@.skip(i + 2));
                assert(seq!['\n'] + replace_crlf(s.skip(2)) == replace_crlf(s));
                assert(out@ + replace_crlf(v@.skip(i + 2)) == (out@.drop_last() + seq!['\n']) + replace_crlf(s.skip(2)));
            }
            i = i + 2;
        } else {
            out.push(v[i]);
            proof {
                assert(s.skip(1) == v@.skip(i + 1));
                assert(seq![s[0]] + replace_crlf(s.skip(1)) == replace_crlf(s));
            }
            i = i + 1;
        }
    }
    assert(v@.skip(n as int) == Seq::<char>::empty());
    out
}

/// The first occurrence of `p` in `v[from..]`, as an index into `v[from..]`.
proof fn lemma_first_in_skip(v: Seq<char>, p: Seq<char>, from: int, i: int)
    requires
        0 <= from <= i,
        from <= v.len(),
        occurs_at(v, p, i),
        forall|j: int| from <= j < i ==> !occurs_at(v, p, j),
    ensures
        first_occurrence(v.skip(from), p, i - from),
{
    lemma_skip_occurs(v, p, from, i - from);
    assert forall|j: int| 0 <= j < i - from implies !occurs_at(v.skip(from), p, j) by {
        lemma_skip_occurs(v, p, from, j);
    }
}

proof fn lemma_no_first_in_skip(v: Seq<char>, p: Seq<char>, from: int)
    requires
        0 <= from <= v.len(),
        forall|j: int| from <= j ==> !occurs_at(v, p, j),
    ensures
        !exists|i: int| first_occurrence(v.skip(from), p, i),
{
    assert forall|i: int| !first_occurrence(v.skip(from), p, i) by {
        if i >= 0 {
            lemma_skip_occurs(v, p, from, i);
        }
    }
}

proof fn lemma_first_unique(s: Seq<char>, p: Seq<char>, i: int, j: int)
    requires
        first_occurrence(s, p, i),
        first_occurrence(s, p, j),
    ensures
        i == j,
{
    if i < j {
        assert(!occurs_at(s, p, i));
    }
    if j < i {
        assert(!occurs_at(s, p, j));
    }
}

/// Index of the first `:` in `v[from..to]`, if any.
fn find_char(v: &Vec<char>, from: usize, to: usize, c: char) -> (r: Option<usize>)
    requires
        from <= to <= v@.len(),
    ensures
        match r {
            Some(k) => from <= k < to && v@[k as int] == c && forall|j: int| from <= j < k ==> v@[j] != c,
            None => forall|j: int| from <= j < to ==> v@[j] != c,
        },
{
    let mut k = from;
    while k < to
        invariant
            from <= k <= to,
            to <= v@.len(),
            forall|j: int| from <= j < k ==> v@[j] != c,
        decreases to - k,
    {
        if v[k] == c {
            return Some(k);
        }
        k = k + 1;
    }
    None
}

proof fn lemma_first_char(s: Seq<char>, c: char, k: int)
    requires
        0 <= k < s.len(),
        s[k] == c,
        forall|j: int| 0 <= j < k ==> s[j] != c,
    ensures
        first_occurrence(s, seq![c], k),
{
    assert(s.subrange(k, k + 1) == seq![c]);
    assert forall|j: int| 0 <= j < k implies !occurs_at(s, seq![c], j) by {
        if occurs_at(s, seq![c], j) {
            assert(s.subrange(j, j + 1)[0] == s[j]);
        }
    }
}

proof fn lemma_no_char(s: Seq<char>, c: char)
    requires
        forall|j: int| 0 <= j < s.len() ==> s[j] != c,
    ensures
        !exists|k: int| first_occurrence(s, seq![c], k),
{
    assert forall|k: int| !first_occurrence(s, seq![c], k) by {
        if occurs_at(s, seq![c], k) {
            assert(s.subrange(k, k + 1)[0] == s[k]);
        }
    }
}

/// Index at which leading whitespace of `v[from..to]` ends.
fn skip_ws(v: &Vec<char>, from: usize, to: usize) -> (r: usize)
    requires
        from <= to <= v@.len(),
    ensures
        from <= r <= to,
        trim_start(v@.subrange(from as int, to as int)) == v@.subrange(r as int, to as int),
{
    let mut k = from;
    while k < to && text::char_is_ws(v[k])
        invariant
            from <= k <= to,
            to <= v@.len(),
            forall|j: int| from <= j < k ==> is_ws(#[trigger] v@[j]),
        decreases to - k,
    {
        k = k + 1;
    }
    proof {
        let s = v@.subrange(from as int, to as int);
        text::lemma_trim_start_is_suffix(s);
        let m = choose|m: int|
            0 <= m <= s.len() && trim_start(s) == s.subrange(m, s.len() as int) && (forall|j: int|
                0 <= j < m ==> is_ws(#[trigger] s[j])) && (m < s.len() ==> !is_ws(s[m]));
        if m < k - from {
            assert(s[m] == v@[from + m]);
        }
        if k - from < m {
            assert(s[k - from] == v@[k as int]);
        }
        assert(m == k - from);
        assert(s.subrange(m, s.len() as int) == v@.subrange(k as int, to as int));
    }
    k
}

fn seq_eq_str(v: &Vec<char>, from: usize, to: usize, lit: &str) -> (r: bool)
    requires
        from <= to <= v@.len(),
    ensures
        r == (v@.subrange(from as int, to as int) == lit@),
{
    let s = text::string_from(v.as_slice(), from, to);
    text::str_eq(s.as_str(), lit)
}

/// Parses one line into the fold state.
fn apply_line(
    v: &Vec<char>,
    from: usize,
    to: usize,
    event: &mut Option<String>,
    id: &mut Option<String>,
    data: &mut Vec<String>,
)
    requires
        from <= to <= v@.len(),
    ensures
        ({
            let line = v@.subrange(from as int, to as int);
            let st = FoldState { event: opt_view(*old(event)), id: opt_view(*old(id)), data: data_views(old(data)@) };
            let next = if line.len() > 0 && line[0] == ':' {
                st
            } else {
                let (field, value) = field_of(line);
                if field == "event"@ {
                    FoldState { event: Some(value), ..st }
                } else if field == "id"@ {
                    FoldState { id: Some(value), ..st }
                } else if field == "data"@ {
                    FoldState { data: st.data.push(value), ..st }
                } else {
                    st
                }
            };
            opt_view(*final(event)) == next.event && opt_view(*final(id)) == next.id && data_views(final(data)@) == next.data
        }),
{
    let ghost line = v@.subrange(from as int, to as int);
    if from < to && v[from] == ':' {
        return;
    }
    let (fend, vstart) = match find_char(v, from, to, ':') {
        Some(k) => {
            proof {
                assert forall|j: int| 0 <= j < k - from implies line[j] != ':' by {
                    assert(line[j] == v@[from + j]);
                }
                lemma_first_char(line, ':', k - from);
                let c = choose|c: int| first_occurrence(line, seq![':'], c);
                lemma_first_unique(line, seq![':'], c, k - from);
                assert(line.take(k - from) == v@.subrange(from as int, k as int));
                assert(line.skip(k - from + 1) == v@.subrange(k + 1, to as int));
            }
            (k, skip_ws(v, k + 1, to))
        },
        None => {
            proof {
                assert forall|j: int| 0 <= j < line.len() implies line[j] != ':' by {
                    assert(line[j] == v@[from + j]);
                }
                lemma_no_char(line, ':');
            }
            (to, to)
        },
    };
    let ghost value = v@.subrange(vstart as int, to as int);
    assert(field_of(line) == (v@.subrange(from as int, fend as int), value));
    if seq_eq_str(v, from, fend, "event") {
        *event = Some(text::string_from(v.as_slice(), vstart, to));
    } else if seq_eq_str(v, from, fend, "id") {
        *id = Some(text::string_from(v.as_slice(), vstart, to));
    } else if seq_eq_str(v, from, fend, "data") {
        let ghost before = data@;
        data.push(text::string_from(v.as_slice(), vstart, to));
        assert(data_views(data@) =~= data_views(before).push(value));
    }
}

pub open spec fn data_views(v: Seq<String>) -> Seq<Seq<char>> {
    v.map_values(|s: String| s@)
}

/// The line ending at the first `\n` of `v[from..to]`, or the whole rest.
proof fn lemma_lines_step(s: Seq<char>, k: int)
    requires
        0 <= k < s.len(),
        s[k] == '\n',
        forall|j: int| 0 <= j < k ==> s[j] != '\n',
    ensures
        lines(s) == seq![if k > 0 && s[k - 1] == '\r' { s.take(k - 1) } else { s.take(k) }] + lines(s.skip(k + 1)),
{
    lemma_first_char(s, '\n', k);
    let i = choose|i: int| first_occurrence(s, seq!['\n'], i);
    lemma_first_unique(s, seq!['\n'], i, k);
    if k > 0 && s[k - 1] == '\r' {
        assert(s.take(k).drop_last() == s.take(k - 1));
    }
}

proof fn lemma_join_push(parts: Seq<Seq<char>>, sep: Seq<char>, x: Seq<char>)
    requires
        parts.len() > 0,
    ensures
        join(parts.push(x), sep) == join(parts, sep) + sep + x,
{
    assert(parts.push(x).drop_last() == parts);
}

/// Joins lines with `\n`.
fn join_lines(parts: &Vec<String>) -> (r: String)
    ensures
        r@ == join(data_views(parts@), seq!['\n']),
{
    let ghost ps = data_views(parts@);
    let mut r = String::new();
    let mut i: usize = 0;
    while i < parts.len()
        invariant
            ps == data_views(parts@),
            i <= parts@.len(),
            r@ == join(ps.take(i as int), seq!['\n']),
        decreases parts.len() - i,
    {
        let ghost before = r@;
        if i > 0 {
            text::push_char(&mut r, '\n');
        }
        text::push_str(&mut r, parts[i].as_str());
        proof {
            assert(ps.take(i + 1) == ps.take(i as int).push(ps[i as int]));
            if i > 0 {
                lemma_join_push(ps.take(i as int), seq!['\n'], ps[i as int]);
            } else {
                assert(ps.take(1) == seq![ps[0]]);
            }
        }
        i = i + 1;
    }
    assert(ps.take(parts@.len() as int) == ps);
    r
}

proof fn lemma_fold_prefix(ls: Seq<Seq<char>>, n: int)
    requires
        0 <= n <= ls.len(),
    ensures
        fold_lines(ls, n) == fold_lines(ls.take(n), n),
    decreases n,
{
    if n > 0 {
        lemma_fold_prefix(ls, n - 1);
        lemma_fold_prefix(ls.take(n), n - 1);
        assert(ls.take(n).take(n - 1) == ls.take(n - 1));
        assert(ls.take(n)[n - 1] == ls[n - 1]);
    }
}

proof fn lemma_fold_append(a: Seq<Seq<char>>, b: Seq<Seq<char>>, n: int)
    requires
        0 <= n <= a.len(),
    ensures
        fold_lines(a + b, n) == fold_lines(a, n),
    decreases n,
{
    if n > 0 {
        lemma_fold_append(a, b, n - 1);
        assert((a + b)[n - 1] == a[n - 1]);
    }
}

/// The frame of the block `v[from..to]`.
fn parse_frame(v: &Vec<char>, from: usize, to: usize) -> (r: Option<SseFrame>)
    requires
        from <= to <= v@.len(),
    ensures
        match r {
            Some(f) => frame_of(v@.subrange(from as int, to as int)) == Some(f@),
            None => frame_of(v@.subrange(from as int, to as int)) is None,
        },
{
    let ghost block = v@.subrange(from as int, to as int);
    let mut all_ws = true;
    let mut k = from;
    while k < to
        invariant
            from <= k <= to,
            to <= v@.len(),
            block == v@.subrange(from as int, to as int),
            all_ws == forall|j: int| 0 <= j < k - from ==> is_ws(#[trigger] block[j]),
        decreases to - k,
    {
        assert(block[k - from] == v@[k as int]);
        if !text::char_is_ws(v[k]) {
            all_ws = false;
        }
        k = k + 1;
    }
    if all_ws {
        return None;
    }
    let mut event: Option<String> = None;
    let mut id: Option<String> = None;
    let mut data: Vec<String> = Vec::new();
    let mut start = from;
    let ghost mut done: Seq<Seq<char>> = seq![];
    proof {
        assert(block.skip(0) == block);
        assert(data_views(data@) =~= seq![]);
    }
    while start < to
        invariant
            from <= start <= to,
            to <= v@.len(),
            block == v@.subrange(from as int, to as int),
            lines(block) == done + lines(v@.subrange(start as int, to as int)),
            opt_view(event) == fold_lines(done, done.len() as int).event,
            opt_view(id) == fold_lines(done, done.len() as int).id,
            data_views(data@) == fold_lines(done, done.len() as int).data,
        decreases to - start,
    {
        let ghost s = v@.subrange(start as int, to as int);
        match find_char(v, start, to, '\n') {
            Some(nl) => {
                let line_end = if nl > start && v[nl - 1] == '\r' {
                    nl - 1
                } else {
                    nl
                };
                proof {
                    assert forall|j: int| 0 <= j < nl - start implies s[j] != '\n' by {
                        assert(s[j] == v@[start + j]);
                    }
                    assert(s[nl - start] == v@[nl as int]);
                    lemma_lines_step(s, nl - start);
                    if nl > start {
                        assert(s[nl - start - 1] == v@[nl - 1]);
                    }
                    assert(s.skip(nl - start + 1) == v@.subrange(nl + 1, to as int));
                    assert(s.take(nl - start) == v@.subrange(start as int, nl as int));
                    if nl > start {
                        assert(s.take(nl - start - 1) == v@.subrange(start as int, nl - 1));
                    }
                }
                let ghost line = v@.subrange(start as int, line_end as int);
                apply_line(v, start, line_end, &mut event, &mut id, &mut data);
                proof {
                    lemma_fold_append(done, seq![line], done.len() as int);
                    assert((done + seq![line])[done.len() as int] == line);
                    done = done + seq![line];
                    assert(lines(block) == done + lines(v@.subrange(nl + 1, to as int)));
                }
                start = nl + 1;
            },
            None => {
                proof {
                    assert forall|j: int| 0 <= j < s.len() implies s[j] != '\n' by {
                        assert(s[j] == v@[start + j]);
                    }
                    lemma_no_char(s, '\n');
                    assert(s.len() > 0);
                    assert(lines(s) == seq![s]);
                }
                apply_line(v, start, to, &mut event, &mut id, &mut data);
                proof {
                    lemma_fold_append(done, seq![s], done.len() as int);
                    assert((done + seq![s])[done.len() as int] == s);
                    done = done + seq![s];
                    assert(v@.subrange(to as int, to as int) == Seq::<char>::empty());
                    assert(lines(block) == done + lines(v@.subrange(to as int, to as int)));
                }
                start = to;
            },
        }
    }
    proof {
        assert(v@.subrange(to as int, to as int) == Seq::<char>::empty());
        assert(lines(block) =~= done);
    }
    if data.len() == 0 {
        return None;
    }
    let joined = join_lines(&data);
    Some(SseFrame { event, data: joined, id })
}

impl SseDecoder {
    pub fn new() -> (r: Self)
        ensures
            r@ == Seq::<char>::empty(),
    {
        SseDecoder { buffer: Vec::new() }
    }

    /// Feeds a chunk of SSE text and returns the frames completed so far.
    /// An unfinished trailing frame stays buffered for the next chunk.
    pub fn push(&mut self, chunk: &str) -> (r: Vec<SseFrame>)
        ensures
            ({
                let t = replace_crlf(old(self)@ + chunk@);
                frame_views(r@) == frames_of(split_blocks(t).0) && final(self)@ == split_blocks(t).1
            }),
    {
        let mut all = self.buffer.clone();
        let c = text::chars_of(chunk);
        let mut j: usize = 0;
        let ghost start = all@;
        while j < c.len()
            invariant
                j <= c@.len(),
                all@ == start + c@.take(j as int),
            decreases c.len() - j,
        {
            all.push(c[j]);
            j = j + 1;
            assert(c@.take(j as int) == c@.take(j - 1).push(c@[j - 1]));
        }
        assert(c@.take(c@.len() as int) == c@);
        let t = replace_crlf_exec(&all);
        let ghost ts = t@;
        let mut sep: Vec<char> = Vec::new();
        sep.push('\n');
        sep.push('\n');
        assert(sep@ =~= blank_line());
        let mut frames: Vec<SseFrame> = Vec::new();
        let mut pos: usize = 0;
        let ghost mut done: Seq<Seq<char>> = seq![];
        proof {
            assert(ts.skip(0) == ts);
            assert(frames_of(seq![]) == Seq::<FrameView>::empty());
            assert(frame_views(frames@) =~= Seq::<FrameView>::empty());
        }
        loop
            invariant
                ts == t@,
                sep@ == blank_line(),
                pos <= ts.len(),
                split_blocks(ts).0 == done + split_blocks(ts.skip(pos as int)).0,
                split_blocks(ts).1 == split_blocks(ts.skip(pos as int)).1,
                frame_views(frames@) == frames_of(done),
            ensures
                pos <= ts.len(),
                ts == t@,
                split_blocks(ts).0 == done,
                split_blocks(ts).1 == ts.skip(pos as int),
                frame_views(frames@) == frames_of(done),
            decreases ts.len() - pos,
        {
            match text::find_from(t.as_slice(), sep.as_slice(), pos) {
                Some(b) => {
                    assert(b + 2 <= ts.len());
                    let frame = parse_frame(&t, pos, b);
                    proof {
                        let s = ts.skip(pos as int);
                        lemma_first_in_skip(ts, blank_line(), pos as int, b as int);
                        let i = choose|i: int| first_occurrence(s, blank_line(), i);
                        lemma_first_unique(s, blank_line(), i, b - pos);
                        assert(s.take(b - pos) == ts.subrange(pos as int, b as int));
                        assert(s.skip(b - pos + 2) == ts.skip(b + 2));
                        let blk = ts.subrange(pos as int, b as int);
                        assert(split_blocks(s).0 == seq![blk] + split_blocks(ts.skip(b + 2)).0);
                        assert((done + seq![blk]).drop_last() == done);
                        done = done + seq![blk];
                        assert(split_blocks(ts).0 == done + split_blocks(ts.skip(b + 2)).0);
                    }
                    match frame {
                        Some(f) => {
                            let ghost fv = f@;
                            frames.push(f);
                            assert(frame_views(frames@) =~= frames_of(done.drop_last()).push(fv));
                        },
                        None => {
                            assert(frame_views(frames@) =~= frames_of(done.drop_last()));
                        },
                    }
                    let tl = t.len();
                    assert(b + 2 <= tl);
                    pos = b + 2;
                },
                None => {
                    proof {
                        lemma_no_first_in_skip(ts, blank_line(), pos as int);
                        assert(split_blocks(ts.skip(pos as int)).0 == Seq::<Seq<char>>::empty());
                        assert(split_blocks(ts.skip(pos as int)).1 == ts.skip(pos as int));
                        assert(done + Seq::<Seq<char>>::empty() == done);
                    }
                    break;
                },
            }
        }
        let mut rest: Vec<char> = Vec::new();
        let mut k = pos;
        while k < t.len()
            invariant
                pos <= k <= t@.len(),
                rest@ == t@.subrange(pos as int, k as int),
            decreases t.len() - k,
        {
            rest.push(t[k]);
            k = k + 1;
        }
        proof {
            assert(t@.subrange(pos as int, t@.len() as int) == ts.skip(pos as int));
        }
        self.buffer = rest;
        frames
    }

    /// At the end of input, extracts the last frame if it had no blank line
    /// after it.
    pub fn finish(&mut self) -> (r: Option<SseFrame>)
        ensures
            final(self)@ == Seq::<char>::empty(),
            match r {
                Some(f) => frame_of(trim_crlf_end(old(self)@)) == Some(f@),
                None => frame_of(trim_crlf_end(old(self)@)) is None,
            },
    {
        let mut remaining: Vec<char> = Vec::new();
        std::mem::swap(&mut remaining, &mut self.buffer);
        let mut end = remaining.len();
        assert(remaining@.take(end as int) == remaining@);
        while end > 0 && (remaining[end - 1] == '\r' || remaining[end - 1] == '\n')
            invariant
                end <= remaining@.len(),
                trim_crlf_end(remaining@) == trim_crlf_end(remaining@.take(end as int)),
            decreases end,
        {
            proof {
                assert(remaining@.take(end as int).drop_last() == remaining@.take(end - 1));
            }
            end = end - 1;
        }
        proof {
            assert(remaining@.take(remaining@.len() as int) == remaining@) by {
            }
            let s = remaining@.take(end as int);
            assert(s == remaining@.subrange(0, end as int));
        }
        parse_frame(&remaining, 0, end)
    }
}

pub open spec fn pushed(cs: Seq<Seq<char>>, n: int) -> (Seq<FrameView>, Seq<char>)
    decreases n,
{
    if n <= 0 {
        (seq![], seq![])
    } else {
        let prev = pushed(cs, n - 1);
        let t = replace_crlf(prev.1 + cs[n - 1]);
        (prev.0 + frames_of(split_blocks(t).0), split_blocks(t).1)
    }
}

/// The frames that pushing the first `n` chunks yields.
pub open spec fn pushed_frames(cs: Seq<Seq<char>>, n: int) -> Seq<FrameView> {
    pushed(cs, n).0
}

/// The decoder buffer after the first `n` chunks.
pub open spec fn pushed_buffer(cs: Seq<Seq<char>>, n: int) -> Seq<char> {
    pushed(cs, n).1
}

/// Every frame of a chunked stream: those completed by the chunks, then the
/// unterminated rest.
pub open spec fn chunked_frames(cs: Seq<Seq<char>>) -> Seq<FrameView> {
    pushed_frames(cs, cs.len() as int) + match frame_of(trim_crlf_end(pushed_buffer(cs, cs.len() as int))) {
        Some(f) => seq![f],
        None => seq![],
    }
}

impl SseFrame {
    pub fn duplicate(&self) -> (r: Self)
        ensures
            r@ == self@,
    {
        SseFrame {
            event: match &self.event {
                Some(e) => Some(e.clone()),
                None => None,
            },
            data: self.data.clone(),
            id: match &self.id {
                Some(e) => Some(e.clone()),
                None => None,
            },
        }
    }
}

/// Decodes SSE text delivered in arbitrary chunks into frames: every frame
/// completed by a chunk, then the unterminated rest at the end.
pub fn decode_sse_chunks(chunks: &[String]) -> (r: Vec<SseFrame>)
    ensures
        frame_views(r@) == chunked_frames(data_views(chunks@)),
{
    let ghost cs = data_views(chunks@);
    let mut decoder = SseDecoder::new();
    let mut frames: Vec<SseFrame> = Vec::new();
    let mut i: usize = 0;
    proof {
        assert(frame_views(frames@) =~= Seq::<FrameView>::empty());
    }
    while i < chunks.len()
        invariant
            cs == data_views(chunks@),
            i <= chunks@.len(),
            frame_views(frames@) == pushed_frames(cs, i as int),
            decoder@ == pushed_buffer(cs, i as int),
        decreases chunks.len() - i,
    {
        let got = decoder.push(chunks[i].as_str());
        let ghost before = frame_views(frames@);
        let mut k: usize = 0;
        while k < got.len()
            invariant
                k <= got@.len(),
                frame_views(frames@) == before + frame_views(got@).take(k as int),
            decreases got.len() - k,
        {
            let ghost old_frames = frames@;
            frames.push(got[k].duplicate());
            assert(frame_views(frames@) =~= frame_views(old_frames).push(got@[k as int]@));
            assert(frame_views(got@).take(k + 1) == frame_views(got@).take(k as int).push(got@[k as int]@));
            assert(frame_views(frames@) =~= before + frame_views(got@).take(k + 1));
            k = k + 1;
        }
        assert(frame_views(got@).take(got@.len() as int) == frame_views(got@));
        i = i + 1;
    }
    match decoder.finish() {
        Some(f) => {
            let ghost fv = f@;
            frames.push(f);
            assert(frame_views(frames@) =~= pushed_frames(cs, cs.len() as int).push(fv));
        },
        None => {},
    }
    assert(cs.len() == chunks@.len());
    frames
}

} // verus!
