//! Text utilities: output truncation, tool listings, paths and the lookup of
//! configuration resources.

use vstd::prelude::*;
use crate::ToolDefinition;
use crate::text::{
    chars_eq, chars_of, dec, has_prefix, is_exactly, join, join_lines, push_chars, push_dec, push_str,
    slice_chars, span_texts, spans_view, starts_with, string_from_chars, texts, trim_end,
    trim_end_chars, utf8_len, utf8_len_of, vecs_view,
};

verus! {

broadcast use vstd::string::group_string_axioms;

// ---------------------------------------------------------------------------
// Head/tail truncation
// ---------------------------------------------------------------------------

/// Start positions of the lines among the first `k` characters of `c`:
/// position 0, then every position right after a `'\n'` that is not the end of `c`.
pub open spec fn line_starts_upto(c: Seq<char>, k: int) -> Seq<int>
    decreases k,
{
    if k <= 0 {
        seq![0]
    } else {
        let prev = line_starts_upto(c, k - 1);
        if c[k - 1] == '\n' && k < c.len() {
            prev.push(k)
        } else {
            prev
        }
    }
}

/// Start positions of the lines of `c`.
pub open spec fn line_starts(c: Seq<char>) -> Seq<int> {
    line_starts_upto(c, c.len() as int)
}

/// Number of `'\n'` characters in `s`.
pub open spec fn count_newlines(s: Seq<char>) -> nat
    decreases s.len(),
{
    if s.len() == 0 {
        0
    } else {
        count_newlines(s.drop_last()) + if s.last() == '\n' {
            1nat
        } else {
            0nat
        }
    }
}

/// Where the kept head of `c` ends: after `head_lines` lines or `head_chars`
/// characters, whichever comes first.
pub open spec fn head_end(c: Seq<char>, head_lines: int, head_chars: int) -> int {
    let ls = line_starts(c);
    let by_lines = if head_lines < ls.len() {
        ls[head_lines]
    } else {
        c.len() as int
    };
    let by_chars = if head_chars < c.len() {
        head_chars
    } else {
        c.len() as int
    };
    if by_lines <= by_chars {
        by_lines
    } else {
        by_chars
    }
}

/// Where the kept tail of `c` starts: `tail_lines` lines or `tail_chars`
/// characters before the end, whichever is later (no line kept at all when
/// `tail_lines` is 0).
pub open spec fn tail_start(c: Seq<char>, tail_lines: int, tail_chars: int) -> int {
    let ls = line_starts(c);
    let by_lines = if tail_lines == 0 {
        c.len() as int
    } else if tail_lines < ls.len() {
        ls[ls.len() - tail_lines]
    } else {
        0
    };
    let by_chars = if tail_chars < c.len() {
        c.len() - tail_chars
    } else {
        0
    };
    if by_lines >= by_chars {
        by_lines
    } else {
        by_chars
    }
}

/// The marker that stands for the omitted middle.
pub open spec fn omission_marker(lines: nat, bytes: nat) -> Seq<char> {
    "[... "@ + dec(lines) + " lines and "@ + dec(bytes) + " bytes omitted ...]"@
}

/// `c` fits in the limits and is kept whole.
pub open spec fn within_limits(
    c: Seq<char>,
    head_lines: int,
    tail_lines: int,
    head_chars: int,
    tail_chars: int,
) -> bool {
    line_starts(c).len() <= head_lines + tail_lines && c.len() <= head_chars + tail_chars
}

/// `c` with the characters `h..t` replaced by the omission marker, which
/// stands on a line of its own.
pub open spec fn elide(c: Seq<char>, h: int, t: int) -> Seq<char> {
    let head = c.subrange(0, h);
    let tail = c.subrange(t, c.len() as int);
    let omitted = c.subrange(h, t);
    let sep1 = if head.len() > 0 && head.last() != '\n' {
        seq!['\n']
    } else {
        Seq::<char>::empty()
    };
    let sep2 = if tail.len() > 0 && tail[0] != '\n' {
        seq!['\n']
    } else {
        Seq::<char>::empty()
    };
    head + sep1 + omission_marker(count_newlines(omitted), utf8_len(omitted)) + sep2 + tail
}

/// The text `truncate_text` gives: `c` itself when it is within the limits or
/// the kept head and tail meet; otherwise the head, the omission marker (with
/// the omitted line and byte counts) and the tail.
pub open spec fn truncated(
    c: Seq<char>,
    head_lines: int,
    tail_lines: int,
    head_chars: int,
    tail_chars: int,
) -> Seq<char> {
    let h = head_end(c, head_lines, head_chars);
    let t = tail_start(c, tail_lines, tail_chars);
    if within_limits(c, head_lines, tail_lines, head_chars, tail_chars) || h >= t {
        c
    } else {
        elide(c, h, t)
    }
}

proof fn lemma_line_starts_shape(c: Seq<char>, k: int)
    requires
        0 <= k <= c.len(),
    ensures
        line_starts_upto(c, k).len() >= 1,
        line_starts_upto(c, k).len() <= k + 1,
        line_starts_upto(c, k)[0] == 0,
        forall|j: int|
            0 <= j < line_starts_upto(c, k).len() ==> 0 <= #[trigger] line_starts_upto(c, k)[j]
                <= k && line_starts_upto(c, k)[j] < c.len() || line_starts_upto(c, k)[j] == 0,
        forall|i: int, j: int|
            0 <= i < j < line_starts_upto(c, k).len() ==> line_starts_upto(c, k)[i]
                < line_starts_upto(c, k)[j],
    decreases k,
{
    if k > 0 {
        lemma_line_starts_shape(c, k - 1);
    }
}

/// The start positions of the lines of `c`.
fn line_starts_of(c: &Vec<char>) -> (ls: Vec<usize>)
    ensures
        ls@.len() == line_starts(c@).len(),
        forall|j: int| 0 <= j < ls@.len() ==> ls@[j] as int == #[trigger] line_starts(c@)[j],
{
    let mut ls: Vec<usize> = Vec::new();
    ls.push(0);
    let mut i: usize = 0;
    while i < c.len()
        invariant
            i <= c.len(),
            ls@.len() == line_starts_upto(c@, i as int).len(),
            forall|j: int|
                0 <= j < ls@.len() ==> ls@[j] as int == #[trigger] line_starts_upto(c@, i as int)[j],
        decreases c.len() - i,
    {
        if c[i] == '\n' && i + 1 < c.len() {
            ls.push(i + 1);
        }
        i += 1;
    }
    ls
}

fn cut_points(
    c: &Vec<char>,
    ls: &Vec<usize>,
    head_lines: usize,
    tail_lines: usize,
    head_chars: usize,
    tail_chars: usize,
) -> (r: (usize, usize))
    requires
        ls@.len() == line_starts(c@).len(),
        forall|j: int| 0 <= j < ls@.len() ==> ls@[j] as int == #[trigger] line_starts(c@)[j],
    ensures
        r.0 == head_end(c@, head_lines as int, head_chars as int),
        r.1 == tail_start(c@, tail_lines as int, tail_chars as int),
        r.0 <= c.len(),
        r.1 <= c.len(),
{
    let n = c.len();
    let total_lines = ls.len();
    proof {
        lemma_line_starts_shape(c@, n as int);
    }
    let head_line_end = if head_lines < total_lines {
        ls[head_lines]
    } else {
        n
    };
    let head_char_end = if head_chars < n {
        head_chars
    } else {
        n
    };
    let h = if head_line_end <= head_char_end {
        head_line_end
    } else {
        head_char_end
    };
    let tail_line_start = if tail_lines == 0 {
        n
    } else if tail_lines < total_lines {
        ls[total_lines - tail_lines]
    } else {
        0
    };
    let tail_char_start = if tail_chars < n {
        n - tail_chars
    } else {
        0
    };
    let t = if tail_line_start >= tail_char_start {
        tail_line_start
    } else {
        tail_char_start
    };
    assert(h == head_end(c@, head_lines as int, head_chars as int));
    assert(t == tail_start(c@, tail_lines as int, tail_chars as int));
    (h, t)
}

fn elide_chars(c: &Vec<char>, h: usize, t: usize) -> (out: Vec<char>)
    requires
        h < t <= c.len(),
    ensures
        out@ == elide(c@, h as int, t as int),
{
    let n = c.len();
    let mut omitted_lines: u128 = 0;
    let mut i = h;
    assert(c@.subrange(h as int, h as int).len() == 0);
    while i < t
        invariant
            h <= i <= t,
            t <= n,
            n == c.len(),
            omitted_lines == count_newlines(c@.subrange(h as int, i as int)),
            omitted_lines <= i - h,
        decreases t - i,
    {
        proof {
            let next = c@.subrange(h as int, i + 1);
            assert(next.drop_last() == c@.subrange(h as int, i as int));
            assert(next.last() == c@[i as int]);
        }
        if c[i] == '\n' {
            omitted_lines = omitted_lines + 1;
        }
        i += 1;
    }
    let omitted_bytes = utf8_len_of(&c, h, t);
    let mut out: Vec<char> = slice_chars(&c, 0, h);
    if h > 0 && c[h - 1] != '\n' {
        out.push('\n');
    }
    push_str(&mut out, "[... ");
    push_dec(&mut out, omitted_lines);
    push_str(&mut out, " lines and ");
    push_dec(&mut out, omitted_bytes);
    push_str(&mut out, " bytes omitted ...]");
    if t < n && c[t] != '\n' {
        out.push('\n');
    }
    let tail = slice_chars(&c, t, n);
    push_chars(&mut out, &tail);
    proof {
        let head = c@.subrange(0, h as int);
        let tl = c@.subrange(t as int, n as int);
        assert(h > 0 ==> head.last() == c@[h - 1]);
        assert(t < n ==> tl[0] == c@[t as int]);
    }
    out
}

/// Keeps the first `head_lines` lines (and at most `head_chars` characters) and
/// the last `tail_lines` lines (and at most `tail_chars` characters) of
/// `content`, and puts a marker with the omitted line and byte counts between
/// them. Returns `content` as it is when it fits the limits or the kept parts
/// meet. A `tail_lines` of 0 keeps no tail.
pub fn truncate_text(
    content: &str,
    head_lines: usize,
    tail_lines: usize,
    head_chars: usize,
    tail_chars: usize,
) -> (r: String)
    ensures
        r@ == truncated(
            content@,
            head_lines as int,
            tail_lines as int,
            head_chars as int,
            tail_chars as int,
        ),
        within_limits(
            content@,
            head_lines as int,
            tail_lines as int,
            head_chars as int,
            tail_chars as int,
        ) ==> r@ == content@,
{
    let c = chars_of(content);
    let n = c.len();
    let ls = line_starts_of(&c);
    let total_lines = ls.len();
    proof {
        lemma_line_starts_shape(c@, n as int);
    }
    let fits_lines = total_lines <= head_lines || total_lines - head_lines <= tail_lines;
    let fits_chars = n <= head_chars || n - head_chars <= tail_chars;
    if fits_lines && fits_chars {
        return content.to_owned();
    }
    let (h, t) = cut_points(&c, &ls, head_lines, tail_lines, head_chars, tail_chars);
    if h >= t {
        return content.to_owned();
    }
    let out = elide_chars(&c, h, t);
    string_from_chars(out.as_slice())
}

// ---------------------------------------------------------------------------
// Tool listings
// ---------------------------------------------------------------------------

/// One line per tool: `- name: description`.
pub open spec fn tool_lines(ts: Seq<ToolDefinition>) -> Seq<char>
    decreases ts.len(),
{
    if ts.len() == 0 {
        Seq::empty()
    } else {
        tool_lines(ts.drop_last()) + "- "@ + ts.last().name@ + ": "@ + ts.last().description@
            + "\n"@
    }
}

/// The list of `tools` to put into a system prompt: one `- name: description`
/// line per tool, without trailing whitespace.
pub fn format_tools_block(tools: &[ToolDefinition]) -> (r: String)
    ensures
        r@ == trim_end(tool_lines(tools@)),
{
    let mut v: Vec<char> = Vec::new();
    let mut i: usize = 0;
    while i < tools.len()
        invariant
            i <= tools.len(),
            v@ == tool_lines(tools@.take(i as int)),
        decreases tools.len() - i,
    {
        assert(tools@.take(i + 1).drop_last() == tools@.take(i as int));
        push_str(&mut v, "- ");
        push_str(&mut v, tools[i].name.as_str());
        push_str(&mut v, ": ");
        push_str(&mut v, tools[i].description.as_str());
        push_str(&mut v, "\n");
        i += 1;
    }
    assert(tools@.take(tools.len() as int) == tools@);
    let t = trim_end_chars(&v);
    string_from_chars(t.as_slice())
}

// ---------------------------------------------------------------------------
// Paths (Unix path syntax, as `PathBuf` joins them)
// ---------------------------------------------------------------------------

/// `p` is an absolute path.
pub open spec fn is_absolute(p: Seq<char>) -> bool {
    p.len() > 0 && p[0] == '/'
}

/// `base` joined with `rel`: `rel` itself when it is absolute; otherwise `rel`
/// appended to `base`, with a separator between them when `base` is not empty
/// and does not end in one.
pub open spec fn join_path(base: Seq<char>, rel: Seq<char>) -> Seq<char> {
    if is_absolute(rel) {
        rel
    } else if base.len() > 0 && base.last() != '/' {
        base + "/"@ + rel
    } else {
        base + rel
    }
}

/// `p` with a leading `~` standing for the home directory `home`: `~` alone
/// becomes `home`, `~/rest` becomes `home` joined with `rest`; any other path,
/// or any path when there is no home directory, stays as it is.
pub open spec fn tilde_expanded(p: Seq<char>, home: Option<Seq<char>>) -> Seq<char> {
    match home {
        Some(h) => if p == "~"@ {
            h
        } else if has_prefix(p, "~/"@) {
            join_path(h, p.subrange(2, p.len() as int))
        } else {
            p
        },
        None => p,
    }
}

/// The path `p` resolves to from the directory `base`: `~` expanded, then
/// joined to `base` unless absolute.
pub open spec fn resolved_path(base: Seq<char>, p: Seq<char>, home: Option<Seq<char>>) -> Seq<
    char,
> {
    let e = tilde_expanded(p, home);
    if is_absolute(e) {
        e
    } else {
        join_path(base, e)
    }
}

/// An absolute path without a leading `~` resolves to itself from any
/// directory.
pub proof fn lemma_absolute_resolves_to_itself(
    base: Seq<char>,
    p: Seq<char>,
    home: Option<Seq<char>>,
)
    requires
        is_absolute(p),
    ensures
        resolved_path(base, p, home) == p,
{
    reveal_strlit("~");
    reveal_strlit("~/");
    if home is Some {
        assert(p != "~"@);
        assert(!has_prefix(p, "~/"@)) by {
            if has_prefix(p, "~/"@) {
                assert(p.subrange(0, 2)[0] == p[0]);
            }
        }
    }
}

/// Where the run of characters other than `/` of `t` that starts at `i`
/// ends, looking no further than `hi`.
pub open spec fn part_end(t: Seq<char>, i: int, hi: int) -> int
    decreases hi - i,
{
    if i >= hi || t[i] == '/' {
        i
    } else {
        part_end(t, i + 1, hi)
    }
}

/// `part_end` lies between `i` and `hi`.
pub proof fn lemma_part_end_bounds(t: Seq<char>, i: int, hi: int)
    requires
        i <= hi,
    ensures
        i <= part_end(t, i, hi) <= hi,
    decreases hi - i,
{
    if i < hi && t[i] != '/' {
        lemma_part_end_bounds(t, i + 1, hi);
    }
}

/// The spans of the components of the path `t` between `i` and `hi`: the
/// maximal runs of characters other than `/`, in order.
pub open spec fn part_spans(t: Seq<char>, i: int, hi: int) -> Seq<(int, int)>
    decreases hi - i,
{
    if i >= hi {
        Seq::empty()
    } else if t[i] == '/' {
        part_spans(t, i + 1, hi)
    } else {
        let e = part_end(t, i + 1, hi);
        proof {
            lemma_part_end_bounds(t, i + 1, hi);
        }
        seq![(i, e)] + part_spans(t, e, hi)
    }
}

/// The components of the path `p`, in order (`.` and `..` included; empty
/// ones between repeated separators left out).
pub open spec fn path_parts(p: Seq<char>) -> Seq<Seq<char>> {
    span_texts(p, part_spans(p, 0, p.len() as int))
}

/// The components `parts` with `.` and `..` resolved as text: `.` dropped,
/// `..` taking back the component before it; a `..` with nothing before it
/// to take back is dropped in an absolute path (the root's parent is the
/// root) and kept in a relative one.
pub open spec fn lexical_parts(parts: Seq<Seq<char>>, absolute: bool) -> Seq<Seq<char>>
    decreases parts.len(),
{
    if parts.len() == 0 {
        Seq::empty()
    } else {
        let s = lexical_parts(parts.drop_last(), absolute);
        let c = parts.last();
        if c == "."@ {
            s
        } else if c == ".."@ {
            if s.len() > 0 && s.last() != ".."@ {
                s.drop_last()
            } else if absolute {
                s
            } else {
                s.push(c)
            }
        } else {
            s.push(c)
        }
    }
}

/// The path made of the components `parts`, absolute or not.
pub open spec fn parts_text(parts: Seq<Seq<char>>, absolute: bool) -> Seq<char> {
    (if absolute {
        "/"@
    } else {
        Seq::empty()
    }) + join(parts, "/"@)
}

/// The components of the path `t`.
pub fn path_parts_of(t: &Vec<char>) -> (r: Vec<Vec<char>>)
    ensures
        vecs_view(r@) == path_parts(t@),
{
    let hi = t.len();
    let mut sp: Vec<(usize, usize)> = Vec::new();
    let mut i: usize = 0;
    while i < hi
        invariant
            i <= hi,
            hi == t.len(),
            spans_view(sp@) + part_spans(t@, i as int, hi as int) == part_spans(t@, 0, hi as int),
            forall|k: int| 0 <= k < sp@.len() ==> 0 <= (#[trigger] sp@[k]).0 < sp@[k].1 <= i,
        decreases hi - i,
    {
        if t[i] == '/' {
            i += 1;
        } else {
            let mut e = i + 1;
            proof {
                lemma_part_end_bounds(t@, i + 1, hi as int);
            }
            while e < hi && t[e] != '/'
                invariant
                    i < e <= hi,
                    hi == t.len(),
                    part_end(t@, e as int, hi as int) == part_end(t@, i + 1, hi as int),
                decreases hi - e,
            {
                e += 1;
            }
            let ghost before = spans_view(sp@);
            sp.push((i, e));
            proof {
                assert(spans_view(sp@) == before.push((i as int, e as int)));
                assert(part_spans(t@, i as int, hi as int) == seq![(i as int, e as int)]
                    + part_spans(t@, e as int, hi as int));
                assert(spans_view(sp@) + part_spans(t@, e as int, hi as int) == before
                    + part_spans(t@, i as int, hi as int));
            }
            i = e;
        }
    }
    assert(spans_view(sp@) + part_spans(t@, i as int, hi as int) == spans_view(sp@));
    let mut out: Vec<Vec<char>> = Vec::new();
    let mut k: usize = 0;
    while k < sp.len()
        invariant
            k <= sp@.len(),
            spans_view(sp@) == part_spans(t@, 0, t@.len() as int),
            forall|j: int| 0 <= j < sp@.len() ==> 0 <= (#[trigger] sp@[j]).0 < sp@[j].1 <= t@.len(),
            vecs_view(out@) == span_texts(t@, spans_view(sp@)).take(k as int),
        decreases sp.len() - k,
    {
        let (a, b) = sp[k];
        let w = slice_chars(t, a, b);
        let ghost before = vecs_view(out@);
        out.push(w);
        proof {
            assert(spans_view(sp@)[k as int] == (a as int, b as int));
            assert(vecs_view(out@) == before.push(t@.subrange(a as int, b as int)));
            assert(span_texts(t@, spans_view(sp@)).take(k + 1) == span_texts(
                t@,
                spans_view(sp@),
            ).take(k as int).push(t@.subrange(a as int, b as int)));
        }
        k += 1;
    }
    assert(span_texts(t@, spans_view(sp@)).take(k as int) == span_texts(t@, spans_view(sp@)));
    out
}

/// The components `parts` with `.` and `..` resolved as text.
pub fn lexical_parts_of(parts: &Vec<Vec<char>>, absolute: bool) -> (r: Vec<Vec<char>>)
    ensures
        vecs_view(r@) == lexical_parts(vecs_view(parts@), absolute),
{
    proof {
        reveal_strlit(".");
        reveal_strlit("..");
    }
    let mut st: Vec<Vec<char>> = Vec::new();
    let mut i: usize = 0;
    while i < parts.len()
        invariant
            i <= parts@.len(),
            vecs_view(st@) == lexical_parts(vecs_view(parts@).take(i as int), absolute),
        decreases parts.len() - i,
    {
        let ghost pv = vecs_view(parts@);
        assert(pv.take(i + 1).drop_last() == pv.take(i as int));
        assert(pv.take(i + 1).last() == parts@[i as int]@);
        let ghost before = vecs_view(st@);
        let c = &parts[i];
        if is_exactly(c, ".") {
        } else if is_exactly(c, "..") {
            let n = st.len();
            if n > 0 && !is_exactly(&st[n - 1], "..") {
                st.pop();
                assert(vecs_view(st@) =~= before.drop_last());
            } else if !absolute {
                let cc = slice_chars(c, 0, c.len());
                assert(cc@ =~= c@);
                st.push(cc);
                assert(vecs_view(st@) =~= before.push(c@));
            }
        } else {
            let cc = slice_chars(c, 0, c.len());
            assert(cc@ =~= c@);
            st.push(cc);
            assert(vecs_view(st@) =~= before.push(c@));
        }
        i += 1;
    }
    assert(vecs_view(parts@).take(parts@.len() as int) == vecs_view(parts@));
    st
}

/// `parts` with every `.` left out; `..` and all other parts kept in order.
pub open spec fn named_parts(parts: Seq<Seq<char>>) -> Seq<Seq<char>>
    decreases parts.len(),
{
    if parts.len() == 0 {
        Seq::empty()
    } else if parts.last() == "."@ {
        named_parts(parts.drop_last())
    } else {
        named_parts(parts.drop_last()).push(parts.last())
    }
}

/// What a path written `p` starts with before its named parts: the root
/// (written `/`) when `p` is absolute, `.` when a relative `p` begins with
/// the component `.`, nothing otherwise.
pub open spec fn leading_components(p: Seq<char>) -> Seq<Seq<char>> {
    if is_absolute(p) {
        seq!["/"@]
    } else if p.len() > 0 && p[0] == '.' && (p.len() == 1 || p[1] == '/') {
        seq!["."@]
    } else {
        Seq::empty()
    }
}

/// The components of the path written `p`, as `Path::components` yields
/// them: its leading component, then its parts with every `.` left out
/// (repeated and trailing separators count for nothing).
pub open spec fn path_components(p: Seq<char>) -> Seq<Seq<char>> {
    leading_components(p) + named_parts(path_parts(p))
}

/// The leading component of the path `t`, if it has one.
pub fn leading_components_of(t: &Vec<char>) -> (r: Vec<Vec<char>>)
    ensures
        vecs_view(r@) == leading_components(t@),
{
    let mut out: Vec<Vec<char>> = Vec::new();
    if t.len() > 0 && t[0] == '/' {
        out.push(chars_of("/"));
    } else if t.len() > 0 && t[0] == '.' && (t.len() == 1 || t[1] == '/') {
        out.push(chars_of("."));
    }
    assert(vecs_view(out@) =~= leading_components(t@));
    out
}

/// The components of the path `t`.
pub fn path_components_of(t: &Vec<char>) -> (r: Vec<Vec<char>>)
    ensures
        vecs_view(r@) == path_components(t@),
{
    let parts = path_parts_of(t);
    let mut out = leading_components_of(t);
    let ghost lead = vecs_view(out@);
    let ghost pv = vecs_view(parts@);
    let mut i: usize = 0;
    while i < parts.len()
        invariant
            i <= parts@.len(),
            pv == vecs_view(parts@),
            vecs_view(out@) == lead + named_parts(pv.take(i as int)),
        decreases parts.len() - i,
    {
        assert(pv.take(i + 1).drop_last() == pv.take(i as int));
        assert(pv.take(i + 1).last() == parts@[i as int]@);
        let ghost before = vecs_view(out@);
        if !is_exactly(&parts[i], ".") {
            let c = slice_chars(&parts[i], 0, parts[i].len());
            assert(c@ =~= parts@[i as int]@);
            out.push(c);
            assert(vecs_view(out@) =~= before.push(parts@[i as int]@));
        }
        i += 1;
    }
    assert(pv.take(parts@.len() as int) == pv);
    out
}

/// Whether `a` is a prefix of `b`, part by part.
pub fn parts_prefix(a: &Vec<Vec<char>>, b: &Vec<Vec<char>>) -> (r: bool)
    ensures
        r == vecs_view(a@).is_prefix_of(vecs_view(b@)),
{
    if a.len() > b.len() {
        return false;
    }
    let mut i: usize = 0;
    while i < a.len()
        invariant
            i <= a@.len() <= b@.len(),
            forall|k: int| 0 <= k < i ==> vecs_view(a@)[k] == vecs_view(b@)[k],
        decreases a.len() - i,
    {
        if !chars_eq(&a[i], &b[i]) {
            assert(vecs_view(a@)[i as int] != vecs_view(b@).subrange(0, a@.len() as int)[i as int]);
            return false;
        }
        i += 1;
    }
    assert(vecs_view(a@) =~= vecs_view(b@).subrange(0, a@.len() as int));
    true
}

/// `Path::starts_with`: whether the components of the path written `base`
/// are the first components of the path written `p`.
pub fn path_starts_with(p: &str, base: &str) -> (r: bool)
    ensures
        r == path_components(base@).is_prefix_of(path_components(p@)),
{
    let pc = path_components_of(&chars_of(p));
    let bc = path_components_of(&chars_of(base));
    parts_prefix(&bc, &pc)
}

/// `Path == Path`: whether the paths written `a` and `b` have the same
/// components.
pub fn paths_equal(a: &str, b: &str) -> (r: bool)
    ensures
        r == (path_components(a@) == path_components(b@)),
{
    let ac = path_components_of(&chars_of(a));
    let bc = path_components_of(&chars_of(b));
    let r = ac.len() == bc.len() && parts_prefix(&ac, &bc);
    proof {
        assert(vecs_view(ac@).len() == ac@.len() && vecs_view(bc@).len() == bc@.len());
        if r {
            assert(vecs_view(ac@) =~= vecs_view(bc@));
        }
        if vecs_view(ac@) == vecs_view(bc@) {
            assert(vecs_view(bc@).subrange(0, bc@.len() as int) =~= vecs_view(bc@));
        }
    }
    r
}

fn join_chars(base: &Vec<char>, rel: &Vec<char>) -> (r: Vec<char>)
    ensures
        r@ == join_path(base@, rel@),
{
    if rel.len() > 0 && rel[0] == '/' {
        return slice_chars(rel, 0, rel.len());
    }
    let mut out = slice_chars(base, 0, base.len());
    if base.len() > 0 && base[base.len() - 1] != '/' {
        push_str(&mut out, "/");
    }
    push_chars(&mut out, rel);
    out
}

/// `base` joined with `rel`, as `Path::join` joins them.
pub fn join_paths(base: &str, rel: &str) -> (r: String)
    ensures
        r@ == join_path(base@, rel@),
{
    let b = chars_of(base);
    let r = chars_of(rel);
    let j = join_chars(&b, &r);
    string_from_chars(j.as_slice())
}

fn expand_chars(p: &Vec<char>, home: Option<&str>) -> (r: Vec<char>)
    ensures
        r@ == tilde_expanded(p@, match home {
            Some(h) => Some(h@),
            None => None,
        }),
{
    match home {
        Some(h) => {
            let hc = chars_of(h);
            if is_exactly(p, "~") {
                hc
            } else if starts_with(p, "~/") {
                proof {
                    reveal_strlit("~/");
                }
                let rest = slice_chars(p, 2, p.len());
                join_chars(&hc, &rest)
            } else {
                slice_chars(p, 0, p.len())
            }
        },
        None => slice_chars(p, 0, p.len()),
    }
}

/// `path` with a leading `~` expanded to `home`, the home directory when
/// there is one.
pub fn expand_tilde(path: &str, home: Option<&str>) -> (r: String)
    ensures
        r@ == tilde_expanded(path@, match home {
            Some(h) => Some(h@),
            None => None,
        }),
{
    let p = chars_of(path);
    let e = expand_chars(&p, home);
    string_from_chars(e.as_slice())
}

/// The path `path_str` resolves to from `base_dir`, `home` being the home
/// directory when there is one: relative paths are joined to `base_dir`.
pub fn resolve_path(base_dir: &str, path_str: &str, home: Option<&str>) -> (r: String)
    ensures
        r@ == resolved_path(base_dir@, path_str@, match home {
            Some(h) => Some(h@),
            None => None,
        }),
{
    let p = chars_of(path_str);
    let e = expand_chars(&p, home);
    if e.len() > 0 && e[0] == '/' {
        string_from_chars(e.as_slice())
    } else {
        let b = chars_of(base_dir);
        let j = join_chars(&b, &e);
        string_from_chars(j.as_slice())
    }
}


// ---------------------------------------------------------------------------
// Configuration resources
// ---------------------------------------------------------------------------

/// The configuration directory `~/.config/rope`, `home` being the home
/// directory when it is known (`.` stands for it otherwise).
pub open spec fn config_dir(home: Option<Seq<char>>) -> Seq<char> {
    join_path(
        match home {
            Some(h) => h,
            None => "."@,
        },
        ".config/rope"@,
    )
}

/// Where the resource `name` is looked for, in order. A name that is
/// absolute once `~` is expanded is taken as it is. Otherwise an explicitly
/// requested resource is looked for under `base` first, then in the
/// configuration directory; a default one only in the configuration directory.
pub open spec fn resource_places(
    name: Seq<char>,
    explicit: bool,
    base: Seq<char>,
    home: Option<Seq<char>>,
) -> Seq<Seq<char>> {
    let e = tilde_expanded(name, home);
    if is_absolute(e) {
        seq![e]
    } else if explicit {
        seq![join_path(base, e), join_path(config_dir(home), e)]
    } else {
        seq![join_path(config_dir(home), e)]
    }
}

/// The report that the resource `name` was found nowhere.
pub open spec fn resource_missing_text(name: Seq<char>, explicit: bool, base: Seq<char>) -> Seq<
    char,
> {
    if explicit {
        "Resource '"@ + name + "' not found in CWD ("@ + base + ") or ~/.config/rope/"@
    } else {
        "Default resource '"@ + name + "' not found in ~/.config/rope/"@
    }
}

/// The places where the resource `name` is looked for, in order.
pub fn resource_candidates(name: &str, is_explicit: bool, base_dir: &str, home: Option<&str>) -> (r:
    Vec<String>)
    ensures
        texts(r@) == resource_places(name@, is_explicit, base_dir@, match home {
            Some(h) => Some(h@),
            None => None,
        }),
{
    let p = chars_of(name);
    let e = expand_chars(&p, home);
    let mut out: Vec<String> = Vec::new();
    if e.len() > 0 && e[0] == '/' {
        out.push(string_from_chars(e.as_slice()));
        assert(texts(out@) == seq![e@]);
        return out;
    }
    let root = match home {
        Some(h) => chars_of(h),
        None => chars_of("."),
    };
    let mut sub: Vec<char> = Vec::new();
    push_str(&mut sub, ".config/rope");
    let cfg = join_chars(&root, &sub);
    let in_cfg = join_chars(&cfg, &e);
    if is_explicit {
        let b = chars_of(base_dir);
        let in_base = join_chars(&b, &e);
        out.push(string_from_chars(in_base.as_slice()));
        out.push(string_from_chars(in_cfg.as_slice()));
        assert(texts(out@) == seq![in_base@, in_cfg@]);
    } else {
        out.push(string_from_chars(in_cfg.as_slice()));
        assert(texts(out@) == seq![in_cfg@]);
    }
    out
}

/// The report that the resource `name` was found nowhere.
pub fn resource_missing(name: &str, is_explicit: bool, base_dir: &str) -> (r: String)
    ensures
        r@ == resource_missing_text(name@, is_explicit, base_dir@),
{
    let mut out: Vec<char> = Vec::new();
    if is_explicit {
        push_str(&mut out, "Resource '");
        push_str(&mut out, name);
        push_str(&mut out, "' not found in CWD (");
        push_str(&mut out, base_dir);
        push_str(&mut out, ") or ~/.config/rope/");
    } else {
        push_str(&mut out, "Default resource '");
        push_str(&mut out, name);
        push_str(&mut out, "' not found in ~/.config/rope/");
    }
    string_from_chars(out.as_slice())
}

/// The first of `places` that `exists` marks as existing.
pub fn pick_existing(places: &Vec<String>, exists: &Vec<bool>) -> (r: Option<String>)
    requires
        exists@.len() == places@.len(),
    ensures
        match r {
            Some(p) => exists|i: int|
                0 <= i < places@.len() && exists@[i] && p@ == places@[i]@ && forall|j: int|
                    0 <= j < i ==> !exists@[j],
            None => forall|j: int| 0 <= j < places@.len() ==> !exists@[j],
        },
{
    let mut i: usize = 0;
    while i < places.len()
        invariant
            i <= places@.len(),
            exists@.len() == places@.len(),
            forall|j: int| 0 <= j < i ==> !exists@[j],
        decreases places.len() - i,
    {
        if exists[i] {
            return Some(places[i].clone());
        }
        i += 1;
    }
    None
}

/// The resource `name` among the places `places` where it was looked for:
/// the first place that `exists` marks as existing, or the report that it was
/// found nowhere.
pub fn locate_among(
    name: &str,
    is_explicit: bool,
    base_dir: &str,
    places: &Vec<String>,
    exists: &Vec<bool>,
) -> (r: Result<String, String>)
    requires
        exists@.len() == places@.len(),
    ensures
        match r {
            Ok(p) => exists|i: int|
                0 <= i < places@.len() && exists@[i] && p@ == places@[i]@ && forall|j: int|
                    0 <= j < i ==> !exists@[j],
            Err(e) => (forall|j: int| 0 <= j < places@.len() ==> !exists@[j]) && e@
                == resource_missing_text(name@, is_explicit, base_dir@),
        },
{
    match pick_existing(places, exists) {
        Some(p) => Ok(p),
        None => Err(resource_missing(name, is_explicit, base_dir)),
    }
}

} // verus!
