//! The `lookup` tool: what it reports of files, directories and web pages.
//! Reading the disk and the network is the caller's part; the library turns
//! what was read into the tool's XML-structured answer.

use vstd::prelude::*;
use crate::{BondageError, ToolDefinition};
use crate::order::{is_stable_sort, stable_sort_indices};
use crate::text::{
    chars_of, contains, contains_chars, dec, has_prefix, join, join_lines, lines, lowercase,
    lowercase_chars, occurs_at, push_chars, push_dec, push_str, split_lines, string_from_chars, trim,
    trim_chars, vecs_view,
};
use crate::util::resolved_path;

verus! {

broadcast use vstd::string::group_string_axioms;

/// Arguments of the `lookup` tool.
#[derive(Debug, Clone)]
pub struct LookupArgs {
    /// A path, an http(s) URL, or `web`.
    pub target: String,
    /// A search term or anchor.
    pub query: Option<String>,
    /// Context radius: lines around a match, or entries of a directory listing.
    pub radius: Option<usize>,
}

/// `d` is the definition of the `lookup` tool.
pub open spec fn is_lookup_definition(d: ToolDefinition) -> bool {
    &&& d.name@ == "lookup"@
    &&& d.description@
        == "Examine a file, search inside a file, list directories, search directories, read webpages, or run a web search."@
    &&& d.parameters@
        == "{\"type\":\"object\",\"properties\":{\"target\":{\"type\":\"string\",\"description\":\"The destination path, URL, or 'web'.\"},\"query\":{\"type\":\"string\",\"description\":\"Optional search term, symbol anchor, or web query.\"},\"radius\":{\"type\":\"integer\",\"description\":\"Optional context radius (lines for files, depth for directory listing, results count for web search).\"}},\"required\":[\"target\"]}"@
}

/// The definition of the `lookup` tool.
pub fn definition() -> (d: ToolDefinition)
    ensures
        is_lookup_definition(d),
{
    ToolDefinition {
        name: "lookup".to_owned(),
        description: "Examine a file, search inside a file, list directories, search directories, read webpages, or run a web search.".to_owned(),
        parameters: "{\"type\":\"object\",\"properties\":{\"target\":{\"type\":\"string\",\"description\":\"The destination path, URL, or 'web'.\"},\"query\":{\"type\":\"string\",\"description\":\"Optional search term, symbol anchor, or web query.\"},\"radius\":{\"type\":\"integer\",\"description\":\"Optional context radius (lines for files, depth for directory listing, results count for web search).\"}},\"required\":[\"target\"]}".to_owned(),
    }
}

// ---------------------------------------------------------------------------
// Escaping
// ---------------------------------------------------------------------------

/// The escaped form of one character.
pub open spec fn escape_char(c: char) -> Seq<char> {
    if c == '<' {
        "&lt;"@
    } else if c == '>' {
        "&gt;"@
    } else if c == '&' {
        "&amp;"@
    } else if c == '"' {
        "&quot;"@
    } else if c == '\'' {
        "&apos;"@
    } else {
        seq![c]
    }
}

/// `s` with the XML special characters replaced by entities.
pub open spec fn escape(s: Seq<char>) -> Seq<char>
    decreases s.len(),
{
    if s.len() == 0 {
        Seq::empty()
    } else {
        escape(s.drop_last()) + escape_char(s.last())
    }
}

/// Appends the escaped form of `s` to `out`.
fn push_escaped(out: &mut Vec<char>, s: &Vec<char>)
    ensures
        final(out)@ == old(out)@ + escape(s@),
{
    let mut i: usize = 0;
    assert(s@.take(0).len() == 0);
    while i < s.len()
        invariant
            i <= s.len(),
            out@ == old(out)@ + escape(s@.take(i as int)),
        decreases s.len() - i,
    {
        let c = s[i];
        assert(s@.take(i + 1).drop_last() == s@.take(i as int));
        assert(s@.take(i + 1).last() == c);
        if c == '<' {
            push_str(out, "&lt;");
        } else if c == '>' {
            push_str(out, "&gt;");
        } else if c == '&' {
            push_str(out, "&amp;");
        } else if c == '"' {
            push_str(out, "&quot;");
        } else if c == '\'' {
            push_str(out, "&apos;");
        } else {
            out.push(c);
        }
        i += 1;
    }
    assert(s@.take(s.len() as int) == s@);
}

/// `input` with `<`, `>`, `&`, `"` and `'` replaced by XML entities.
pub fn html_escape(input: &str) -> (r: String)
    ensures
        r@ == escape(input@),
        forall|i: int|
            0 <= i < r@.len() ==> r@[i] != '<' && r@[i] != '>' && r@[i] != '"' && r@[i] != '\'',
{
    let s = chars_of(input);
    let mut out: Vec<char> = Vec::new();
    push_escaped(&mut out, &s);
    proof {
        lemma_escape_clean(input@);
    }
    string_from_chars(out.as_slice())
}

/// Text is safe to place inside an XML attribute or element once escaped.
pub open spec fn xml_clean(s: Seq<char>) -> bool {
    forall|i: int| 0 <= i < s.len() ==> s[i] != '<' && s[i] != '>' && s[i] != '"' && s[i] != '\''
}

/// Escaped text holds no raw `<`, `>`, `"` or `'`.
pub proof fn lemma_escape_clean(s: Seq<char>)
    ensures
        xml_clean(escape(s)),
    decreases s.len(),
{
    reveal_strlit("&lt;");
    reveal_strlit("&gt;");
    reveal_strlit("&amp;");
    reveal_strlit("&quot;");
    reveal_strlit("&apos;");
    if s.len() > 0 {
        lemma_escape_clean(s.drop_last());
        let a = escape(s.drop_last());
        let b = escape_char(s.last());
        assert(xml_clean(b));
        assert forall|i: int| 0 <= i < (a + b).len() implies (a + b)[i] != '<' && (a + b)[i]
            != '>' && (a + b)[i] != '"' && (a + b)[i] != '\'' by {
            if i < a.len() {
                assert((a + b)[i] == a[i]);
            } else {
                assert((a + b)[i] == b[i - a.len()]);
            }
        }
    }
}

// ---------------------------------------------------------------------------
// Files
// ---------------------------------------------------------------------------

/// The indices `i` with `flags[i]`, in increasing order.
pub open spec fn matches_of(flags: Seq<bool>) -> Seq<int>
    decreases flags.len(),
{
    if flags.len() == 0 {
        Seq::empty()
    } else {
        matches_of(flags.drop_last()) + if flags.last() {
            seq![flags.len() - 1]
        } else {
            Seq::<int>::empty()
        }
    }
}

/// The lines around the match at line `m`: `radius` lines on each side,
/// clipped to the `n` lines there are. A half-open range of line indices.
pub open spec fn window(m: int, radius: int, n: int) -> (int, int) {
    let s = if m >= radius {
        m - radius
    } else {
        0
    };
    let e = if m + radius + 1 <= n {
        m + radius + 1
    } else {
        n
    };
    (s, e)
}

/// The fragments for the matches `ms`, the fragment `(cs, ce)` being open:
/// a window that starts within the open fragment extends it; any other
/// closes it and opens its own.
pub open spec fn merge_windows(ms: Seq<int>, radius: int, n: int, cs: int, ce: int) -> Seq<
    (int, int),
>
    decreases ms.len(),
{
    if ms.len() == 0 {
        seq![(cs, ce)]
    } else {
        let w = window(ms[0], radius, n);
        if w.0 <= ce {
            merge_windows(ms.drop_first(), radius, n, cs, w.1)
        } else {
            seq![(cs, ce)] + merge_windows(ms.drop_first(), radius, n, w.0, w.1)
        }
    }
}

/// The fragments shown for the matches `ms` of a file of `n` lines.
pub open spec fn fragments(ms: Seq<int>, radius: int, n: int) -> Seq<(int, int)> {
    if ms.len() == 0 {
        Seq::empty()
    } else {
        let w = window(ms[0], radius, n);
        merge_windows(ms.drop_first(), radius, n, w.0, w.1)
    }
}

/// Lines `s..e` of `ls`, each prefixed with its 1-based number.
pub open spec fn numbered(ls: Seq<Seq<char>>, s: int, e: int) -> Seq<char>
    decreases e - s,
{
    if e <= s {
        Seq::empty()
    } else {
        numbered(ls, s, e - 1) + dec(e as nat) + ": "@ + ls[e - 1] + "\n"@
    }
}

/// One fragment of a file.
pub open spec fn render_fragment(ls: Seq<Seq<char>>, s: int, e: int) -> Seq<char> {
    "  <fragment start_line=\""@ + dec((s + 1) as nat) + "\" end_line=\""@ + dec(e as nat)
        + "\">\n"@ + numbered(ls, s, e) + "  </fragment>\n"@
}

/// The fragments `fs` of a file, one after another.
pub open spec fn render_fragments(ls: Seq<Seq<char>>, fs: Seq<(int, int)>) -> Seq<char>
    decreases fs.len(),
{
    if fs.len() == 0 {
        Seq::empty()
    } else {
        render_fragment(ls, fs[0].0, fs[0].1) + render_fragments(ls, fs.drop_first())
    }
}

/// The answer to a lookup of `query` in the file `path` with the lines `ls`,
/// `flags` telling which lines match.
pub open spec fn file_query_answer(
    path: Seq<char>,
    ls: Seq<Seq<char>>,
    query: Seq<char>,
    flags: Seq<bool>,
    radius: int,
) -> Seq<char> {
    let ms = matches_of(flags);
    if ms.len() == 0 {
        "<file path=\""@ + path + "\" query=\""@ + escape(query)
            + "\">\n  <!-- Query not found in file -->\n</file>"@
    } else {
        "<file path=\""@ + path + "\" query=\""@ + escape(query) + "\" total_lines=\""@ + dec(
            ls.len(),
        ) + "\">\n"@ + render_fragments(ls, fragments(ms, radius, ls.len() as int))
            + "</file>"@
    }
}

proof fn lemma_matches_of_shape(flags: Seq<bool>)
    ensures
        forall|j: int|
            0 <= j < matches_of(flags).len() ==> 0 <= #[trigger] matches_of(flags)[j] < flags.len()
                && flags[matches_of(flags)[j]],
        forall|i: int, j: int|
            0 <= i < j < matches_of(flags).len() ==> matches_of(flags)[i] < matches_of(flags)[j],
    decreases flags.len(),
{
    if flags.len() > 0 {
        let prev = flags.drop_last();
        lemma_matches_of_shape(prev);
        let a = matches_of(prev);
        let b = if flags.last() {
            seq![flags.len() - 1]
        } else {
            Seq::<int>::empty()
        };
        assert(matches_of(flags) == a + b);
        assert forall|j: int| 0 <= j < (a + b).len() implies 0 <= #[trigger] (a + b)[j]
            < flags.len() && flags[(a + b)[j]] by {
            if j < a.len() {
                assert((a + b)[j] == a[j]);
                assert(prev[a[j]] == flags[a[j]]);
            } else {
                assert((a + b)[j] == b[j - a.len()]);
            }
        }
        assert forall|i: int, j: int| 0 <= i < j < (a + b).len() implies (a + b)[i] < (a
            + b)[j] by {
            if j < a.len() {
                assert((a + b)[i] == a[i]);
                assert((a + b)[j] == a[j]);
            } else {
                assert((a + b)[j] == flags.len() - 1);
                if i < a.len() {
                    assert((a + b)[i] == a[i]);
                    assert(a[i] < prev.len());
                }
            }
        }
    }
}

fn window_of(m: usize, radius: usize, n: usize) -> (r: (usize, usize))
    requires
        m < n,
    ensures
        r.0 <= m < r.1 <= n,
        r.0 == window(m as int, radius as int, n as int).0,
        r.1 == window(m as int, radius as int, n as int).1,
{
    let s = if m >= radius {
        m - radius
    } else {
        0
    };
    let e = if radius < n - m {
        m + radius + 1
    } else {
        n
    };
    (s, e)
}

fn push_numbered(out: &mut Vec<char>, ls: &Vec<Vec<char>>, s: usize, e: usize)
    requires
        s <= e <= ls.len(),
    ensures
        final(out)@ == old(out)@ + numbered(vecs_view(ls@), s as int, e as int),
{
    let mut i = s;
    while i < e
        invariant
            s <= i <= e,
            e <= ls.len(),
            out@ == old(out)@ + numbered(vecs_view(ls@), s as int, i as int),
        decreases e - i,
    {
        push_dec(out, (i + 1) as u128);
        push_str(out, ": ");
        push_chars(out, &ls[i]);
        push_str(out, "\n");
        i += 1;
    }
}

fn push_fragment(out: &mut Vec<char>, ls: &Vec<Vec<char>>, s: usize, e: usize)
    requires
        s < e <= ls.len(),
    ensures
        final(out)@ == old(out)@ + render_fragment(vecs_view(ls@), s as int, e as int),
{
    push_str(out, "  <fragment start_line=\"");
    push_dec(out, (s + 1) as u128);
    push_str(out, "\" end_line=\"");
    push_dec(out, e as u128);
    push_str(out, "\">\n");
    push_numbered(out, ls, s, e);
    push_str(out, "  </fragment>\n");
}

/// The matched line indices of `flags`.
fn match_list(flags: &[bool]) -> (ms: Vec<usize>)
    ensures
        ms@.len() == matches_of(flags@).len(),
        forall|j: int| 0 <= j < ms@.len() ==> ms@[j] as int == #[trigger] matches_of(flags@)[j],
{
    let mut ms: Vec<usize> = Vec::new();
    let mut i: usize = 0;
    while i < flags.len()
        invariant
            i <= flags.len(),
            ms@.len() == matches_of(flags@.take(i as int)).len(),
            forall|j: int|
                0 <= j < ms@.len() ==> ms@[j] as int == #[trigger] matches_of(
                    flags@.take(i as int),
                )[j],
        decreases flags.len() - i,
    {
        assert(flags@.take(i + 1).drop_last() == flags@.take(i as int));
        if flags[i] {
            ms.push(i);
        }
        i += 1;
    }
    assert(flags@.take(flags.len() as int) == flags@);
    ms
}

fn push_fragments(out: &mut Vec<char>, ls: &Vec<Vec<char>>, flags: &[bool], radius: usize)
    requires
        flags.len() == ls.len(),
        matches_of(flags@).len() > 0,
    ensures
        final(out)@ == old(out)@ + render_fragments(
            vecs_view(ls@),
            fragments(matches_of(flags@), radius as int, ls.len() as int),
        ),
{
    let n = ls.len();
    let ms = match_list(flags);
    let ghost msv = matches_of(flags@);
    let ghost lv = vecs_view(ls@);
    proof {
        lemma_matches_of_shape(flags@);
    }
    assert(ms@[0] as int == msv[0]);
    let (mut cs, mut ce) = window_of(ms[0], radius, n);
    let ghost target = old(out)@ + render_fragments(lv, fragments(msv, radius as int, n as int));
    let mut j: usize = 1;
    assert(msv.subrange(1, msv.len() as int) == msv.drop_first());
    while j < ms.len()
        invariant
            1 <= j <= ms.len(),
            ms@.len() == msv.len(),
            forall|k: int| 0 <= k < ms@.len() ==> ms@[k] as int == #[trigger] msv[k],
            forall|k: int| 0 <= k < msv.len() ==> 0 <= #[trigger] msv[k] < n,
            n == ls.len(),
            lv == vecs_view(ls@),
            cs < ce <= n,
            ce as int == window(msv[j - 1], radius as int, n as int).1,
            forall|a: int, b: int| 0 <= a < b < msv.len() ==> msv[a] < msv[b],
            out@ + render_fragments(
                lv,
                merge_windows(
                    msv.subrange(j as int, msv.len() as int),
                    radius as int,
                    n as int,
                    cs as int,
                    ce as int,
                ),
            ) == target,
        decreases ms.len() - j,
    {
        let ghost rest = msv.subrange(j as int, msv.len() as int);
        assert(rest[0] == msv[j as int]);
        assert(rest.drop_first() == msv.subrange(j + 1, msv.len() as int));
        let (s, e) = window_of(ms[j], radius, n);
        if s <= ce {
            ce = e;
        } else {
            let ghost before = out@;
            push_fragment(out, ls, cs, ce);
            let ghost tail = merge_windows(
                rest.drop_first(),
                radius as int,
                n as int,
                s as int,
                e as int,
            );
            assert(render_fragments(lv, seq![(cs as int, ce as int)] + tail) == render_fragment(
                lv,
                cs as int,
                ce as int,
            ) + render_fragments(lv, tail)) by {
                assert((seq![(cs as int, ce as int)] + tail).drop_first() == tail);
            }
            cs = s;
            ce = e;
        }
        j += 1;
    }
    let ghost last = merge_windows(
        msv.subrange(j as int, msv.len() as int),
        radius as int,
        n as int,
        cs as int,
        ce as int,
    );
    assert(msv.subrange(j as int, msv.len() as int).len() == 0);
    assert(last == seq![(cs as int, ce as int)]);
    assert(last.drop_first().len() == 0);
    assert(render_fragments(lv, last.drop_first()) == Seq::<char>::empty());
    assert(render_fragments(lv, last) == render_fragment(lv, cs as int, ce as int) + Seq::<
        char,
    >::empty());
    assert(render_fragment(lv, cs as int, ce as int) + Seq::<char>::empty() == render_fragment(
        lv,
        cs as int,
        ce as int,
    ));
    push_fragment(out, ls, cs, ce);
}

/// The answer to a lookup of `query` in the file `path`, whose text is
/// `content`; `matched[i]` tells whether line `i` matches the query.
pub fn render_file_query(
    path: &str,
    content: &str,
    query: &str,
    matched: &[bool],
    radius: usize,
) -> (r: String)
    requires
        matched@.len() == lines(content@).len(),
    ensures
        r@ == file_query_answer(path@, lines(content@), query@, matched@, radius as int),
{
    let c = chars_of(content);
    let ls = split_lines(&c);
    let q = chars_of(query);
    let mut out: Vec<char> = Vec::new();
    let ms = match_list(matched);
    push_str(&mut out, "<file path=\"");
    push_str(&mut out, path);
    push_str(&mut out, "\" query=\"");
    crate::tools::lookup::push_escaped(&mut out, &q);
    if ms.len() == 0 {
        push_str(&mut out, "\">\n  <!-- Query not found in file -->\n</file>");
    } else {
        push_str(&mut out, "\" total_lines=\"");
        push_dec(&mut out, ls.len() as u128);
        push_str(&mut out, "\">\n");
        push_fragments(&mut out, &ls, matched, radius);
        push_str(&mut out, "</file>");
    }
    string_from_chars(out.as_slice())
}

/// The answer to a lookup of the whole file `path`, whose text is `content`:
/// its first 100 lines, and how many lines were left out.
pub open spec fn file_answer(path: Seq<char>, content: Seq<char>) -> Seq<char> {
    let ls = lines(content);
    let n = ls.len() as int;
    let end = if n < 100 {
        n
    } else {
        100
    };
    let head = join(ls.subrange(0, end), "\n"@);
    if n > 100 {
        "<file path=\""@ + path + "\" total_lines=\""@ + dec(n as nat)
            + "\" truncated=\"true\">\n  <content>"@ + head
            + "</content>\n  <truncated lines_remaining=\""@ + dec((n - 100) as nat)
            + "\" />\n</file>"@
    } else {
        "<file path=\""@ + path + "\" total_lines=\""@ + dec(n as nat) + "\">\n  <content>"@
            + head + "</content>\n</file>"@
    }
}

/// The answer to a lookup of the whole file `path`, whose text is `content`.
pub fn render_file(path: &str, content: &str) -> (r: String)
    ensures
        r@ == file_answer(path@, content@),
{
    let c = chars_of(content);
    let ls = split_lines(&c);
    let n = ls.len();
    let end = if n < 100 {
        n
    } else {
        100
    };
    let head = join_lines(&ls, 0, end, "\n");
    let mut out: Vec<char> = Vec::new();
    push_str(&mut out, "<file path=\"");
    push_str(&mut out, path);
    push_str(&mut out, "\" total_lines=\"");
    push_dec(&mut out, n as u128);
    if n > 100 {
        push_str(&mut out, "\" truncated=\"true\">\n  <content>");
        push_chars(&mut out, &head);
        push_str(&mut out, "</content>\n  <truncated lines_remaining=\"");
        push_dec(&mut out, (n - 100) as u128);
        push_str(&mut out, "\" />\n</file>");
    } else {
        push_str(&mut out, "\">\n  <content>");
        push_chars(&mut out, &head);
        push_str(&mut out, "</content>\n</file>");
    }
    string_from_chars(out.as_slice())
}

/// Whether each line of `ls` matches `query`, letter case aside.
pub open spec fn line_flags(ls: Seq<Seq<char>>, query: Seq<char>) -> Seq<bool> {
    Seq::new(ls.len(), |i: int| contains(lowercase(ls[i]), lowercase(query)))
}

/// Which lines of `ls` contain `q_lower` once lower-cased.
fn flags_for(ls: &Vec<Vec<char>>, q_lower: &Vec<char>) -> (f: Vec<bool>)
    ensures
        f@.len() == ls.len(),
        forall|i: int| 0 <= i < ls.len() ==> f@[i] == contains(lowercase(ls@[i]@), q_lower@),
{
    let mut f: Vec<bool> = Vec::new();
    let mut i: usize = 0;
    while i < ls.len()
        invariant
            i <= ls.len(),
            f@.len() == i,
            forall|j: int| 0 <= j < i ==> f@[j] == contains(lowercase(ls@[j]@), q_lower@),
        decreases ls.len() - i,
    {
        let l = lowercase_chars(&ls[i]);
        f.push(contains_chars(&l, q_lower));
        i += 1;
    }
    f
}

/// The answer to a lookup of the file `path`, whose text is `content`: the
/// fragments around the lines that contain `query` (letter case aside) when
/// there is a query, the head of the file otherwise.
pub open spec fn file_lookup_answer(
    path: Seq<char>,
    content: Seq<char>,
    query: Option<Seq<char>>,
    radius: int,
) -> Seq<char> {
    match query {
        Some(q) => file_query_answer(
            path,
            lines(content),
            q,
            line_flags(lines(content), q),
            radius,
        ),
        None => file_answer(path, content),
    }
}

/// The view of an optional text.
pub open spec fn opt_view(o: Option<&str>) -> Option<Seq<char>> {
    match o {
        Some(s) => Some(s@),
        None => None,
    }
}

/// The answer to a lookup of the file `path`, whose text is `content`.
pub fn lookup_file_text(path: &str, content: &str, query: Option<&str>, radius: usize) -> (r:
    String)
    ensures
        r@ == file_lookup_answer(path@, content@, opt_view(query), radius as int),
{
    match query {
        Some(q) => {
            let c = chars_of(content);
            let ls = split_lines(&c);
            let qc = chars_of(q);
            let ql = lowercase_chars(&qc);
            let f = flags_for(&ls, &ql);
            assert(f@ =~= line_flags(lines(content@), q@));
            render_file_query(path, content, q, f.as_slice(), radius)
        },
        None => render_file(path, content),
    }
}

// ---------------------------------------------------------------------------
// Directories
// ---------------------------------------------------------------------------

/// Directory entries a lookup passes over: hidden ones, `node_modules`, `target`.
pub open spec fn is_skipped_name(name: Seq<char>) -> bool {
    has_prefix(name, "."@) || name == "node_modules"@ || name == "target"@
}

/// Whether a directory lookup passes over the entry `name`.
pub fn is_skipped_entry(name: &str) -> (r: bool)
    ensures
        r == is_skipped_name(name@),
{
    let n = chars_of(name);
    crate::text::starts_with(&n, ".") || crate::text::is_exactly(&n, "node_modules")
        || crate::text::is_exactly(&n, "target")
}

/// An entry of a directory listing; `size` is the file size as it is shown.
/// `contents` is, for a directory whose entries were read, the listing of
/// those entries one level deeper (as `render_dir_entries` gives it); `None`
/// when they were not read.
#[derive(Debug, Clone)]
pub struct ListedEntry {
    pub name: String,
    pub is_dir: bool,
    pub size: String,
    pub contents: Option<String>,
}

/// The indentation of entries at nesting level `level`: two spaces a level.
pub open spec fn indent(level: nat) -> Seq<char>
    decreases level,
{
    if level == 0 {
        Seq::empty()
    } else {
        indent((level - 1) as nat) + "  "@
    }
}

/// Whether the entries of the directory `e`, standing at level `level` of a
/// listing `radius` levels deep, are shown: the level must lie above the
/// deepest one, and they must have been read and be non-empty.
pub open spec fn shows_contents(e: ListedEntry, level: int, radius: int) -> bool {
    &&& e.is_dir
    &&& level < radius
    &&& e.contents matches Some(c) && c@.len() > 0
}

/// The lines that show the entry `e` at level `level`: a file on one line; a
/// directory whose entries are shown as an element holding them, any other
/// directory on one line.
pub open spec fn entry_line(e: ListedEntry, level: int, radius: int) -> Seq<char> {
    let ind = indent(level as nat);
    if shows_contents(e, level, radius) {
        ind + "<dir name=\""@ + e.name@ + "\">\n"@ + e.contents->0@ + ind + "</dir>\n"@
    } else if e.is_dir {
        ind + "<dir name=\""@ + e.name@ + "\" />\n"@
    } else {
        ind + "<file name=\""@ + e.name@ + "\" size=\""@ + e.size@ + "\" />\n"@
    }
}

/// The lines of `es` at level `level`, one entry after another.
pub open spec fn entry_lines(es: Seq<ListedEntry>, level: int, radius: int) -> Seq<char>
    decreases es.len(),
{
    if es.len() == 0 {
        Seq::empty()
    } else {
        entry_lines(es.drop_last(), level, radius) + entry_line(es.last(), level, radius)
    }
}

/// The entries `shown` (in display order) at level `level` of a listing
/// `radius` levels deep: nothing below the deepest level.
pub open spec fn entries_answer(shown: Seq<ListedEntry>, level: int, radius: int) -> Seq<char> {
    if level > radius {
        Seq::empty()
    } else {
        entry_lines(shown, level, radius)
    }
}

/// The indices of the directories (or of the files) among `es`, in order.
pub open spec fn group_indices(es: Seq<ListedEntry>, dirs: bool) -> Seq<usize>
    decreases es.len(),
{
    if es.len() == 0 {
        Seq::empty()
    } else {
        group_indices(es.drop_last(), dirs) + if es.last().is_dir == dirs {
            seq![(es.len() - 1) as usize]
        } else {
            Seq::<usize>::empty()
        }
    }
}

/// The keys of the entries at `idx`.
pub open spec fn keys_at(keys: Seq<Seq<char>>, idx: Seq<usize>) -> Seq<Seq<char>> {
    idx.map_values(|i: usize| keys[i as int])
}

/// The entries at `idx` in the order `p` gives.
pub open spec fn pick(es: Seq<ListedEntry>, idx: Seq<usize>, p: Seq<usize>) -> Seq<ListedEntry> {
    p.map_values(|j: usize| es[idx[j as int] as int])
}

/// The entries `es` at level `level` of a listing `radius` levels deep,
/// `keys[i]` being the lower-cased name of `es[i]`: the directories, then the
/// files, each group stably sorted by key.
pub open spec fn dir_entries_answer(
    es: Seq<ListedEntry>,
    keys: Seq<Seq<char>>,
    level: int,
    radius: int,
    r: Seq<char>,
) -> bool {
    let di = group_indices(es, true);
    let fi = group_indices(es, false);
    exists|pd: Seq<usize>, pf: Seq<usize>|
        is_stable_sort(keys_at(keys, di), pd) && is_stable_sort(keys_at(keys, fi), pf) && r
            == entries_answer(pick(es, di, pd) + pick(es, fi, pf), level, radius)
}

/// The lower-cased names of `es`.
pub open spec fn name_keys(es: Seq<ListedEntry>) -> Seq<Seq<char>> {
    es.map_values(|e: ListedEntry| lowercase(e.name@))
}

/// The answer to a listing `radius` levels deep of the directory `path`,
/// whose entries are `es`.
pub open spec fn dir_listing_answer(
    path: Seq<char>,
    es: Seq<ListedEntry>,
    radius: int,
    r: Seq<char>,
) -> bool {
    exists|body: Seq<char>|
        dir_entries_answer(es, name_keys(es), 1, radius, body) && r == "<dir path=\""@ + path
            + "\">\n"@ + body + "</dir>"@
}

proof fn lemma_group_indices_range(es: Seq<ListedEntry>, dirs: bool)
    requires
        es.len() <= usize::MAX,
    ensures
        group_indices(es, true).len() + group_indices(es, false).len() == es.len(),
        forall|j: int|
            0 <= j < group_indices(es, dirs).len() ==> #[trigger] group_indices(es, dirs)[j]
                < es.len() && es[group_indices(es, dirs)[j] as int].is_dir == dirs,
    decreases es.len(),
{
    if es.len() > 0 {
        lemma_group_indices_range(es.drop_last(), dirs);
        let a = group_indices(es.drop_last(), dirs);
        let b = if es.last().is_dir == dirs {
            seq![(es.len() - 1) as usize]
        } else {
            Seq::<usize>::empty()
        };
        assert forall|j: int| 0 <= j < (a + b).len() implies #[trigger] (a + b)[j] < es.len()
            && es[(a + b)[j] as int].is_dir == dirs by {
            if j < a.len() {
                assert((a + b)[j] == a[j]);
                assert(es.drop_last()[a[j] as int] == es[a[j] as int]);
            } else {
                assert((a + b)[j] == b[j - a.len()]);
            }
        }
    }
}

/// The indices of the entries of one kind, and their keys.
fn group_of(es: &Vec<ListedEntry>, keys: &Vec<Vec<char>>, dirs: bool) -> (r: (
    Vec<usize>,
    Vec<Vec<char>>,
))
    requires
        keys.len() == es.len(),
    ensures
        r.0@ == group_indices(es@, dirs),
        vecs_view(r.1@) == keys_at(vecs_view(keys@), r.0@),
{
    let mut idx: Vec<usize> = Vec::new();
    let mut ks: Vec<Vec<char>> = Vec::new();
    let mut i: usize = 0;
    proof {
        lemma_group_indices_range(es@, dirs);
    }
    while i < es.len()
        invariant
            i <= es.len(),
            keys.len() == es.len(),
            idx@ == group_indices(es@.take(i as int), dirs),
            vecs_view(ks@) == keys_at(vecs_view(keys@), idx@),
        decreases es.len() - i,
    {
        assert(es@.take(i + 1).drop_last() == es@.take(i as int));
        proof {
            lemma_group_indices_range(es@.take(i as int), dirs);
        }
        let ghost old_idx = idx@;
        let ghost old_ks = vecs_view(ks@);
        if es[i].is_dir == dirs {
            idx.push(i);
            ks.push(slice_chars_all(&keys[i]));
            assert(idx@ == old_idx.push(i));
            assert(vecs_view(ks@) == old_ks.push(keys@[i as int]@));
            assert(keys_at(vecs_view(keys@), idx@) == keys_at(vecs_view(keys@), old_idx).push(
                vecs_view(keys@)[i as int],
            ));
        } else {
            assert(group_indices(es@.take(i + 1), dirs) == group_indices(es@.take(i as int), dirs)
                + Seq::<usize>::empty());
            assert(group_indices(es@.take(i as int), dirs) + Seq::<usize>::empty()
                == group_indices(es@.take(i as int), dirs));
        }
        i += 1;
    }
    assert(es@.take(es.len() as int) == es@);
    (idx, ks)
}

fn slice_chars_all(v: &Vec<char>) -> (r: Vec<char>)
    ensures
        r@ == v@,
{
    crate::text::slice_chars(v, 0, v.len())
}

fn push_indent(out: &mut Vec<char>, level: usize)
    ensures
        final(out)@ == old(out)@ + indent(level as nat),
{
    let mut i: usize = 0;
    while i < level
        invariant
            i <= level,
            out@ == old(out)@ + indent(i as nat),
        decreases level - i,
    {
        push_str(out, "  ");
        i += 1;
    }
}

fn push_entry_line(out: &mut Vec<char>, e: &ListedEntry, level: usize, radius: usize)
    ensures
        final(out)@ == old(out)@ + entry_line(*e, level as int, radius as int),
{
    let ghost start = out@;
    push_indent(out, level);
    let shown_contents = match &e.contents {
        Some(c) => e.is_dir && level < radius && chars_of(c.as_str()).len() > 0,
        None => false,
    };
    if shown_contents {
        push_str(out, "<dir name=\"");
        push_str(out, e.name.as_str());
        push_str(out, "\">\n");
        match &e.contents {
            Some(c) => push_str(out, c.as_str()),
            None => {},
        }
        push_indent(out, level);
        push_str(out, "</dir>\n");
    } else if e.is_dir {
        push_str(out, "<dir name=\"");
        push_str(out, e.name.as_str());
        push_str(out, "\" />\n");
    } else {
        push_str(out, "<file name=\"");
        push_str(out, e.name.as_str());
        push_str(out, "\" size=\"");
        push_str(out, e.size.as_str());
        push_str(out, "\" />\n");
    }
}

/// The listing of `entries` at level `level`; `keys[i]` is the lower-cased
/// name of `entries[i]`.
fn entries_keyed(entries: &Vec<ListedEntry>, keys: &Vec<String>, level: usize, radius: usize) -> (r:
    Vec<char>)
    requires
        keys.len() == entries.len(),
    ensures
        dir_entries_answer(
            entries@,
            keys@.map_values(|k: String| k@),
            level as int,
            radius as int,
            r@,
        ),
{
    let mut kv: Vec<Vec<char>> = Vec::new();
    let mut i: usize = 0;
    while i < keys.len()
        invariant
            i <= keys.len(),
            vecs_view(kv@) == keys@.take(i as int).map_values(|k: String| k@),
        decreases keys.len() - i,
    {
        kv.push(chars_of(keys[i].as_str()));
        assert(keys@.take(i + 1).map_values(|k: String| k@) =~= keys@.take(i as int).map_values(
            |k: String| k@,
        ).push(keys@[i as int]@));
        i += 1;
    }
    assert(keys@.take(keys.len() as int) == keys@);
    let ghost kvv = vecs_view(kv@);
    let (di, dk) = group_of(entries, &kv, true);
    let (fi, fk) = group_of(entries, &kv, false);
    let pd = stable_sort_indices(&dk);
    let pf = stable_sort_indices(&fk);
    assert(dk@.map_values(|k: Vec<char>| k@) == vecs_view(dk@));
    assert(fk@.map_values(|k: Vec<char>| k@) == vecs_view(fk@));
    proof {
        lemma_group_indices_range(entries@, true);
        lemma_group_indices_range(entries@, false);
    }
    let ghost shown = pick(entries@, di@, pd@) + pick(entries@, fi@, pf@);
    let total = pd.len() + pf.len();
    let mut out: Vec<char> = Vec::new();
    if level > radius {
        assert(out@ == entries_answer(shown, level as int, radius as int));
        assert(kvv == keys@.map_values(|k: String| k@));
        return out;
    }
    let mut j: usize = 0;
    assert(shown.take(0).len() == 0);
    while j < total
        invariant
            j <= total,
            total == shown.len(),
            total == pd@.len() + pf@.len(),
            pd@.len() == di@.len(),
            pf@.len() == fi@.len(),
            forall|a: int| 0 <= a < pd@.len() ==> 0 <= #[trigger] pd@[a] < di@.len(),
            forall|a: int| 0 <= a < pf@.len() ==> 0 <= #[trigger] pf@[a] < fi@.len(),
            forall|a: int| 0 <= a < di@.len() ==> #[trigger] di@[a] < entries@.len(),
            forall|a: int| 0 <= a < fi@.len() ==> #[trigger] fi@[a] < entries@.len(),
            shown == pick(entries@, di@, pd@) + pick(entries@, fi@, pf@),
            out@ == entry_lines(shown.take(j as int), level as int, radius as int),
        decreases total - j,
    {
        let e = if j < pd.len() {
            &entries[di[pd[j]]]
        } else {
            &entries[fi[pf[j - pd.len()]]]
        };
        assert(*e == shown[j as int]);
        push_entry_line(&mut out, e, level, radius);
        assert(shown.take(j + 1).drop_last() == shown.take(j as int));
        j += 1;
    }
    assert(shown.take(total as int) == shown);
    assert(out@ == entries_answer(shown, level as int, radius as int));
    assert(kvv == keys@.map_values(|k: String| k@));
    out
}

fn name_keys_of(entries: &Vec<ListedEntry>) -> (keys: Vec<String>)
    ensures
        keys@.map_values(|k: String| k@) == name_keys(entries@),
        keys.len() == entries.len(),
{
    let mut keys: Vec<String> = Vec::new();
    let mut i: usize = 0;
    while i < entries.len()
        invariant
            i <= entries.len(),
            keys@.map_values(|k: String| k@) == entries@.take(i as int).map_values(
                |e: ListedEntry| lowercase(e.name@),
            ),
        decreases entries.len() - i,
    {
        keys.push(crate::text::to_lowercase(entries[i].name.as_str()));
        assert(entries@.take(i + 1).map_values(|e: ListedEntry| lowercase(e.name@))
            =~= entries@.take(i as int).map_values(|e: ListedEntry| lowercase(e.name@)).push(
            lowercase(entries@[i as int].name@),
        ));
        assert(keys@.map_values(|k: String| k@) =~= keys@.drop_last().map_values(
            |k: String| k@,
        ).push(keys@.last()@));
        i += 1;
    }
    assert(entries@.take(entries.len() as int) == entries@);
    keys
}

/// The listing of the entries `entries` of a directory that stands at level
/// `level` of a listing `radius` levels deep: directories first, each group
/// sorted by lower-cased name; entries deeper than `radius` levels are not
/// shown, nor the contents of directories at the deepest level.
pub fn render_dir_entries(entries: &Vec<ListedEntry>, level: usize, radius: usize) -> (r: String)
    ensures
        dir_entries_answer(entries@, name_keys(entries@), level as int, radius as int, r@),
{
    let keys = name_keys_of(entries);
    let out = entries_keyed(entries, &keys, level, radius);
    string_from_chars(out.as_slice())
}

/// The answer to a listing `radius` levels deep of the directory `path`,
/// whose entries are `entries`.
pub fn render_dir_listing(path: &str, entries: &Vec<ListedEntry>, radius: usize) -> (r: String)
    ensures
        dir_listing_answer(path@, entries@, radius as int, r@),
{
    let keys = name_keys_of(entries);
    let body = entries_keyed(entries, &keys, 1, radius);
    let mut out: Vec<char> = Vec::new();
    push_str(&mut out, "<dir path=\"");
    push_str(&mut out, path);
    push_str(&mut out, "\">\n");
    crate::text::push_chars(&mut out, &body);
    push_str(&mut out, "</dir>");
    let r = string_from_chars(out.as_slice());
    assert(dir_entries_answer(entries@, name_keys(entries@), 1, radius as int, body@));
    r
}

// ---------------------------------------------------------------------------
// Directory search
// ---------------------------------------------------------------------------

/// A matching line found by a directory search.
#[derive(Debug, Clone)]
pub struct GrepHit {
    pub file: String,
    /// 1-based line number.
    pub line: usize,
    /// The line, trimmed.
    pub text: String,
}

/// The most hits a directory search keeps before it stops.
pub open spec fn grep_cap() -> int {
    200
}

/// The hit for line `m` (0-based) of a file.
pub open spec fn hit_matches(h: GrepHit, file: Seq<char>, ls: Seq<Seq<char>>, m: int) -> bool {
    h.file@ == file && h.line == m + 1 && h.text@ == trim(ls[m])
}

/// The hits a search of one file adds, from `before` hits already found: one
/// per matching line, in order, until the hits number more than the cap.
/// `truncated` tells whether the cap was passed.
pub open spec fn grep_file_result(
    before: Seq<GrepHit>,
    file: Seq<char>,
    ls: Seq<Seq<char>>,
    flags: Seq<bool>,
    after: Seq<GrepHit>,
    truncated: bool,
) -> bool {
    let ms = matches_of(flags);
    let room = grep_cap() + 1 - before.len();
    let k = if ms.len() <= room {
        ms.len() as int
    } else {
        room
    };
    &&& truncated == (before.len() + ms.len() > grep_cap())
    &&& after.len() == before.len() + k
    &&& after.take(before.len() as int) == before
    &&& forall|j: int|
        0 <= j < k ==> hit_matches(#[trigger] after[before.len() + j], file, ls, ms[j])
}

/// Adds to `hits` the lines of the file `file`, whose text is `content`, that
/// `matched` marks, stopping once the hits number more than the cap; returns
/// whether it stopped there.
pub fn grep_collect(file: &str, content: &str, matched: &[bool], hits: &mut Vec<GrepHit>) -> (truncated: bool)
    requires
        matched@.len() == lines(content@).len(),
        old(hits)@.len() <= grep_cap(),
    ensures
        grep_file_result(old(hits)@, file@, lines(content@), matched@, final(hits)@, truncated),
{
    let c = chars_of(content);
    let ls = split_lines(&c);
    let ms = match_list(matched);
    proof {
        lemma_matches_of_shape(matched@);
    }
    let ghost before = old(hits)@;
    let ghost msv = matches_of(matched@);
    assert(vecs_view(ls@).len() == ls@.len());
    let mut j: usize = 0;
    while j < ms.len()
        invariant
            j <= ms.len(),
            ms@.len() == msv.len(),
            forall|a: int| 0 <= a < ms@.len() ==> ms@[a] as int == #[trigger] msv[a],
            forall|a: int| 0 <= a < msv.len() ==> 0 <= #[trigger] msv[a] < ls.len(),
            vecs_view(ls@) == lines(content@),
            hits@.len() == before.len() + j,
            before.len() <= grep_cap(),
            before == old(hits)@,
            msv == matches_of(matched@),
            hits@.len() <= grep_cap(),
            hits@.take(before.len() as int) == before,
            forall|a: int|
                0 <= a < j ==> hit_matches(
                    #[trigger] hits@[before.len() + a],
                    file@,
                    lines(content@),
                    msv[a],
                ),
        decreases ms.len() - j,
    {
        let m = ms[j];
        assert(m as int == msv[j as int]);
        let t = trim_chars(&ls[m]);
        let h = GrepHit { file: file.to_owned(), line: m + 1, text: string_from_chars(t.as_slice()) };
        let ghost old_hits = hits@;
        hits.push(h);
        assert(hits@.take(before.len() as int) == old_hits.take(before.len() as int));
        assert(hits@[before.len() + j] == h);
        assert forall|a: int| 0 <= a < j + 1 implies hit_matches(
            #[trigger] hits@[before.len() + a],
            file@,
            lines(content@),
            msv[a],
        ) by {
            if a < j {
                assert(hits@[before.len() + a] == old_hits[before.len() + a]);
            }
        }
        j += 1;
        if hits.len() > 200 {
            return true;
        }
    }
    false
}

/// Which lines of the file `content` contain `query_lower` once lower-cased.
pub open spec fn grep_flags(content: Seq<char>, query_lower: Seq<char>) -> Seq<bool> {
    Seq::new(lines(content).len(), |i: int| contains(lowercase(lines(content)[i]), query_lower))
}

/// The search ignores letter case: there is one flag per line of the file,
/// a line is a hit exactly when its lower-cased form contains the query, and
/// two files whose lines agree once lower-cased give the same hits.
pub proof fn law_grep_ignores_letter_case(c1: Seq<char>, c2: Seq<char>, query_lower: Seq<char>)
    ensures
        grep_flags(c1, query_lower).len() == lines(c1).len(),
        forall|i: int|
            0 <= i < lines(c1).len() ==> #[trigger] grep_flags(c1, query_lower)[i] == contains(
                lowercase(lines(c1)[i]),
                query_lower,
            ),
        lines(c1).len() == lines(c2).len() && (forall|i: int|
            0 <= i < lines(c1).len() ==> lowercase(#[trigger] lines(c1)[i]) == lowercase(
                lines(c2)[i],
            )) ==> grep_flags(c1, query_lower) == grep_flags(c2, query_lower),
{
    if lines(c1).len() == lines(c2).len() && (forall|i: int|
        0 <= i < lines(c1).len() ==> lowercase(#[trigger] lines(c1)[i]) == lowercase(
            lines(c2)[i],
        )) {
        assert(grep_flags(c1, query_lower) =~= grep_flags(c2, query_lower));
    }
}

/// Adds to `hits` the lines of the file `file` (text `content`) that contain
/// `query_lower` once lower-cased; returns whether the cap was passed.
pub fn grep_file(file: &str, content: &str, query_lower: &str, hits: &mut Vec<GrepHit>) -> (truncated: bool)
    requires
        old(hits)@.len() <= grep_cap(),
    ensures
        grep_file_result(
            old(hits)@,
            file@,
            lines(content@),
            grep_flags(content@, query_lower@),
            final(hits)@,
            truncated,
        ),
{
    let c = chars_of(content);
    let ls = split_lines(&c);
    let q = chars_of(query_lower);
    let f = flags_for(&ls, &q);
    assert(f@ =~= grep_flags(content@, query_lower@));
    grep_collect(file, content, f.as_slice(), hits)
}

/// One hit of a directory search, as shown.
pub open spec fn hit_line(h: GrepHit) -> Seq<char> {
    "  <match file=\""@ + h.file@ + "\" line=\""@ + dec(h.line as nat) + "\">"@ + escape(h.text@)
        + "</match>\n"@
}

/// The hits `hs`, one after another.
pub open spec fn hit_lines(hs: Seq<GrepHit>) -> Seq<char>
    decreases hs.len(),
{
    if hs.len() == 0 {
        Seq::empty()
    } else {
        hit_lines(hs.drop_last()) + hit_line(hs.last())
    }
}

/// The answer to a search of the directory `path` for `query`.
pub open spec fn dir_search_answer(
    path: Seq<char>,
    query: Seq<char>,
    hits: Seq<GrepHit>,
    truncated: bool,
) -> Seq<char> {
    "<dir_search path=\""@ + path + "\" query=\""@ + escape(query) + "\">\n"@ + hit_lines(hits)
        + (if truncated {
        "  <truncated />\n"@
    } else {
        Seq::empty()
    }) + "</dir_search>"@
}

fn push_hit_line(out: &mut Vec<char>, h: &GrepHit)
    ensures
        final(out)@ == old(out)@ + hit_line(*h),
{
    push_str(out, "  <match file=\"");
    push_str(out, h.file.as_str());
    push_str(out, "\" line=\"");
    push_dec(out, h.line as u128);
    push_str(out, "\">");
    let t = chars_of(h.text.as_str());
    push_escaped(out, &t);
    push_str(out, "</match>\n");
}

/// The answer to a search of the directory `path` for `query` that found `hits`.
pub fn render_dir_search(path: &str, query: &str, hits: &Vec<GrepHit>, truncated: bool) -> (r:
    String)
    ensures
        r@ == dir_search_answer(path@, query@, hits@, truncated),
{
    let mut out: Vec<char> = Vec::new();
    push_str(&mut out, "<dir_search path=\"");
    push_str(&mut out, path);
    push_str(&mut out, "\" query=\"");
    let q = chars_of(query);
    push_escaped(&mut out, &q);
    push_str(&mut out, "\">\n");
    let ghost start = out@;
    let mut i: usize = 0;
    assert(hits@.take(0).len() == 0);
    while i < hits.len()
        invariant
            i <= hits.len(),
            out@ == start + hit_lines(hits@.take(i as int)),
        decreases hits.len() - i,
    {
        push_hit_line(&mut out, &hits[i]);
        assert(hits@.take(i + 1).drop_last() == hits@.take(i as int));
        i += 1;
    }
    assert(hits@.take(hits.len() as int) == hits@);
    if truncated {
        push_str(&mut out, "  <truncated />\n");
    }
    push_str(&mut out, "</dir_search>");
    string_from_chars(out.as_slice())
}

// ---------------------------------------------------------------------------
// Web pages
// ---------------------------------------------------------------------------

/// One matching line of a web page, as shown (`m` is 0-based).
pub open spec fn page_match_line(ls: Seq<Seq<char>>, m: int) -> Seq<char> {
    "  <match line=\""@ + dec((m + 1) as nat) + "\">"@ + escape(trim(ls[m])) + "</match>\n"@
}

/// The matching lines `ms` of a web page, one after another.
pub open spec fn page_match_lines(ls: Seq<Seq<char>>, ms: Seq<int>) -> Seq<char>
    decreases ms.len(),
{
    if ms.len() == 0 {
        Seq::empty()
    } else {
        page_match_lines(ls, ms.drop_last()) + page_match_line(ls, ms.last())
    }
}

/// The answer to a lookup of `query` on the page `url` with the text `text`,
/// `flags` telling which lines match.
pub open spec fn page_query_answer(
    url: Seq<char>,
    text: Seq<char>,
    query: Seq<char>,
    flags: Seq<bool>,
) -> Seq<char> {
    let ms = matches_of(flags);
    "<webpage url=\""@ + url + "\" query=\""@ + escape(query) + "\">\n"@ + (if ms.len() == 0 {
        "  <!-- Query not found on page -->\n"@
    } else {
        page_match_lines(lines(text), ms)
    }) + "</webpage>"@
}

/// The answer to a lookup of the whole page `url` with the text `text`: its
/// first 100 lines, escaped, and how many were left out.
pub open spec fn page_answer(url: Seq<char>, text: Seq<char>) -> Seq<char> {
    let ls = lines(text);
    let n = ls.len() as int;
    let end = if n < 100 {
        n
    } else {
        100
    };
    "<webpage url=\""@ + url + "\">\n  <content>"@ + escape(join(ls.subrange(0, end), "\n"@))
        + "</content>\n"@ + (if n > 100 {
        "  <truncated lines_remaining=\""@ + dec((n - 100) as nat) + "\" />\n"@
    } else {
        Seq::empty()
    }) + "</webpage>"@
}

/// The total length of the entries that show the lines of `ls` flagged in
/// `flags`, one entry per flagged line.
pub open spec fn shown_matches_len(ls: Seq<Seq<char>>, flags: Seq<bool>) -> nat
    decreases flags.len(),
{
    if flags.len() == 0 {
        0
    } else {
        shown_matches_len(ls, flags.drop_last()) + if flags.last() {
            ("  <match line=\""@ + dec(flags.len() as nat) + "\">"@ + escape(
                trim(ls[flags.len() - 1]),
            ) + "</match>\n"@).len()
        } else {
            0
        }
    }
}

proof fn lemma_match_index(flags: Seq<bool>, i: int) -> (k: int)
    requires
        0 <= i < flags.len(),
        flags[i],
    ensures
        0 <= k < matches_of(flags).len(),
        matches_of(flags)[k] == i,
    decreases flags.len(),
{
    let prev = flags.drop_last();
    let a = matches_of(prev);
    if i == flags.len() - 1 {
        assert(matches_of(flags) == a + seq![flags.len() - 1]);
        a.len() as int
    } else {
        assert(prev[i] == flags[i]);
        let k = lemma_match_index(prev, i);
        let b = if flags.last() {
            seq![flags.len() - 1]
        } else {
            Seq::<int>::empty()
        };
        assert(matches_of(flags) == a + b);
        assert((a + b)[k] == a[k]);
        k
    }
}

proof fn lemma_match_lines_hold(ls: Seq<Seq<char>>, ms: Seq<int>, k: int)
    requires
        0 <= k < ms.len(),
    ensures
        occurs_at(
            page_match_lines(ls, ms),
            page_match_line(ls, ms[k]),
            page_match_lines(ls, ms.take(k)).len() as int,
        ),
    decreases ms.len(),
{
    let prev = ms.drop_last();
    let e = page_match_line(ls, ms.last());
    if k == ms.len() - 1 {
        assert(ms.take(k) == prev);
        assert(e.subrange(0, e.len() as int) =~= e);
        assert(occurs_at(e, e, 0));
        crate::text::lemma_occurs_in_suffix(page_match_lines(ls, prev), e, e, 0);
    } else {
        lemma_match_lines_hold(ls, prev, k);
        assert(prev.take(k) == ms.take(k));
        assert(prev[k] == ms[k]);
        crate::text::lemma_occurs_in_prefix(
            page_match_lines(ls, prev),
            e,
            page_match_line(ls, ms[k]),
            page_match_lines(ls, ms.take(k)).len() as int,
        );
    }
}

proof fn lemma_match_lines_len(ls: Seq<Seq<char>>, flags: Seq<bool>)
    ensures
        page_match_lines(ls, matches_of(flags)).len() == shown_matches_len(ls, flags),
    decreases flags.len(),
{
    if flags.len() > 0 {
        let prev = flags.drop_last();
        lemma_match_lines_len(ls, prev);
        let a = matches_of(prev);
        if flags.last() {
            let m = a + seq![flags.len() - 1];
            assert(matches_of(flags) == m);
            assert(m.drop_last() == a);
            assert(m.last() == flags.len() - 1);
            assert(((flags.len() - 1) + 1) as nat == flags.len() as nat);
        } else {
            assert(matches_of(flags) == a + Seq::<int>::empty());
            assert(a + Seq::<int>::empty() == a);
        }
    }
}

/// A query on a web page lists every line that matches, each in its own
/// `<match>` entry (numbered from 1, its text trimmed and escaped), and
/// nothing else between the header and the end: the answer is as long as the
/// header, one entry per matching line, and the closing tag. When no line
/// matches, the answer says the query was not found.
pub proof fn law_page_query_lists_every_matching_line(
    url: Seq<char>,
    text: Seq<char>,
    query: Seq<char>,
    flags: Seq<bool>,
)
    requires
        flags.len() == lines(text).len(),
    ensures
        forall|i: int|
            0 <= i < flags.len() && #[trigger] flags[i] ==> contains(
                page_query_answer(url, text, query, flags),
                "  <match line=\""@ + dec((i + 1) as nat) + "\">"@ + escape(trim(lines(text)[i]))
                    + "</match>\n"@,
            ),
        (exists|i: int| 0 <= i < flags.len() && #[trigger] flags[i]) ==> page_query_answer(
            url,
            text,
            query,
            flags,
        ).len() == ("<webpage url=\""@ + url + "\" query=\""@ + escape(query) + "\">\n"@).len()
            + shown_matches_len(lines(text), flags) + "</webpage>"@.len(),
        (forall|i: int| 0 <= i < flags.len() ==> !#[trigger] flags[i]) ==> page_query_answer(
            url,
            text,
            query,
            flags,
        ) == "<webpage url=\""@ + url + "\" query=\""@ + escape(query) + "\">\n"@
            + "  <!-- Query not found on page -->\n"@ + "</webpage>"@,
{
    let ls = lines(text);
    let ms = matches_of(flags);
    let h = "<webpage url=\""@ + url + "\" query=\""@ + escape(query) + "\">\n"@;
    let f = "</webpage>"@;
    lemma_matches_of_shape(flags);
    assert forall|i: int| 0 <= i < flags.len() && #[trigger] flags[i] implies contains(
        page_query_answer(url, text, query, flags),
        "  <match line=\""@ + dec((i + 1) as nat) + "\">"@ + escape(trim(lines(text)[i]))
            + "</match>\n"@,
    ) by {
        let k = lemma_match_index(flags, i);
        let body = page_match_lines(ls, ms);
        let e = page_match_line(ls, i);
        let o = page_match_lines(ls, ms.take(k)).len() as int;
        lemma_match_lines_hold(ls, ms, k);
        crate::text::lemma_occurs_in_suffix(h, body, e, o);
        crate::text::lemma_occurs_in_prefix(h + body, f, e, o + h.len());
        assert(page_query_answer(url, text, query, flags) == h + body + f);
    }
    if exists|i: int| 0 <= i < flags.len() && #[trigger] flags[i] {
        let i = choose|i: int| 0 <= i < flags.len() && #[trigger] flags[i];
        let k = lemma_match_index(flags, i);
        lemma_match_lines_len(ls, flags);
        assert(page_query_answer(url, text, query, flags) == h + page_match_lines(ls, ms) + f);
    }
    if forall|i: int| 0 <= i < flags.len() ==> !#[trigger] flags[i] {
        if ms.len() > 0 {
            assert(flags[ms[0]]);
        }
    }
}

/// A query on a web page shows every line that contains the query, letter
/// case aside, in its own `<match>` entry.
pub proof fn law_page_lookup_shows_lines_containing_query(
    url: Seq<char>,
    text: Seq<char>,
    q: Seq<char>,
)
    ensures
        forall|i: int|
            0 <= i < lines(text).len() && contains(lowercase(#[trigger] lines(text)[i]), lowercase(q))
                ==> contains(
                page_lookup_answer(url, text, Some(q)),
                "  <match line=\""@ + dec((i + 1) as nat) + "\">"@ + escape(trim(lines(text)[i]))
                    + "</match>\n"@,
            ),
{
    let flags = line_flags(lines(text), q);
    law_page_query_lists_every_matching_line(url, text, q, flags);
    assert forall|i: int|
        0 <= i < lines(text).len() && contains(lowercase(#[trigger] lines(text)[i]), lowercase(q))
            implies contains(
            page_lookup_answer(url, text, Some(q)),
            "  <match line=\""@ + dec((i + 1) as nat) + "\">"@ + escape(trim(lines(text)[i]))
                + "</match>\n"@,
        ) by {
        assert(flags[i]);
    }
}

/// The answer to a lookup of `query` on the page `url`; `matched[i]` tells
/// whether line `i` of `text` matches.
pub fn render_page_query(url: &str, text: &str, query: &str, matched: &[bool]) -> (r: String)
    requires
        matched@.len() == lines(text@).len(),
    ensures
        r@ == page_query_answer(url@, text@, query@, matched@),
{
    let c = chars_of(text);
    let ls = split_lines(&c);
    let ms = match_list(matched);
    proof {
        lemma_matches_of_shape(matched@);
    }
    let ghost msv = matches_of(matched@);
    assert(vecs_view(ls@).len() == ls@.len());
    let mut out: Vec<char> = Vec::new();
    push_str(&mut out, "<webpage url=\"");
    push_str(&mut out, url);
    push_str(&mut out, "\" query=\"");
    let q = chars_of(query);
    push_escaped(&mut out, &q);
    push_str(&mut out, "\">\n");
    if ms.len() == 0 {
        push_str(&mut out, "  <!-- Query not found on page -->\n");
    } else {
        let ghost start = out@;
        let mut j: usize = 0;
        assert(msv.take(0).len() == 0);
        while j < ms.len()
            invariant
                j <= ms.len(),
                ms@.len() == msv.len(),
                forall|a: int| 0 <= a < ms@.len() ==> ms@[a] as int == #[trigger] msv[a],
                forall|a: int| 0 <= a < msv.len() ==> 0 <= #[trigger] msv[a] < ls.len(),
                vecs_view(ls@) == lines(text@),
                out@ == start + page_match_lines(lines(text@), msv.take(j as int)),
            decreases ms.len() - j,
        {
            let m = ms[j];
            assert(m as int == msv[j as int]);
            push_str(&mut out, "  <match line=\"");
            push_dec(&mut out, (m + 1) as u128);
            push_str(&mut out, "\">");
            let t = trim_chars(&ls[m]);
            push_escaped(&mut out, &t);
            push_str(&mut out, "</match>\n");
            assert(msv.take(j + 1).drop_last() == msv.take(j as int));
            j += 1;
        }
        assert(msv.take(ms.len() as int) == msv);
    }
    push_str(&mut out, "</webpage>");
    string_from_chars(out.as_slice())
}

/// The answer to a lookup of the whole page `url` with the text `text`.
pub fn render_page(url: &str, text: &str) -> (r: String)
    ensures
        r@ == page_answer(url@, text@),
{
    let c = chars_of(text);
    let ls = split_lines(&c);
    let n = ls.len();
    let end = if n < 100 {
        n
    } else {
        100
    };
    let head = join_lines(&ls, 0, end, "\n");
    let mut out: Vec<char> = Vec::new();
    push_str(&mut out, "<webpage url=\"");
    push_str(&mut out, url);
    push_str(&mut out, "\">\n  <content>");
    push_escaped(&mut out, &head);
    push_str(&mut out, "</content>\n");
    if n > 100 {
        push_str(&mut out, "  <truncated lines_remaining=\"");
        push_dec(&mut out, (n - 100) as u128);
        push_str(&mut out, "\" />\n");
    }
    push_str(&mut out, "</webpage>");
    string_from_chars(out.as_slice())
}

/// The answer to a lookup of the page `url` with the text `text`: the lines
/// that contain the query (letter case aside) when there is one, the head of
/// the page otherwise.
pub open spec fn page_lookup_answer(url: Seq<char>, text: Seq<char>, query: Option<Seq<char>>) -> Seq<
    char,
> {
    match query {
        Some(q) => page_query_answer(url, text, q, line_flags(lines(text), q)),
        None => page_answer(url, text),
    }
}

/// The answer to a lookup of the page `url`, whose text is `text`.
pub fn lookup_page_text(url: &str, text: &str, query: Option<&str>) -> (r: String)
    ensures
        r@ == page_lookup_answer(url@, text@, opt_view(query)),
{
    match query {
        Some(q) => {
            let c = chars_of(text);
            let ls = split_lines(&c);
            let qc = chars_of(q);
            let ql = lowercase_chars(&qc);
            let f = flags_for(&ls, &ql);
            assert(f@ =~= line_flags(lines(text@), q@));
            render_page_query(url, text, q, f.as_slice())
        },
        None => render_page(url, text),
    }
}

// ---------------------------------------------------------------------------
// Routing
// ---------------------------------------------------------------------------

/// Where a lookup goes.
#[derive(Debug)]
pub enum LookupRoute {
    /// A web search: its answer, or the error that it has no query.
    WebSearch(Result<String, BondageError>),
    /// A web page to fetch.
    Url,
    /// A local path, resolved against the workspace.
    Local(String),
}

/// The context radius when none is given.
pub open spec fn default_radius() -> usize {
    20
}

/// The radius a lookup uses.
pub fn effective_radius(radius: Option<usize>) -> (r: usize)
    ensures
        r == match radius {
            Some(x) => x,
            None => default_radius(),
        },
{
    match radius {
        Some(x) => x,
        None => 20,
    }
}

/// The local path a lookup target names, `home` being the home directory
/// when known: the target with `~` expanded, joined to the workspace
/// `base_dir` unless absolute (the path the policy classifies).
pub open spec fn lookup_path(base_dir: Seq<char>, target: Seq<char>, home: Option<Seq<char>>) -> Seq<
    char,
> {
    resolved_path(base_dir, target, home)
}

/// A lookup reads the very path the policy classified: `~` expanded the same
/// way, then joined to the workspace.
pub proof fn law_lookup_reads_the_classified_path(
    base_dir: Seq<char>,
    target: Seq<char>,
    home: Option<Seq<char>>,
)
    ensures
        lookup_path(base_dir, target, home) == resolved_path(base_dir, target, home),
{
}

/// Where a lookup of `args` goes from the workspace `base_dir`: `web` is a web
/// search, which is not implemented and answers so (or is an error without a
/// query); http(s) URLs are fetched; anything else is a local path, resolved
/// as the policy resolves it (`~` expanded, then joined to the workspace).
pub fn route_lookup(args: &LookupArgs, base_dir: &str, home: Option<&str>) -> (r: LookupRoute)
    ensures
        args.target@ == "web"@ ==> match r {
            LookupRoute::WebSearch(Ok(m)) => (args.query matches Some(q) && m@
                == "Web search for '"@ + q@ + "' is not implemented yet."@),
            LookupRoute::WebSearch(Err(BondageError::Tool(e))) => args.query is None && e@
                == "Web search target requires a query."@,
            _ => false,
        },
        args.target@ != "web"@ && (has_prefix(args.target@, "http://"@) || has_prefix(
            args.target@,
            "https://"@,
        )) ==> r is Url,
        args.target@ != "web"@ && !has_prefix(args.target@, "http://"@) && !has_prefix(
            args.target@,
            "https://"@,
        ) ==> (r matches LookupRoute::Local(p) && p@ == lookup_path(base_dir@, args.target@, opt_view(home))),
{
    let t = chars_of(args.target.as_str());
    if crate::text::is_exactly(&t, "web") {
        match &args.query {
            Some(q) => {
                let mut v: Vec<char> = Vec::new();
                push_str(&mut v, "Web search for '");
                push_str(&mut v, q.as_str());
                push_str(&mut v, "' is not implemented yet.");
                LookupRoute::WebSearch(Ok(string_from_chars(v.as_slice())))
            },
            None => LookupRoute::WebSearch(
                Err(BondageError::Tool("Web search target requires a query.".to_owned())),
            ),
        }
    } else if crate::text::starts_with(&t, "http://") || crate::text::starts_with(&t, "https://") {
        LookupRoute::Url
    } else {
        LookupRoute::Local(crate::util::resolve_path(base_dir, args.target.as_str(), home))
    }
}

/// The error for a lookup whose local target does not exist.
pub fn missing_target_error(target: &str) -> (e: BondageError)
    ensures
        (e matches BondageError::Io(d) && d@ == "Target path '"@ + target@ + "' does not exist."@),
{
    let mut v: Vec<char> = Vec::new();
    push_str(&mut v, "Target path '");
    push_str(&mut v, target);
    push_str(&mut v, "' does not exist.");
    BondageError::Io(string_from_chars(v.as_slice()))
}

} // verus!