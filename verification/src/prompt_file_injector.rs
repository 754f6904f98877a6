//! `@file` references in a prompt: finding them, and appending the files they
//! name to the prompt.
//!
//! A mention is an `@` (other than the `@rope` control word) followed, before
//! the next `@` or line break, by at least one word. Its candidates are the
//! first one, two, ... (at most ten) words joined by single spaces, each
//! stripped of trailing punctuation; the longest candidate that names an
//! existing resource wins. Which candidates exist is for the caller to find
//! out on disk: `MentionScan` proposes the candidates of the next mention and
//! is told which one resolved.

use vstd::prelude::*;
use crate::text::{
    chars_of, join, matches_at, occurs_at, push_chars, push_str, slice_chars, span_texts,
    spans_view, string_from_chars, texts, word_spans, word_spans_of,
};

verus! {

broadcast use vstd::string::group_string_axioms;

/// The most words a candidate is built from.
pub const MAX_CANDIDATE_WORDS: usize = 10;

/// `c` ends the stretch of text after an `@` that its words are taken from.
pub open spec fn is_segment_stop(c: char) -> bool {
    c == '@' || c == '\n' || c == '\r'
}

/// Where the stretch of `t` that starts at `i` ends: at the first `@`, `'\n'`
/// or `'\r'` from `i` on, or at the end of `t`.
pub open spec fn segment_end(t: Seq<char>, i: int) -> int
    decreases t.len() - i,
{
    if i >= t.len() {
        t.len() as int
    } else if is_segment_stop(t[i]) {
        i
    } else {
        segment_end(t, i + 1)
    }
}

proof fn lemma_segment_end_bounds(t: Seq<char>, i: int)
    requires
        0 <= i <= t.len(),
    ensures
        i <= segment_end(t, i) <= t.len(),
    decreases t.len() - i,
{
    if i < t.len() && !is_segment_stop(t[i]) {
        lemma_segment_end_bounds(t, i + 1);
    }
}

/// The spans of the words after the `@` at position `a` of `t`.
pub open spec fn mention_spans(t: Seq<char>, a: int) -> Seq<(int, int)> {
    word_spans(t, a + 1, segment_end(t, a + 1))
}

/// The words after the `@` at position `a` of `t`.
pub open spec fn mention_words(t: Seq<char>, a: int) -> Seq<Seq<char>> {
    span_texts(t, mention_spans(t, a))
}

/// The `@` at position `a` of `t` starts a mention: it is not the control word
/// `@rope` (nor one that begins with it), and words follow it.
pub open spec fn is_mention(t: Seq<char>, a: int) -> bool {
    &&& 0 <= a < t.len()
    &&& t[a] == '@'
    &&& !occurs_at(t, "rope"@, a + 1)
    &&& mention_words(t, a).len() > 0
}

/// The first mention of `t` at or after `from`.
pub open spec fn next_mention(t: Seq<char>, from: int) -> Option<int>
    decreases t.len() - from,
{
    if from < 0 || from >= t.len() {
        None
    } else if is_mention(t, from) {
        Some(from)
    } else {
        next_mention(t, from + 1)
    }
}

/// The control word `@rope` (and any word it begins) is never taken for a
/// file mention.
pub proof fn law_control_word_is_no_mention(t: Seq<char>, a: int)
    requires
        0 <= a,
        occurs_at(t, "rope"@, a + 1),
    ensures
        !is_mention(t, a),
        next_mention(t, a) == next_mention(t, a + 1),
{
}

/// A character that is stripped from the end of a candidate.
pub open spec fn is_trailing_mark(c: char) -> bool {
    c == '.' || c == ',' || c == '?' || c == ';' || c == ':' || c == '"' || c == '\'' || c
        == ')' || c == ']' || c == '}'
}

/// `s` without its trailing marks.
pub open spec fn strip_marks(s: Seq<char>) -> Seq<char>
    decreases s.len(),
{
    if s.len() > 0 && is_trailing_mark(s.last()) {
        strip_marks(s.drop_last())
    } else {
        s
    }
}

/// The candidate made of the first `k` words of `ws`.
pub open spec fn candidate(ws: Seq<Seq<char>>, k: int) -> Seq<char> {
    strip_marks(join(ws.take(k), " "@))
}

/// A candidate that is never looked up, and that ends the search for longer
/// ones: it is empty or holds `<`, `>` or `|`.
pub open spec fn is_unusable(c: Seq<char>) -> bool {
    c.len() == 0 || c.contains('<') || c.contains('>') || c.contains('|')
}

/// How many candidates of `ws` are looked up: counting from the candidate of
/// `k` words up to that of `m` words, all before the first unusable one.
pub open spec fn usable_upto(ws: Seq<Seq<char>>, k: int, m: int) -> int
    decreases m + 1 - k,
{
    if k > m {
        m
    } else if is_unusable(candidate(ws, k)) {
        k - 1
    } else {
        usable_upto(ws, k + 1, m)
    }
}

/// The most words that the candidates of `ws` take.
pub open spec fn word_limit(ws: Seq<Seq<char>>) -> int {
    if ws.len() < MAX_CANDIDATE_WORDS {
        ws.len() as int
    } else {
        MAX_CANDIDATE_WORDS as int
    }
}

/// The candidates of the mention at `a` of `t`, shortest first.
pub open spec fn mention_candidates(t: Seq<char>, a: int) -> Seq<Seq<char>> {
    let ws = mention_words(t, a);
    Seq::new(usable_upto(ws, 1, word_limit(ws)) as nat, |i: int| candidate(ws, i + 1))
}

proof fn lemma_usable_bounds(ws: Seq<Seq<char>>, k: int, m: int)
    requires
        1 <= k,
        k - 1 <= m,
    ensures
        k - 1 <= usable_upto(ws, k, m) <= m,
    decreases m + 1 - k,
{
    if k <= m && !is_unusable(candidate(ws, k)) {
        lemma_usable_bounds(ws, k + 1, m);
    }
}

proof fn lemma_next_mention_skip(t: Seq<char>, i: int)
    requires
        0 <= i < t.len(),
        !is_mention(t, i),
    ensures
        next_mention(t, i) == next_mention(t, i + 1),
{
}

proof fn lemma_next_mention_found(t: Seq<char>, from: int, a: int)
    requires
        next_mention(t, from) == Some(a),
    ensures
        is_mention(t, a),
        from <= a,
    decreases t.len() - from,
{
    if 0 <= from < t.len() && !is_mention(t, from) {
        lemma_next_mention_found(t, from + 1, a);
    }
}

proof fn lemma_strip_marks_cut(s: Seq<char>, k: int)
    requires
        0 <= k <= s.len(),
        forall|j: int| k <= j < s.len() ==> is_trailing_mark(s[j]),
        k == 0 || !is_trailing_mark(s[k - 1]),
    ensures
        strip_marks(s) == s.subrange(0, k),
    decreases s.len() - k,
{
    if k < s.len() {
        lemma_strip_marks_cut(s.drop_last(), k);
        assert(s.drop_last().subrange(0, k) == s.subrange(0, k));
    } else {
        assert(s.subrange(0, s.len() as int) == s);
    }
}

fn strip_marks_chars(s: &Vec<char>) -> (r: Vec<char>)
    ensures
        r@ == strip_marks(s@),
{
    let mut b = s.len();
    while b > 0 && (s[b - 1] == '.' || s[b - 1] == ',' || s[b - 1] == '?' || s[b - 1] == ';'
        || s[b - 1] == ':' || s[b - 1] == '"' || s[b - 1] == '\'' || s[b - 1] == ')' || s[b - 1]
        == ']' || s[b - 1] == '}')
        invariant
            b <= s.len(),
            forall|j: int| b <= j < s.len() ==> is_trailing_mark(s@[j]),
        decreases b,
    {
        b -= 1;
    }
    proof {
        lemma_strip_marks_cut(s@, b as int);
    }
    slice_chars(s, 0, b)
}

fn has_char(s: &Vec<char>, c: char) -> (r: bool)
    ensures
        r == s@.contains(c),
{
    let mut i: usize = 0;
    while i < s.len()
        invariant
            i <= s.len(),
            forall|j: int| 0 <= j < i ==> s@[j] != c,
        decreases s.len() - i,
    {
        if s[i] == c {
            assert(s@[i as int] == c);
            return true;
        }
        i += 1;
    }
    false
}

fn unusable(c: &Vec<char>) -> (r: bool)
    ensures
        r == is_unusable(c@),
{
    c.len() == 0 || has_char(c, '<') || has_char(c, '>') || has_char(c, '|')
}

/// The end of the stretch of `t` that starts at `i`.
fn segment_end_of(t: &Vec<char>, i: usize) -> (e: usize)
    requires
        i <= t.len(),
    ensures
        e == segment_end(t@, i as int),
        i <= e <= t.len(),
{
    let mut e = i;
    while e < t.len() && t[e] != '@' && t[e] != '\n' && t[e] != '\r'
        invariant
            i <= e <= t.len(),
            segment_end(t@, e as int) == segment_end(t@, i as int),
        decreases t.len() - e,
    {
        e += 1;
    }
    e
}

/// The candidates for the words at spans `sp` of `t`.
fn candidates_of(t: &Vec<char>, sp: &Vec<(usize, usize)>) -> (r: Vec<String>)
    requires
        forall|k: int| 0 <= k < sp@.len() ==> 0 <= (#[trigger] sp@[k]).0 < sp@[k].1 <= t@.len(),
    ensures
        texts(r@) == Seq::new(
            usable_upto(span_texts(t@, spans_view(sp@)), 1, word_limit(
                span_texts(t@, spans_view(sp@)),
            )) as nat,
            |i: int| candidate(span_texts(t@, spans_view(sp@)), i + 1),
        ),
{
    let ghost ws = span_texts(t@, spans_view(sp@));
    let m: usize = if sp.len() < MAX_CANDIDATE_WORDS {
        sp.len()
    } else {
        MAX_CANDIDATE_WORDS
    };
    assert(m == word_limit(ws));
    let mut out: Vec<String> = Vec::new();
    let mut raw: Vec<char> = Vec::new();
    let mut k: usize = 0;
    proof {
        lemma_usable_bounds(ws, 1, m as int);
    }
    while k < m
        invariant
            k <= m <= sp@.len(),
            m == word_limit(ws),
            ws == span_texts(t@, spans_view(sp@)),
            forall|j: int| 0 <= j < sp@.len() ==> 0 <= (#[trigger] sp@[j]).0 < sp@[j].1 <= t@.len(),
            k > 0 ==> raw@ == join(ws.take(k as int), " "@),
            usable_upto(ws, 1, m as int) == usable_upto(ws, k + 1, m as int),
            texts(out@) == Seq::new(k as nat, |i: int| candidate(ws, i + 1)),
        decreases m - k,
    {
        let (a, b) = sp[k];
        let w = slice_chars(t, a, b);
        proof {
            assert(spans_view(sp@)[k as int] == (a as int, b as int));
            assert(ws[k as int] == w@);
        }
        if k == 0 {
            raw = w;
            proof {
                assert(ws.take(1).len() == 1);
                assert(ws.take(1)[0] == ws[0]);
            }
        } else {
            push_str(&mut raw, " ");
            push_chars(&mut raw, &w);
            proof {
                let tk = ws.take(k + 1);
                assert(tk.drop_last() == ws.take(k as int));
                assert(tk.last() == w@);
            }
        }
        let c = strip_marks_chars(&raw);
        assert(c@ == candidate(ws, k + 1));
        if unusable(&c) {
            proof {
                lemma_usable_bounds(ws, k + 2, m as int);
            }
            assert(usable_upto(ws, 1, m as int) == k);
            return out;
        }
        let ghost before = texts(out@);
        out.push(string_from_chars(c.as_slice()));
        proof {
            assert(texts(out@) == before.push(c@));
            assert(texts(out@) =~= Seq::new((k + 1) as nat, |i: int| candidate(ws, i + 1)));
        }
        k += 1;
    }
    out
}

/// The last position of `flags` that is set: which of a mention's
/// candidates, shortest first, is the longest one naming an existing
/// resource.
pub open spec fn longest_set(flags: Seq<bool>) -> Option<int>
    decreases flags.len(),
{
    if flags.len() == 0 {
        None
    } else if flags.last() {
        Some(flags.len() - 1)
    } else {
        longest_set(flags.drop_last())
    }
}

proof fn lemma_longest_set_bounds(flags: Seq<bool>)
    ensures
        longest_set(flags) matches Some(b) ==> 0 <= b < flags.len() && flags[b],
    decreases flags.len(),
{
    if flags.len() > 0 && !flags.last() {
        lemma_longest_set_bounds(flags.drop_last());
    }
}

/// Greedy injection: of a mention's candidates, the longest one that names
/// an existing resource is the one taken, whatever the shorter ones name.
pub proof fn law_longest_resolving_candidate_wins(flags: Seq<bool>, b: int)
    requires
        0 <= b < flags.len(),
        flags[b],
        forall|j: int| b < j < flags.len() ==> !flags[j],
    ensures
        longest_set(flags) == Some(b),
    decreases flags.len(),
{
    if b < flags.len() - 1 {
        law_longest_resolving_candidate_wins(flags.drop_last(), b);
    }
}

/// The position of the longest candidate that names an existing resource,
/// `resolves[i]` telling whether candidate `i` does.
pub fn longest_resolving(resolves: &Vec<bool>) -> (r: Option<usize>)
    ensures
        match r {
            Some(b) => longest_set(resolves@) == Some(b as int),
            None => longest_set(resolves@) is None,
        },
{
    let mut i = resolves.len();
    assert(resolves@.take(i as int) == resolves@);
    while i > 0
        invariant
            i <= resolves@.len(),
            longest_set(resolves@) == longest_set(resolves@.take(i as int)),
        decreases i,
    {
        assert(resolves@.take(i as int).drop_last() == resolves@.take(i - 1));
        if resolves[i - 1] {
            return Some(i - 1);
        }
        i -= 1;
    }
    None
}

/// How a mention was settled.
#[derive(Debug, Clone, PartialEq, Eq)]
pub enum Settled {
    /// The candidate at this position, the longest that names an existing
    /// resource, was taken.
    Found(usize),
    /// No candidate names anything; the mention's first word, to be
    /// reported.
    Missing(String),
}

/// The state of a scan of a text for mentions: the position the search goes
/// on from, and the mention whose candidates were last proposed.
pub struct MentionScan {
    text: Vec<char>,
    pos: usize,
    pending: Option<(usize, Vec<(usize, usize)>, usize)>,
}

impl MentionScan {
    /// The text being scanned.
    pub closed spec fn text(&self) -> Seq<char> {
        self.text@
    }

    /// Where the search for the next mention starts.
    pub closed spec fn pos(&self) -> int {
        self.pos as int
    }

    /// The position of the mention whose candidates were proposed and not yet
    /// settled.
    pub closed spec fn pending(&self) -> Option<int> {
        match self.pending {
            Some(p) => Some(p.0 as int),
            None => None,
        }
    }

    #[verifier::type_invariant]
    closed spec fn wf(&self) -> bool {
        &&& self.pos <= self.text@.len()
        &&& match self.pending {
            Some((a, sp, n)) => {
                &&& self.pos <= a < self.text@.len()
                &&& next_mention(self.text@, self.pos as int) == Some(a as int)
                &&& spans_view(sp@) == mention_spans(self.text@, a as int)
                &&& forall|k: int|
                    0 <= k < sp@.len() ==> a < (#[trigger] sp@[k]).0 < sp@[k].1
                        <= self.text@.len()
                &&& n == mention_candidates(self.text@, a as int).len()
                &&& n <= sp@.len()
            },
            None => true,
        }
    }

    /// A scan of `text` from its start.
    pub fn new(text: &str) -> (s: MentionScan)
        ensures
            s.text() == text@,
            s.pos() == 0,
            s.pending() is None,
    {
        MentionScan { text: chars_of(text), pos: 0, pending: None }
    }

    /// Finds the next mention and proposes its candidates, shortest first;
    /// `None` when no mention is left.
    pub fn next_candidates(&mut self) -> (r: Option<Vec<String>>)
        ensures
            final(self).text() == old(self).text(),
            final(self).pos() == old(self).pos(),
            match r {
                None => {
                    &&& next_mention(old(self).text(), old(self).pos()) is None
                    &&& final(self).pending() is None
                },
                Some(c) => {
                    &&& next_mention(old(self).text(), old(self).pos()) == final(self).pending()
                    &&& final(self).pending() matches Some(a) && texts(c@)
                        == mention_candidates(old(self).text(), a)
                },
            },
    {
        proof {
            use_type_invariant(&*self);
        }
        let n = self.text.len();
        let mut i = self.pos;
        let ghost t = self.text@;
        let rope = chars_of("rope");
        proof {
            reveal_strlit("rope");
        }
        while i < n
            invariant
                self.pos <= i <= n,
                n == self.text@.len(),
                t == self.text@,
                rope@ == "rope"@,
                self.pos <= self.text@.len(),
                self.pos == old(self).pos,
                self.text@ == old(self).text@,
                self.pending == old(self).pending,
                next_mention(t, self.pos as int) == next_mention(t, i as int),
            decreases n - i,
        {
            if self.text[i] == '@' && !matches_at(&self.text, &rope, i + 1) {
                let se = segment_end_of(&self.text, i + 1);
                let sp = word_spans_of(&self.text, i + 1, se);
                if sp.len() > 0 {
                    assert(is_mention(t, i as int));
                    let cands = candidates_of(&self.text, &sp);
                    let ghost ws = span_texts(t, spans_view(sp@));
                    proof {
                        lemma_usable_bounds(ws, 1, word_limit(ws));
                    }
                    let count = cands.len();
                    proof {
                        assert(next_mention(t, i as int) == Some(i as int));
                        assert(mention_spans(t, i as int) == spans_view(sp@));
                        assert(mention_words(t, i as int) == ws);
                        assert(texts(cands@).len() == count);
                        assert(count == mention_candidates(t, i as int).len());
                        assert(ws.len() == sp@.len());
                    }
                    self.pending = Some((i, sp, count));
                    return Some(cands);
                }
            }
            proof {
                lemma_next_mention_skip(t, i as int);
            }
            i += 1;
        }
        self.pending = None;
        None
    }

    /// Settles the proposed mention: `best` is the index of the longest
    /// candidate that names an existing resource, if any. When one does, the
    /// search goes on after its last word; when none does, it goes on after
    /// the `@`, and the mention's first word is returned, to be reported.
    pub fn settle(&mut self, best: Option<usize>) -> (r: Option<String>)
        requires
            match (old(self).pending(), best) {
                (Some(a), Some(b)) => b < mention_candidates(old(self).text(), a).len(),
                _ => true,
            },
        ensures
            final(self).text() == old(self).text(),
            final(self).pending() is None,
            match old(self).pending() {
                None => final(self).pos() == old(self).pos() && r is None,
                Some(a) => {
                    &&& final(self).pos() > a
                    &&& match best {
                        Some(b) => {
                            &&& final(self).pos() == mention_spans(old(self).text(), a)[b as int].1
                            &&& r is None
                        },
                        None => {
                            &&& final(self).pos() == a + 1
                            &&& r matches Some(w) && w@ == mention_words(old(self).text(), a)[0]
                        },
                    }
                },
            },
    {
        proof {
            use_type_invariant(&*self);
        }
        let mut p = None;
        std::mem::swap(&mut p, &mut self.pending);
        match p {
            None => None,
            Some((a, sp, n)) => {
                proof {
                    lemma_next_mention_found(self.text@, old(self).pos as int, a as int);
                }
                match best {
                    Some(b) => {
                        proof {
                            assert(spans_view(sp@)[b as int] == (sp@[b as int].0 as int, sp@[
                                b as int].1 as int));
                        }
                        self.pos = sp[b].1;
                        None
                    },
                    None => {
                        self.pos = a + 1;
                        let (lo, hi) = sp[0];
                        let w = slice_chars(&self.text, lo, hi);
                        proof {
                            assert(spans_view(sp@)[0] == (lo as int, hi as int));
                        }
                        Some(string_from_chars(w.as_slice()))
                    },
                }
            },
        }
    }

    /// Settles the proposed mention given, for each candidate, whether it
    /// names an existing resource: the longest that does is taken, and the
    /// search goes on after its last word; when none does, the search goes
    /// on after the `@` and the mention's first word is returned. `None`
    /// when no mention was proposed.
    pub fn settle_by(&mut self, resolves: &Vec<bool>) -> (r: Option<Settled>)
        requires
            old(self).pending() matches Some(a) ==> resolves@.len() == mention_candidates(
                old(self).text(),
                a,
            ).len(),
        ensures
            final(self).text() == old(self).text(),
            final(self).pending() is None,
            match old(self).pending() {
                None => final(self).pos() == old(self).pos() && r is None,
                Some(a) => {
                    &&& final(self).pos() > a
                    &&& match longest_set(resolves@) {
                        Some(b) => {
                            &&& r == Some(Settled::Found(b as usize))
                            &&& final(self).pos() == mention_spans(old(self).text(), a)[b].1
                        },
                        None => {
                            &&& final(self).pos() == a + 1
                            &&& r matches Some(Settled::Missing(w)) && w@ == mention_words(
                                old(self).text(),
                                a,
                            )[0]
                        },
                    }
                },
            },
    {
        let pending = self.pending.is_some();
        if !pending {
            self.settle(None);
            return None;
        }
        let best = longest_resolving(resolves);
        proof {
            lemma_longest_set_bounds(resolves@);
        }
        match best {
            Some(b) => {
                self.settle(Some(b));
                Some(Settled::Found(b))
            },
            None => match self.settle(None) {
                Some(w) => Some(Settled::Missing(w)),
                None => None,
            },
        }
    }
}

/// The report of a mention whose first word is `word` and that names nothing
/// under `base_dir` or in the configuration directory.
pub open spec fn missing_reference_text(word: Seq<char>, base_dir: Seq<char>) -> Seq<char> {
    "Resource '@"@ + word + "' not found in CWD ("@ + base_dir + ") or ~/.config/rope/"@
}

/// The report of a mention that names nothing.
pub fn missing_reference_message(word: &str, base_dir: &str) -> (r: String)
    ensures
        r@ == missing_reference_text(word@, base_dir@),
{
    let mut out: Vec<char> = Vec::new();
    push_str(&mut out, "Resource '@");
    push_str(&mut out, word);
    push_str(&mut out, "' not found in CWD (");
    push_str(&mut out, base_dir);
    push_str(&mut out, ") or ~/.config/rope/");
    string_from_chars(out.as_slice())
}

/// Records `path` among the files already taken; true when it was not among
/// them yet (`HashSet::insert`).
pub fn note_new(seen: &mut Vec<String>, path: &str) -> (r: bool)
    ensures
        r == !texts(old(seen)@).contains(path@),
        texts(final(seen)@) == if r {
            texts(old(seen)@).push(path@)
        } else {
            texts(old(seen)@)
        },
{
    let p = chars_of(path);
    let mut i: usize = 0;
    while i < seen.len()
        invariant
            i <= seen@.len(),
            p@ == path@,
            forall|j: int| 0 <= j < i ==> texts(seen@)[j] != path@,
        decreases seen.len() - i,
    {
        let s = chars_of(seen[i].as_str());
        if crate::text::chars_eq(&s, &p) {
            assert(texts(seen@)[i as int] == path@);
            return false;
        }
        i += 1;
    }
    let ghost before = texts(seen@);
    seen.push(path.to_string());
    assert(texts(seen@) == before.push(path@));
    true
}

/// The reference `paths[i]` names a file for the first time: the file is
/// neither among `taken` nor named by an earlier reference.
pub open spec fn is_first_mention(paths: Seq<Seq<char>>, taken: Seq<Seq<char>>, i: int) -> bool {
    &&& 0 <= i < paths.len()
    &&& !taken.contains(paths[i])
    &&& !paths.take(i).contains(paths[i])
}

/// The references among `paths` whose files are to be read and embedded,
/// by index in ascending order: each file once, at its first mention, and
/// none of the files `taken` already. A reference whose file then cannot be
/// read has still taken its file. The prompt's own references are planned
/// with nothing taken; the references found in the contents of the directly
/// named files, one level down, with all the prompt's references taken.
pub fn first_mentions(paths: &Vec<String>, taken: &Vec<String>) -> (r: Vec<usize>)
    ensures
        forall|k: int| 0 <= k < r@.len() ==> is_first_mention(texts(paths@), texts(taken@), #[trigger] r@[k] as int),
        forall|i: int| is_first_mention(texts(paths@), texts(taken@), i) ==> r@.contains(i as usize),
        forall|a: int, b: int| 0 <= a < b < r@.len() ==> r@[a] < r@[b],
{
    let ghost tv = texts(taken@);
    let ghost pv = texts(paths@);
    let mut seen: Vec<String> = Vec::new();
    let mut k: usize = 0;
    while k < taken.len()
        invariant
            k <= taken@.len(),
            tv == texts(taken@),
            forall|x: Seq<char>| texts(seen@).contains(x) <==> tv.take(k as int).contains(x),
        decreases taken.len() - k,
    {
        let ghost before = texts(seen@);
        note_new(&mut seen, taken[k].as_str());
        assert(tv.take(k + 1) == tv.take(k as int).push(tv[k as int]));
        assert forall|x: Seq<char>| texts(seen@).contains(x) <==> tv.take(k + 1).contains(x) by {
            vstd::seq_lib::lemma_seq_contains_after_push(before, tv[k as int], x);
            vstd::seq_lib::lemma_seq_contains_after_push(tv.take(k as int), tv[k as int], x);
        }
        k += 1;
    }
    assert(tv.take(taken@.len() as int) == tv);
    let mut r: Vec<usize> = Vec::new();
    let mut i: usize = 0;
    while i < paths.len()
        invariant
            i <= paths@.len(),
            tv == texts(taken@),
            pv == texts(paths@),
            forall|x: Seq<char>| texts(seen@).contains(x) <==> (tv.contains(x) || pv.take(i as int).contains(x)),
            forall|k: int| 0 <= k < r@.len() ==> is_first_mention(pv, tv, #[trigger] r@[k] as int) && r@[k] < i,
            forall|j: int| 0 <= j < i && is_first_mention(pv, tv, j) ==> r@.contains(j as usize),
            forall|a: int, b: int| 0 <= a < b < r@.len() ==> r@[a] < r@[b],
        decreases paths.len() - i,
    {
        let ghost before = texts(seen@);
        let ghost x0 = pv[i as int];
        assert(pv.take(i + 1) == pv.take(i as int).push(x0));
        let fresh = note_new(&mut seen, paths[i].as_str());
        assert(fresh == !(tv.contains(x0) || pv.take(i as int).contains(x0)));
        assert forall|x: Seq<char>| texts(seen@).contains(x) <==> (tv.contains(x) || pv.take(i + 1).contains(x)) by {
            vstd::seq_lib::lemma_seq_contains_after_push(before, x0, x);
            vstd::seq_lib::lemma_seq_contains_after_push(pv.take(i as int), x0, x);
        }
        if fresh {
            let ghost old_r = r@;
            r.push(i);
            assert forall|j: int| 0 <= j < i + 1 && is_first_mention(pv, tv, j) implies r@.contains(j as usize) by {
                if j < i {
                    let w = choose|w: int| 0 <= w < old_r.len() && #[trigger] old_r[w] == j as usize;
                    assert(r@[w] == j as usize);
                } else {
                    assert(r@[old_r.len() as int] == i);
                }
            }
        } else {
            assert(!is_first_mention(pv, tv, i as int));
        }
        let ghost t1 = pv.take(i + 1);
        assert(forall|x: Seq<char>| texts(seen@).contains(x) <==> (tv.contains(x) || #[trigger] t1.contains(x)));
        i += 1;
        assert(t1 == pv.take(i as int));
    }
    r
}

/// Each file is embedded once: the references `direct` named in the prompt
/// and the references `nested` found in the embedded files' contents bring
/// in different files, and no file named in the prompt comes in again one
/// level down.
pub proof fn law_each_file_embedded_once(
    direct: Seq<Seq<char>>,
    nested: Seq<Seq<char>>,
    i: int,
    j: int,
)
    ensures
        is_first_mention(direct, Seq::empty(), i) && is_first_mention(direct, Seq::empty(), j)
            && i != j ==> direct[i] != direct[j],
        is_first_mention(nested, direct, i) && is_first_mention(nested, direct, j) && i != j
            ==> nested[i] != nested[j],
        is_first_mention(direct, Seq::empty(), i) && is_first_mention(nested, direct, j)
            ==> direct[i] != nested[j],
{
    if is_first_mention(direct, Seq::empty(), i) && is_first_mention(direct, Seq::empty(), j) && i < j {
        assert(direct.take(j)[i] == direct[i]);
    }
    if is_first_mention(direct, Seq::empty(), i) && is_first_mention(direct, Seq::empty(), j) && j < i {
        assert(direct.take(i)[j] == direct[j]);
    }
    if is_first_mention(nested, direct, i) && is_first_mention(nested, direct, j) && i < j {
        assert(nested.take(j)[i] == nested[i]);
    }
    if is_first_mention(nested, direct, i) && is_first_mention(nested, direct, j) && j < i {
        assert(nested.take(i)[j] == nested[j]);
    }
    if is_first_mention(direct, Seq::empty(), i) && is_first_mention(nested, direct, j) {
        assert(direct[i] == direct[i]);
    }
}

/// A file named directly in the prompt: how it is shown, and what it holds.
pub struct DirectFile {
    pub name: String,
    pub content: String,
}

/// A file named inside a directly named file: how it is shown, what it holds,
/// and how the file that names it is shown.
pub struct NestedFile {
    pub name: String,
    pub content: String,
    pub parent: String,
}

/// The block that shows a directly named file.
pub open spec fn direct_block(f: DirectFile) -> Seq<char> {
    "\n\n[File: "@ + f.name@ + "]\n"@ + f.content@
}

/// The block that shows a file named inside another.
pub open spec fn nested_block(f: NestedFile) -> Seq<char> {
    "\n\n[File: "@ + f.name@ + " (referenced by "@ + f.parent@ + ")]\n"@ + f.content@
}

/// The blocks of `fs`, one after another.
pub open spec fn direct_blocks(fs: Seq<DirectFile>) -> Seq<char>
    decreases fs.len(),
{
    if fs.len() == 0 {
        Seq::empty()
    } else {
        direct_blocks(fs.drop_last()) + direct_block(fs.last())
    }
}

/// The blocks of `fs`, one after another.
pub open spec fn nested_blocks(fs: Seq<NestedFile>) -> Seq<char>
    decreases fs.len(),
{
    if fs.len() == 0 {
        Seq::empty()
    } else {
        nested_blocks(fs.drop_last()) + nested_block(fs.last())
    }
}

/// The prompt with the files it names appended: unchanged when there are
/// none; otherwise a `---` rule, the directly named files, then the files
/// they name.
pub open spec fn expanded_prompt(
    prompt: Seq<char>,
    direct: Seq<DirectFile>,
    nested: Seq<NestedFile>,
) -> Seq<char> {
    if direct.len() == 0 && nested.len() == 0 {
        prompt
    } else {
        prompt + "\n\n---"@ + direct_blocks(direct) + nested_blocks(nested)
    }
}

/// The total length of the blocks that show the directly named files `fs`,
/// each block being `[File: name]` on its own line, then the content.
pub open spec fn direct_blocks_len(fs: Seq<DirectFile>) -> nat
    decreases fs.len(),
{
    if fs.len() == 0 {
        0
    } else {
        direct_blocks_len(fs.drop_last()) + ("\n\n[File: "@ + fs.last().name@ + "]\n"@
            + fs.last().content@).len()
    }
}

/// The total length of the blocks that show the nested files `fs`, each
/// naming the file that refers to it.
pub open spec fn nested_blocks_len(fs: Seq<NestedFile>) -> nat
    decreases fs.len(),
{
    if fs.len() == 0 {
        0
    } else {
        nested_blocks_len(fs.drop_last()) + ("\n\n[File: "@ + fs.last().name@
            + " (referenced by "@ + fs.last().parent@ + ")]\n"@ + fs.last().content@).len()
    }
}

proof fn lemma_direct_blocks(fs: Seq<DirectFile>, i: int)
    ensures
        direct_blocks(fs).len() == direct_blocks_len(fs),
        0 <= i < fs.len() ==> occurs_at(
            direct_blocks(fs),
            "\n\n[File: "@ + fs[i].name@ + "]\n"@ + fs[i].content@,
            direct_blocks_len(fs.take(i)) as int,
        ),
    decreases fs.len(),
{
    if fs.len() > 0 {
        let prev = fs.drop_last();
        let b = direct_block(fs.last());
        lemma_direct_blocks(prev, i);
        if i == fs.len() - 1 {
            assert(fs.take(i) == prev);
            assert(b.subrange(0, b.len() as int) =~= b);
            crate::text::lemma_occurs_in_suffix(direct_blocks(prev), b, b, 0);
        } else if 0 <= i < fs.len() - 1 {
            assert(prev.take(i) == fs.take(i));
            assert(prev[i] == fs[i]);
            crate::text::lemma_occurs_in_prefix(
                direct_blocks(prev),
                b,
                "\n\n[File: "@ + fs[i].name@ + "]\n"@ + fs[i].content@,
                direct_blocks_len(fs.take(i)) as int,
            );
        }
    }
}

proof fn lemma_nested_blocks(fs: Seq<NestedFile>, i: int)
    ensures
        nested_blocks(fs).len() == nested_blocks_len(fs),
        0 <= i < fs.len() ==> occurs_at(
            nested_blocks(fs),
            "\n\n[File: "@ + fs[i].name@ + " (referenced by "@ + fs[i].parent@ + ")]\n"@
                + fs[i].content@,
            nested_blocks_len(fs.take(i)) as int,
        ),
    decreases fs.len(),
{
    if fs.len() > 0 {
        let prev = fs.drop_last();
        let b = nested_block(fs.last());
        lemma_nested_blocks(prev, i);
        if i == fs.len() - 1 {
            assert(fs.take(i) == prev);
            assert(b.subrange(0, b.len() as int) =~= b);
            crate::text::lemma_occurs_in_suffix(nested_blocks(prev), b, b, 0);
        } else if 0 <= i < fs.len() - 1 {
            assert(prev.take(i) == fs.take(i));
            assert(prev[i] == fs[i]);
            crate::text::lemma_occurs_in_prefix(
                nested_blocks(prev),
                b,
                "\n\n[File: "@ + fs[i].name@ + " (referenced by "@ + fs[i].parent@ + ")]\n"@
                    + fs[i].content@,
                nested_blocks_len(fs.take(i)) as int,
            );
        }
    }
}

/// Every named file is embedded, once, in order: with no file the prompt
/// stays as it is; otherwise the prompt comes first, then a `---` rule, then
/// one block per directly named file in their order, then one block per
/// nested file in theirs, each block at the place the blocks before it end,
/// and nothing after the last block.
pub proof fn law_every_named_file_is_embedded(
    prompt: Seq<char>,
    direct: Seq<DirectFile>,
    nested: Seq<NestedFile>,
)
    ensures
        direct.len() == 0 && nested.len() == 0 ==> expanded_prompt(prompt, direct, nested)
            == prompt,
        direct.len() > 0 || nested.len() > 0 ==> expanded_prompt(prompt, direct, nested).len()
            == prompt.len() as int + "\n\n---"@.len() + direct_blocks_len(direct) + nested_blocks_len(
            nested,
        ),
        direct.len() > 0 || nested.len() > 0 ==> occurs_at(
            expanded_prompt(prompt, direct, nested),
            prompt + "\n\n---"@,
            0,
        ),
        direct.len() > 0 || nested.len() > 0 ==> forall|i: int|
            0 <= i < direct.len() ==> occurs_at(
                expanded_prompt(prompt, direct, nested),
                "\n\n[File: "@ + (#[trigger] direct[i]).name@ + "]\n"@ + direct[i].content@,
                prompt.len() as int + "\n\n---"@.len() + direct_blocks_len(direct.take(i)),
            ),
        direct.len() > 0 || nested.len() > 0 ==> forall|j: int|
            0 <= j < nested.len() ==> occurs_at(
                expanded_prompt(prompt, direct, nested),
                "\n\n[File: "@ + (#[trigger] nested[j]).name@ + " (referenced by "@
                    + nested[j].parent@ + ")]\n"@ + nested[j].content@,
                prompt.len() as int + "\n\n---"@.len() + direct_blocks_len(direct) + nested_blocks_len(
                    nested.take(j),
                ),
            ),
{
    if direct.len() > 0 || nested.len() > 0 {
        let head = prompt + "\n\n---"@;
        let d = direct_blocks(direct);
        let n = nested_blocks(nested);
        let r = expanded_prompt(prompt, direct, nested);
        assert(r == head + d + n);
        lemma_direct_blocks(direct, 0);
        lemma_nested_blocks(nested, 0);
        assert(head.subrange(0, head.len() as int) =~= head);
        crate::text::lemma_occurs_in_prefix(head, d, head, 0);
        crate::text::lemma_occurs_in_prefix(head + d, n, head, 0);
        assert forall|i: int| 0 <= i < direct.len() implies occurs_at(
            r,
            "\n\n[File: "@ + (#[trigger] direct[i]).name@ + "]\n"@ + direct[i].content@,
            prompt.len() as int + "\n\n---"@.len() + direct_blocks_len(direct.take(i)),
        ) by {
            let e = "\n\n[File: "@ + direct[i].name@ + "]\n"@ + direct[i].content@;
            lemma_direct_blocks(direct, i);
            crate::text::lemma_occurs_in_suffix(head, d, e, direct_blocks_len(direct.take(i)) as int);
            crate::text::lemma_occurs_in_prefix(
                head + d,
                n,
                e,
                direct_blocks_len(direct.take(i)) + head.len() as int,
            );
        }
        assert forall|j: int| 0 <= j < nested.len() implies occurs_at(
            r,
            "\n\n[File: "@ + (#[trigger] nested[j]).name@ + " (referenced by "@
                + nested[j].parent@ + ")]\n"@ + nested[j].content@,
            prompt.len() as int + "\n\n---"@.len() + direct_blocks_len(direct) + nested_blocks_len(
                nested.take(j),
            ),
        ) by {
            let e = "\n\n[File: "@ + nested[j].name@ + " (referenced by "@ + nested[j].parent@
                + ")]\n"@ + nested[j].content@;
            lemma_nested_blocks(nested, j);
            crate::text::lemma_occurs_in_suffix(
                head + d,
                n,
                e,
                nested_blocks_len(nested.take(j)) as int,
            );
        }
    }
}

/// Appends the named files to the prompt.
pub fn assemble_prompt(prompt: &str, direct: &Vec<DirectFile>, nested: &Vec<NestedFile>) -> (r:
    String)
    ensures
        r@ == expanded_prompt(prompt@, direct@, nested@),
{
    let mut out = chars_of(prompt);
    if direct.len() == 0 && nested.len() == 0 {
        return string_from_chars(out.as_slice());
    }
    push_str(&mut out, "\n\n---");
    let ghost start = out@;
    let mut i: usize = 0;
    assert(direct@.take(0).len() == 0);
    while i < direct.len()
        invariant
            i <= direct.len(),
            out@ == start + direct_blocks(direct@.take(i as int)),
        decreases direct.len() - i,
    {
        push_str(&mut out, "\n\n[File: ");
        push_str(&mut out, direct[i].name.as_str());
        push_str(&mut out, "]\n");
        push_str(&mut out, direct[i].content.as_str());
        assert(direct@.take(i + 1).drop_last() == direct@.take(i as int));
        i += 1;
    }
    assert(direct@.take(direct.len() as int) == direct@);
    let ghost mid = out@;
    let mut j: usize = 0;
    assert(nested@.take(0).len() == 0);
    while j < nested.len()
        invariant
            j <= nested.len(),
            out@ == mid + nested_blocks(nested@.take(j as int)),
        decreases nested.len() - j,
    {
        push_str(&mut out, "\n\n[File: ");
        push_str(&mut out, nested[j].name.as_str());
        push_str(&mut out, " (referenced by ");
        push_str(&mut out, nested[j].parent.as_str());
        push_str(&mut out, ")]\n");
        push_str(&mut out, nested[j].content.as_str());
        assert(nested@.take(j + 1).drop_last() == nested@.take(j as int));
        j += 1;
    }
    assert(nested@.take(nested.len() as int) == nested@);
    string_from_chars(out.as_slice())
}

} // verus!
