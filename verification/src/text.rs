//! Character-level text primitives shared by the whole library.
//!
//! Text is handled as sequences of Unicode scalar values (`Seq<char>`), the
//! view that vstd gives to `str` and `String`.

use vstd::prelude::*;

verus! {

broadcast use vstd::string::group_string_axioms;

/// The characters of `s`, as a vector.
pub fn chars_of(s: &str) -> (v: Vec<char>)
    ensures
        v@ == s@,
{
    let mut v: Vec<char> = Vec::new();
    for c in it: s.chars()
        invariant
            v@ == it.seq().take(it.index() as int),
            it.seq() == s@,
    {
        v.push(c);
        assert(it.seq().take(it.index() + 1) == it.seq().take(it.index() as int).push(c));
    }
    v
}

/// Collects characters into a `String` (std's `FromIterator<&char>` for `String`).
///
/// Trusted: the claim is that the string holds exactly the given characters,
/// in order, which is what std documents for collecting chars.
#[verifier::external_body]
pub fn string_from_chars(chars: &[char]) -> (s: String)
    ensures
        s@ == chars@,
{
    <String as std::iter::FromIterator<&char>>::from_iter(chars)
}

/// Appends the characters of `s` to `v`.
pub fn push_str(v: &mut Vec<char>, s: &str)
    ensures
        final(v)@ == old(v)@ + s@,
{
    for c in it: s.chars()
        invariant
            v@ == old(v)@ + it.seq().take(it.index() as int),
            it.seq() == s@,
    {
        v.push(c);
        assert(it.seq().take(it.index() + 1) == it.seq().take(it.index() as int).push(c));
    }
    assert(s@.take(s@.len() as int) == s@);
}

/// Appends the characters of `s` to `v`.
pub fn push_chars(v: &mut Vec<char>, s: &Vec<char>)
    ensures
        final(v)@ == old(v)@ + s@,
{
    let mut i: usize = 0;
    while i < s.len()
        invariant
            i <= s.len(),
            v@ == old(v)@ + s@.take(i as int),
        decreases s.len() - i,
    {
        v.push(s[i]);
        assert(s@.take(i + 1) == s@.take(i as int).push(s@[i as int]));
        i += 1;
    }
    assert(s@.take(s@.len() as int) == s@);
}

/// The characters `lo..hi` of `s`, copied.
pub fn slice_chars(s: &Vec<char>, lo: usize, hi: usize) -> (r: Vec<char>)
    requires
        lo <= hi <= s.len(),
    ensures
        r@ == s@.subrange(lo as int, hi as int),
{
    let mut r: Vec<char> = Vec::new();
    let mut i = lo;
    while i < hi
        invariant
            lo <= i <= hi,
            hi <= s.len(),
            r@ == s@.subrange(lo as int, i as int),
        decreases hi - i,
    {
        r.push(s[i]);
        assert(s@.subrange(lo as int, i + 1) == s@.subrange(lo as int, i as int).push(s@[i as int]));
        i += 1;
    }
    r
}

/// Whether `a` and `b` hold the same characters.
pub fn chars_eq(a: &Vec<char>, b: &Vec<char>) -> (r: bool)
    ensures
        r == (a@ == b@),
{
    if a.len() != b.len() {
        return false;
    }
    let mut i: usize = 0;
    while i < a.len()
        invariant
            a.len() == b.len(),
            i <= a.len(),
            forall|j: int| 0 <= j < i ==> a@[j] == b@[j],
        decreases a.len() - i,
    {
        if a[i] != b[i] {
            return false;
        }
        i += 1;
    }
    assert(a@ =~= b@);
    true
}

// ---------------------------------------------------------------------------
// Whitespace (Unicode `White_Space`, as `char::is_whitespace` documents it)
// ---------------------------------------------------------------------------

/// `c` has the Unicode `White_Space` property.
pub open spec fn is_ws(c: char) -> bool {
    let u = c as u32;
    ||| 0x09 <= u <= 0x0D
    ||| u == 0x20
    ||| u == 0x85
    ||| u == 0xA0
    ||| u == 0x1680
    ||| 0x2000 <= u <= 0x200A
    ||| u == 0x2028
    ||| u == 0x2029
    ||| u == 0x202F
    ||| u == 0x205F
    ||| u == 0x3000
}

/// Whether `c` is whitespace.
pub fn is_whitespace(c: char) -> (r: bool)
    ensures
        r == is_ws(c),
{
    let u = c as u32;
    (0x09 <= u && u <= 0x0D) || u == 0x20 || u == 0x85 || u == 0xA0 || u == 0x1680 || (0x2000
        <= u && u <= 0x200A) || u == 0x2028 || u == 0x2029 || u == 0x202F || u == 0x205F || u
        == 0x3000
}

/// `s` without its leading whitespace.
pub open spec fn trim_start(s: Seq<char>) -> Seq<char>
    decreases s.len(),
{
    if s.len() > 0 && is_ws(s[0]) {
        trim_start(s.drop_first())
    } else {
        s
    }
}

/// `s` without its trailing whitespace.
pub open spec fn trim_end(s: Seq<char>) -> Seq<char>
    decreases s.len(),
{
    if s.len() > 0 && is_ws(s.last()) {
        trim_end(s.drop_last())
    } else {
        s
    }
}

/// `s` without leading and trailing whitespace (`str::trim`).
pub open spec fn trim(s: Seq<char>) -> Seq<char> {
    trim_end(trim_start(s))
}

proof fn lemma_trim_start_skip(s: Seq<char>, i: int)
    requires
        0 <= i <= s.len(),
        forall|j: int| 0 <= j < i ==> is_ws(s[j]),
    ensures
        trim_start(s) == trim_start(s.subrange(i, s.len() as int)),
    decreases i,
{
    if i > 0 {
        lemma_trim_start_skip(s.drop_first(), i - 1);
        assert(s.drop_first().subrange(i - 1, s.len() - 1) == s.subrange(i, s.len() as int));
    } else {
        assert(s.subrange(0, s.len() as int) == s);
    }
}

proof fn lemma_trim_end_cut(s: Seq<char>, k: int)
    requires
        0 <= k <= s.len(),
        forall|j: int| k <= j < s.len() ==> is_ws(s[j]),
    ensures
        trim_end(s) == trim_end(s.subrange(0, k)),
    decreases s.len() - k,
{
    if k < s.len() {
        lemma_trim_end_cut(s.drop_last(), k);
        assert(s.drop_last().subrange(0, k) == s.subrange(0, k));
    } else {
        assert(s.subrange(0, s.len() as int) == s);
    }
}

/// The characters of `s` with leading and trailing whitespace removed.
pub fn trim_chars(s: &Vec<char>) -> (r: Vec<char>)
    ensures
        r@ == trim(s@),
{
    let n = s.len();
    let mut a: usize = 0;
    while a < n && is_whitespace(s[a])
        invariant
            a <= n,
            n == s.len(),
            forall|j: int| 0 <= j < a ==> is_ws(s@[j]),
        decreases n - a,
    {
        a += 1;
    }
    proof {
        lemma_trim_start_skip(s@, a as int);
    }
    let ghost t = s@.subrange(a as int, n as int);
    assert(trim_start(t) == t);
    let mut b: usize = n;
    while b > a && is_whitespace(s[b - 1])
        invariant
            a <= b <= n,
            n == s.len(),
            forall|j: int| b <= j < n ==> is_ws(s@[j]),
        decreases b,
    {
        b -= 1;
    }
    proof {
        lemma_trim_end_cut(t, b - a);
        assert(t.subrange(0, b - a) == s@.subrange(a as int, b as int));
    }
    slice_chars(s, a, b)
}

/// The characters of `s` with trailing whitespace removed.
pub fn trim_end_chars(s: &Vec<char>) -> (r: Vec<char>)
    ensures
        r@ == trim_end(s@),
{
    let n = s.len();
    let mut b: usize = n;
    while b > 0 && is_whitespace(s[b - 1])
        invariant
            b <= n,
            n == s.len(),
            forall|j: int| b <= j < n ==> is_ws(s@[j]),
        decreases b,
    {
        b -= 1;
    }
    proof {
        lemma_trim_end_cut(s@, b as int);
    }
    slice_chars(s, 0, b)
}

// ---------------------------------------------------------------------------
// Decimal rendering of integers
// ---------------------------------------------------------------------------

/// The ASCII digit for `d` (`0 <= d < 10`).
pub open spec fn digit(d: nat) -> char {
    (('0' as u32) + d) as char
}

/// The decimal representation of `n`, as `{}` formats it.
pub open spec fn dec(n: nat) -> Seq<char>
    decreases n,
{
    if n < 10 {
        seq![digit(n)]
    } else {
        dec(n / 10).push(digit(n % 10))
    }
}

/// The decimal representation of the signed integer `n`.
pub open spec fn dec_int(n: int) -> Seq<char> {
    if n < 0 {
        seq!['-'] + dec((-n) as nat)
    } else {
        dec(n as nat)
    }
}

fn digit_char(d: u128) -> (c: char)
    requires
        d < 10,
    ensures
        c == digit(d as nat),
{
    match d {
        0 => '0',
        1 => '1',
        2 => '2',
        3 => '3',
        4 => '4',
        5 => '5',
        6 => '6',
        7 => '7',
        8 => '8',
        _ => '9',
    }
}

/// Appends the decimal representation of `n` to `v`.
pub fn push_dec(v: &mut Vec<char>, n: u128)
    ensures
        final(v)@ == old(v)@ + dec(n as nat),
    decreases n,
{
    if n < 10 {
        v.push(digit_char(n));
        assert(dec(n as nat) == seq![digit(n as nat)]);
    } else {
        push_dec(v, n / 10);
        v.push(digit_char(n % 10));
        assert(dec(n as nat) == dec((n / 10) as nat).push(digit((n % 10) as nat)));
    }
}

/// Appends the decimal representation of the signed `n` to `v`.
pub fn push_dec_i64(v: &mut Vec<char>, n: i64)
    ensures
        final(v)@ == old(v)@ + dec_int(n as int),
{
    if n < 0 {
        v.push('-');
        let m: u128 = if n == i64::MIN {
            9223372036854775808u128
        } else {
            (-n) as u128
        };
        push_dec(v, m);
        assert(old(v)@.push('-') + dec(m as nat) == old(v)@ + (seq!['-'] + dec(m as nat)));
    } else {
        push_dec(v, n as u128);
    }
}

// ---------------------------------------------------------------------------
// UTF-8 sizes
// ---------------------------------------------------------------------------

/// Bytes that `c` takes in UTF-8 (`char::len_utf8`).
pub open spec fn utf8_width(c: char) -> nat {
    let u = c as u32;
    if u < 0x80 {
        1
    } else if u < 0x800 {
        2
    } else if u < 0x10000 {
        3
    } else {
        4
    }
}

/// Bytes that `s` takes in UTF-8 (`str::len` of the same text).
pub open spec fn utf8_len(s: Seq<char>) -> nat
    decreases s.len(),
{
    if s.len() == 0 {
        0
    } else {
        utf8_len(s.drop_last()) + utf8_width(s.last())
    }
}

/// Bytes that the characters `lo..hi` of `s` take in UTF-8.
pub fn utf8_len_of(s: &Vec<char>, lo: usize, hi: usize) -> (n: u128)
    requires
        lo <= hi <= s.len(),
    ensures
        n == utf8_len(s@.subrange(lo as int, hi as int)),
{
    let mut n: u128 = 0;
    let mut i = lo;
    proof {
        assert(s@.subrange(lo as int, lo as int).len() == 0);
    }
    while i < hi
        invariant
            lo <= i <= hi,
            hi <= s.len(),
            n == utf8_len(s@.subrange(lo as int, i as int)),
            n <= 4 * (i - lo),
        decreases hi - i,
    {
        let u = s[i] as u32;
        let w: u128 = if u < 0x80 {
            1
        } else if u < 0x800 {
            2
        } else if u < 0x10000 {
            3
        } else {
            4
        };
        proof {
            let next = s@.subrange(lo as int, i + 1);
            assert(next.drop_last() == s@.subrange(lo as int, i as int));
            assert(next.last() == s@[i as int]);
        }
        n = n + w;
        i += 1;
    }
    n
}

// ---------------------------------------------------------------------------
// Substrings
// ---------------------------------------------------------------------------

/// `p` occurs in `s` starting at position `i`.
pub open spec fn occurs_at(s: Seq<char>, p: Seq<char>, i: int) -> bool {
    0 <= i && i + p.len() <= s.len() && s.subrange(i, i + p.len()) == p
}

/// An occurrence in `a` is one in `a + b` too, at the same place.
pub proof fn lemma_occurs_in_prefix(a: Seq<char>, b: Seq<char>, p: Seq<char>, i: int)
    requires
        occurs_at(a, p, i),
    ensures
        occurs_at(a + b, p, i),
{
    assert((a + b).subrange(i, i + p.len()) =~= a.subrange(i, i + p.len()));
}

/// An occurrence in `b` is one in `a + b` too, shifted by the length of `a`.
pub proof fn lemma_occurs_in_suffix(a: Seq<char>, b: Seq<char>, p: Seq<char>, i: int)
    requires
        occurs_at(b, p, i),
    ensures
        occurs_at(a + b, p, i + a.len()),
{
    assert((a + b).subrange(i + a.len(), i + a.len() + p.len()) =~= b.subrange(i, i + p.len()));
}

/// `p` occurs somewhere in `s` (`str::contains`).
pub open spec fn contains(s: Seq<char>, p: Seq<char>) -> bool {
    exists|i: int| occurs_at(s, p, i)
}

/// Whether `p` occurs in `s` at position `i`.
pub fn matches_at(s: &Vec<char>, p: &Vec<char>, i: usize) -> (r: bool)
    ensures
        r == occurs_at(s@, p@, i as int),
{
    if i > s.len() || p.len() > s.len() - i {
        return false;
    }
    let mut j: usize = 0;
    while j < p.len()
        invariant
            i + p.len() <= s.len(),
            j <= p.len(),
            forall|k: int| 0 <= k < j ==> s@[i + k] == p@[k],
        decreases p.len() - j,
    {
        if s[i + j] != p[j] {
            assert(s@.subrange(i as int, i + p.len())[j as int] != p@[j as int]);
            return false;
        }
        j += 1;
    }
    assert(s@.subrange(i as int, i + p.len()) =~= p@);
    true
}

/// The first position at or after `from` where `p` occurs in `s`.
pub fn find_from(s: &Vec<char>, p: &Vec<char>, from: usize) -> (r: Option<usize>)
    ensures
        match r {
            Some(i) => from <= i && occurs_at(s@, p@, i as int) && forall|j: int|
                from <= j < i ==> !occurs_at(s@, p@, j),
            None => forall|j: int| from <= j ==> !occurs_at(s@, p@, j),
        },
{
    if from > s.len() {
        return None;
    }
    let mut i = from;
    while i < s.len()
        invariant
            from <= i <= s.len(),
            forall|j: int| from <= j < i ==> !occurs_at(s@, p@, j),
        decreases s.len() - i,
    {
        if matches_at(s, p, i) {
            return Some(i);
        }
        i += 1;
    }
    if matches_at(s, p, i) {
        return Some(i);
    }
    None
}

/// `s` begins with `p`.
pub open spec fn has_prefix(s: Seq<char>, p: Seq<char>) -> bool {
    occurs_at(s, p, 0)
}

/// Whether `s` begins with `p`.
pub fn starts_with(s: &Vec<char>, p: &str) -> (r: bool)
    ensures
        r == has_prefix(s@, p@),
{
    let pc = chars_of(p);
    matches_at(s, &pc, 0)
}

/// Whether `s` holds exactly the characters of `p`.
pub fn is_exactly(s: &Vec<char>, p: &str) -> (r: bool)
    ensures
        r == (s@ == p@),
{
    let pc = chars_of(p);
    chars_eq(s, &pc)
}

/// Whether `p` occurs in `s`.
pub fn contains_chars(s: &Vec<char>, p: &Vec<char>) -> (r: bool)
    ensures
        r == contains(s@, p@),
{
    match find_from(s, p, 0) {
        Some(i) => true,
        None => false,
    }
}

/// `s` with every occurrence of the non-empty `p` replaced by `r`, leftmost
/// first and without overlap (`str::replace`).
pub open spec fn replace_all(s: Seq<char>, p: Seq<char>, r: Seq<char>) -> Seq<char>
    decreases s.len(),
{
    if s.len() == 0 || p.len() == 0 {
        s
    } else if has_prefix(s, p) {
        r + replace_all(s.subrange(p.len() as int, s.len() as int), p, r)
    } else {
        seq![s[0]] + replace_all(s.drop_first(), p, r)
    }
}

/// `s` with every occurrence of the non-empty `p` replaced by `r`.
pub fn replace_chars(s: &Vec<char>, p: &str, r: &str) -> (out: Vec<char>)
    requires
        p@.len() > 0,
    ensures
        out@ == replace_all(s@, p@, r@),
{
    let pc = chars_of(p);
    let n = s.len();
    let mut out: Vec<char> = Vec::new();
    let mut i: usize = 0;
    assert(s@.subrange(0, n as int) == s@);
    while i < n
        invariant
            i <= n,
            n == s.len(),
            pc@ == p@,
            pc@.len() > 0,
            out@ + replace_all(s@.subrange(i as int, n as int), p@, r@) == replace_all(s@, p@, r@),
        decreases n - i,
    {
        let ghost rest = s@.subrange(i as int, n as int);
        if matches_at(s, &pc, i) {
            assert(has_prefix(rest, p@)) by {
                assert(rest.subrange(0, p@.len() as int) == s@.subrange(i as int, i + p@.len()));
            }
            assert(rest.subrange(p@.len() as int, rest.len() as int) == s@.subrange(
                i + p@.len(),
                n as int,
            ));
            let ghost before = out@;
            push_str(&mut out, r);
            assert(before + (r@ + replace_all(s@.subrange(i + p@.len(), n as int), p@, r@)) == out@
                + replace_all(s@.subrange(i + p@.len(), n as int), p@, r@));
            i = i + pc.len();
        } else {
            assert(!has_prefix(rest, p@)) by {
                if has_prefix(rest, p@) {
                    assert(rest.subrange(0, p@.len() as int) == s@.subrange(
                        i as int,
                        i + p@.len(),
                    ));
                }
            }
            assert(rest.drop_first() == s@.subrange(i + 1, n as int));
            assert(rest[0] == s@[i as int]);
            let ghost before = out@;
            out.push(s[i]);
            assert(before + (seq![s@[i as int]] + replace_all(s@.subrange(i + 1, n as int), p@, r@))
                == out@ + replace_all(s@.subrange(i + 1, n as int), p@, r@));
            i = i + 1;
        }
    }
    assert(s@.subrange(n as int, n as int).len() == 0);
    assert(out@ + Seq::<char>::empty() == out@);
    out
}

// ---------------------------------------------------------------------------
// Lines (`str::lines`)
// ---------------------------------------------------------------------------

/// Position of the first `'\n'` in `s`, or `s.len()` when there is none.
pub open spec fn first_newline(s: Seq<char>) -> int
    decreases s.len(),
{
    if s.len() == 0 {
        0
    } else if s[0] == '\n' {
        0
    } else {
        1 + first_newline(s.drop_first())
    }
}

/// The first newline lies within the text (or just past it).
pub proof fn lemma_first_newline_bounds(s: Seq<char>)
    ensures
        0 <= first_newline(s) <= s.len(),
    decreases s.len(),
{
    if s.len() > 0 && s[0] != '\n' {
        lemma_first_newline_bounds(s.drop_first());
    }
}

/// `l` without one trailing `'\r'`.
pub open spec fn strip_cr(l: Seq<char>) -> Seq<char> {
    if l.len() > 0 && l.last() == '\r' {
        l.drop_last()
    } else {
        l
    }
}

/// The lines of `s`: split at each `'\n'`, a `'\r'` before it dropped; a final
/// line ending adds no empty line.
pub open spec fn lines(s: Seq<char>) -> Seq<Seq<char>>
    decreases s.len(),
{
    if s.len() == 0 {
        Seq::empty()
    } else {
        let k = first_newline(s);
        proof {
            lemma_first_newline_bounds(s);
        }
        if k >= s.len() {
            seq![s]
        } else {
            seq![strip_cr(s.subrange(0, k))] + lines(s.subrange(k + 1, s.len() as int))
        }
    }
}

/// The pieces `ls` with `sep` between each two.
pub open spec fn join(ls: Seq<Seq<char>>, sep: Seq<char>) -> Seq<char>
    decreases ls.len(),
{
    if ls.len() == 0 {
        Seq::empty()
    } else if ls.len() == 1 {
        ls[0]
    } else {
        join(ls.drop_last(), sep) + sep + ls.last()
    }
}

proof fn lemma_first_newline(s: Seq<char>, k: int)
    requires
        0 <= k <= s.len(),
        forall|j: int| 0 <= j < k ==> s[j] != '\n',
        k == s.len() || s[k] == '\n',
    ensures
        first_newline(s) == k,
    decreases k,
{
    if k > 0 {
        lemma_first_newline(s.drop_first(), k - 1);
    }
}

/// The views of a sequence of character vectors.
pub open spec fn vecs_view(v: Seq<Vec<char>>) -> Seq<Seq<char>> {
    v.map_values(|l: Vec<char>| l@)
}

/// The lines of `s`.
pub fn split_lines(s: &Vec<char>) -> (r: Vec<Vec<char>>)
    ensures
        vecs_view(r@) == lines(s@),
{
    let n = s.len();
    let mut out: Vec<Vec<char>> = Vec::new();
    let mut pos: usize = 0;
    assert(s@.subrange(0, n as int) == s@);
    assert(vecs_view(out@) =~= Seq::<Seq<char>>::empty());
    while pos < n
        invariant
            pos <= n,
            n == s.len(),
            vecs_view(out@) + lines(s@.subrange(pos as int, n as int)) == lines(s@),
        decreases n - pos,
    {
        let ghost rest = s@.subrange(pos as int, n as int);
        let mut k = pos;
        while k < n && s[k] != '\n'
            invariant
                pos <= k <= n,
                n == s.len(),
                forall|j: int| pos <= j < k ==> s@[j] != '\n',
            decreases n - k,
        {
            k += 1;
        }
        proof {
            lemma_first_newline(rest, k - pos);
        }
        let ghost old_view = vecs_view(out@);
        if k == n {
            let line = slice_chars(s, pos, n);
            out.push(line);
            assert(vecs_view(out@) == old_view.push(rest));
            assert(lines(rest) == seq![rest]);
            assert(s@.subrange(n as int, n as int).len() == 0);
            assert(lines(s@.subrange(n as int, n as int)) == Seq::<Seq<char>>::empty());
            assert(old_view + seq![rest] == old_view.push(rest));
            pos = n;
        } else {
            let end = if k > pos && s[k - 1] == '\r' {
                k - 1
            } else {
                k
            };
            let line = slice_chars(s, pos, end);
            assert(rest.subrange(0, k - pos) == s@.subrange(pos as int, k as int));
            assert(line@ == strip_cr(rest.subrange(0, k - pos)));
            out.push(line);
            assert(rest.subrange(k - pos + 1, rest.len() as int) == s@.subrange(k + 1, n as int));
            assert(vecs_view(out@) == old_view.push(line@));
            assert(old_view + (seq![line@] + lines(s@.subrange(k + 1, n as int))) == old_view.push(
                line@,
            ) + lines(s@.subrange(k + 1, n as int)));
            pos = k + 1;
        }
    }
    assert(s@.subrange(n as int, n as int).len() == 0);
    assert(vecs_view(out@) + Seq::<Seq<char>>::empty() == vecs_view(out@));
    out
}

/// The lines `ls[lo..hi]` joined by `sep`.
pub fn join_lines(ls: &Vec<Vec<char>>, lo: usize, hi: usize, sep: &str) -> (r: Vec<char>)
    requires
        lo <= hi <= ls.len(),
    ensures
        r@ == join(vecs_view(ls@).subrange(lo as int, hi as int), sep@),
{
    let mut out: Vec<char> = Vec::new();
    let mut i = lo;
    let ghost vs = vecs_view(ls@);
    assert(vs.subrange(lo as int, lo as int).len() == 0);
    while i < hi
        invariant
            lo <= i <= hi,
            hi <= ls.len(),
            vs == vecs_view(ls@),
            out@ == join(vs.subrange(lo as int, i as int), sep@),
        decreases hi - i,
    {
        let ghost prev = vs.subrange(lo as int, i as int);
        let ghost next = vs.subrange(lo as int, i + 1);
        assert(next.drop_last() == prev);
        assert(next.last() == ls@[i as int]@);
        if i > lo {
            push_str(&mut out, sep);
        } else {
            assert(next.len() == 1);
        }
        push_chars(&mut out, &ls[i]);
        i += 1;
    }
    out
}

/// The texts of a list of strings.
pub open spec fn texts(v: Seq<String>) -> Seq<Seq<char>> {
    v.map_values(|s: String| s@)
}

// ---------------------------------------------------------------------------
// Words (maximal runs of non-whitespace, as `str::split_whitespace` yields them)
// ---------------------------------------------------------------------------

/// Where the run of non-whitespace characters of `t` that starts at `i` ends,
/// looking no further than `hi`.
pub open spec fn run_end(t: Seq<char>, i: int, hi: int) -> int
    decreases hi - i,
{
    if i >= hi || is_ws(t[i]) {
        i
    } else {
        run_end(t, i + 1, hi)
    }
}

/// `run_end` lies between `i` and `hi`, past non-whitespace only, and stops
/// at whitespace when it stops before `hi`.
pub proof fn lemma_run_end_bounds(t: Seq<char>, i: int, hi: int)
    requires
        i <= hi,
    ensures
        i <= run_end(t, i, hi) <= hi,
        forall|j: int| i <= j < run_end(t, i, hi) ==> !is_ws(#[trigger] t[j]),
        run_end(t, i, hi) < hi ==> is_ws(t[run_end(t, i, hi)]),
    decreases hi - i,
{
    if i < hi && !is_ws(t[i]) {
        lemma_run_end_bounds(t, i + 1, hi);
    }
}

/// The spans `[start, end)` of the words of `t` between `i` and `hi`: the
/// maximal runs of non-whitespace characters, in order.
pub open spec fn word_spans(t: Seq<char>, i: int, hi: int) -> Seq<(int, int)>
    decreases hi - i,
{
    if i >= hi {
        Seq::empty()
    } else if is_ws(t[i]) {
        word_spans(t, i + 1, hi)
    } else {
        let e = run_end(t, i + 1, hi);
        proof {
            lemma_run_end_bounds(t, i + 1, hi);
        }
        seq![(i, e)] + word_spans(t, e, hi)
    }
}

/// The texts of the spans `sp` of `t`.
pub open spec fn span_texts(t: Seq<char>, sp: Seq<(int, int)>) -> Seq<Seq<char>> {
    sp.map_values(|p: (int, int)| t.subrange(p.0, p.1))
}

/// The words of `s` (`str::split_whitespace`).
pub open spec fn words(s: Seq<char>) -> Seq<Seq<char>> {
    span_texts(s, word_spans(s, 0, s.len() as int))
}

/// A list of spans, taken as integer pairs.
pub open spec fn spans_view(v: Seq<(usize, usize)>) -> Seq<(int, int)> {
    v.map_values(|p: (usize, usize)| (p.0 as int, p.1 as int))
}

/// The spans of the words of `t` between `lo` and `hi`.
pub fn word_spans_of(t: &Vec<char>, lo: usize, hi: usize) -> (r: Vec<(usize, usize)>)
    requires
        lo <= hi <= t.len(),
    ensures
        spans_view(r@) == word_spans(t@, lo as int, hi as int),
        forall|k: int| 0 <= k < r@.len() ==> lo <= (#[trigger] r@[k]).0 < r@[k].1 <= hi,
{
    let mut out: Vec<(usize, usize)> = Vec::new();
    let mut i = lo;
    while i < hi
        invariant
            lo <= i <= hi,
            hi <= t.len(),
            spans_view(out@) + word_spans(t@, i as int, hi as int) == word_spans(
                t@,
                lo as int,
                hi as int,
            ),
            forall|k: int| 0 <= k < out@.len() ==> lo <= (#[trigger] out@[k]).0 < out@[k].1 <= i,
        decreases hi - i,
    {
        if is_whitespace(t[i]) {
            i += 1;
        } else {
            let mut e = i + 1;
            proof {
                lemma_run_end_bounds(t@, i + 1, hi as int);
            }
            while e < hi && !is_whitespace(t[e])
                invariant
                    i < e <= hi,
                    hi <= t.len(),
                    run_end(t@, e as int, hi as int) == run_end(t@, i + 1, hi as int),
                decreases hi - e,
            {
                e += 1;
            }
            let ghost before = spans_view(out@);
            out.push((i, e));
            proof {
                assert(spans_view(out@) == before.push((i as int, e as int)));
                assert(word_spans(t@, i as int, hi as int) == seq![(i as int, e as int)]
                    + word_spans(t@, e as int, hi as int));
                assert(spans_view(out@) + word_spans(t@, e as int, hi as int) == before
                    + word_spans(t@, i as int, hi as int));
            }
            i = e;
        }
    }
    assert(spans_view(out@) + word_spans(t@, i as int, hi as int) == spans_view(out@));
    out
}

/// The words of `s`, each as a `String` (`str::split_whitespace`).
pub fn split_words(s: &str) -> (r: Vec<String>)
    ensures
        texts(r@) == words(s@),
{
    let t = chars_of(s);
    let sp = word_spans_of(&t, 0, t.len());
    let mut out: Vec<String> = Vec::new();
    let mut k: usize = 0;
    while k < sp.len()
        invariant
            k <= sp@.len(),
            t@ == s@,
            spans_view(sp@) == word_spans(t@, 0, t@.len() as int),
            forall|j: int| 0 <= j < sp@.len() ==> 0 <= (#[trigger] sp@[j]).0 < sp@[j].1 <= t@.len(),
            texts(out@) == span_texts(t@, spans_view(sp@)).take(k as int),
        decreases sp.len() - k,
    {
        let (a, b) = sp[k];
        let w = slice_chars(&t, a, b);
        let ghost before = texts(out@);
        out.push(string_from_chars(w.as_slice()));
        proof {
            assert(spans_view(sp@)[k as int] == (a as int, b as int));
            assert(texts(out@) == before.push(w@));
            assert(span_texts(t@, spans_view(sp@)).take(k + 1) == span_texts(
                t@,
                spans_view(sp@),
            ).take(k as int).push(t@.subrange(a as int, b as int)));
        }
        k += 1;
    }
    assert(span_texts(t@, spans_view(sp@)).take(k as int) == span_texts(t@, spans_view(sp@)));
    out
}

// ---------------------------------------------------------------------------
// Lower case (std's Unicode case mapping)
// ---------------------------------------------------------------------------

/// The text that `str::to_lowercase` gives for `s`.
pub uninterp spec fn lowercase(s: Seq<char>) -> Seq<char>;

/// Every character of `s` is ASCII.
pub open spec fn all_ascii(s: Seq<char>) -> bool {
    forall|i: int| 0 <= i < s.len() ==> (s[i] as u32) < 128
}

/// The ASCII lower case of `c`: `A` to `Z` become `a` to `z`, every other
/// character stays as it is.
pub open spec fn ascii_lower(c: char) -> char {
    if 'A' <= c && c <= 'Z' {
        ((c as u32) + 32) as char
    } else {
        c
    }
}

/// `s` with each character put in ASCII lower case.
pub open spec fn ascii_lowercase(s: Seq<char>) -> Seq<char> {
    s.map_values(|c: char| ascii_lower(c))
}

/// `str::to_lowercase`.
///
/// Trusted: the result is std's Unicode lower-case mapping of the argument,
/// which depends on the argument alone. Of it the contract states only the
/// ASCII case: on an all-ASCII text the mapping is `A`-`Z` to `a`-`z`,
/// every other character unchanged; what it does beyond ASCII is left unsaid.
#[verifier::external_body]
pub fn to_lowercase(s: &str) -> (r: String)
    ensures
        r@ == lowercase(s@),
        all_ascii(s@) ==> r@ == ascii_lowercase(s@),
{
    s.to_lowercase()
}

/// The lower-case form of the characters `s`.
pub fn lowercase_chars(s: &Vec<char>) -> (r: Vec<char>)
    ensures
        r@ == lowercase(s@),
{
    let st = string_from_chars(s.as_slice());
    let l = to_lowercase(st.as_str());
    chars_of(l.as_str())
}

} // verus!
