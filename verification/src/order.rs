//! Lexicographic order on text and stable sorting by text keys.

use vstd::prelude::*;

verus! {

/// `a` comes strictly before `b` in code-point lexicographic order (the order
/// of `String`'s `Ord`).
pub open spec fn text_lt(a: Seq<char>, b: Seq<char>) -> bool
    decreases a.len(),
{
    if a.len() == 0 {
        b.len() > 0
    } else if b.len() == 0 {
        false
    } else if a[0] != b[0] {
        a[0] < b[0]
    } else {
        text_lt(a.drop_first(), b.drop_first())
    }
}

/// No text comes before itself.
pub proof fn lemma_text_lt_irreflexive(a: Seq<char>)
    ensures
        !text_lt(a, a),
    decreases a.len(),
{
    if a.len() > 0 {
        lemma_text_lt_irreflexive(a.drop_first());
    }
}

/// Of two different texts, one comes before the other.
pub proof fn lemma_text_lt_total(a: Seq<char>, b: Seq<char>)
    ensures
        a == b || text_lt(a, b) || text_lt(b, a),
    decreases a.len(),
{
    if a.len() > 0 && b.len() > 0 && a[0] == b[0] {
        lemma_text_lt_total(a.drop_first(), b.drop_first());
        if a.drop_first() == b.drop_first() {
            assert(a =~= seq![a[0]] + a.drop_first());
            assert(b =~= seq![b[0]] + b.drop_first());
        }
    } else if a.len() == 0 && b.len() == 0 {
        assert(a =~= b);
    } else if a.len() > 0 && b.len() > 0 {
    }
}

/// The order is transitive.
pub proof fn lemma_text_lt_transitive(a: Seq<char>, b: Seq<char>, c: Seq<char>)
    requires
        text_lt(a, b),
        text_lt(b, c),
    ensures
        text_lt(a, c),
    decreases a.len(),
{
    if a.len() > 0 && b.len() > 0 && c.len() > 0 && a[0] == b[0] && b[0] == c[0] {
        lemma_text_lt_transitive(a.drop_first(), b.drop_first(), c.drop_first());
    }
}

/// One text comes strictly before the other.
pub fn text_less(a: &Vec<char>, b: &Vec<char>) -> (r: bool)
    ensures
        r == text_lt(a@, b@),
{
    let mut i: usize = 0;
    assert(a@.subrange(0, a.len() as int) == a@);
    assert(b@.subrange(0, b.len() as int) == b@);
    while i < a.len() && i < b.len() && a[i] == b[i]
        invariant
            i <= a.len(),
            i <= b.len(),
            forall|j: int| 0 <= j < i ==> a@[j] == b@[j],
            text_lt(a@, b@) == text_lt(a@.subrange(i as int, a.len() as int), b@.subrange(
                i as int,
                b.len() as int,
            )),
        decreases a.len() - i,
    {
        let ghost sa = a@.subrange(i as int, a.len() as int);
        let ghost sb = b@.subrange(i as int, b.len() as int);
        assert(sa.drop_first() == a@.subrange(i + 1, a.len() as int));
        assert(sb.drop_first() == b@.subrange(i + 1, b.len() as int));
        i += 1;
    }
    let ghost sa = a@.subrange(i as int, a.len() as int);
    let ghost sb = b@.subrange(i as int, b.len() as int);
    if i == a.len() {
        i < b.len()
    } else if i == b.len() {
        false
    } else {
        assert(sa[0] == a@[i as int] && sb[0] == b@[i as int]);
        a[i] < b[i]
    }
}

/// Element `x` comes before element `y` when sorting stably by `keys`: its key
/// is smaller, or the keys are equal and it came first.
pub open spec fn sorts_before(keys: Seq<Seq<char>>, x: int, y: int) -> bool {
    text_lt(keys[x], keys[y]) || (keys[x] == keys[y] && x < y)
}

/// `p` lists the indices of `keys` in the order a stable sort by key puts them.
pub open spec fn is_stable_sort(keys: Seq<Seq<char>>, p: Seq<usize>) -> bool {
    &&& p.len() == keys.len()
    &&& forall|i: int| 0 <= i < p.len() ==> 0 <= #[trigger] p[i] < keys.len()
    &&& forall|i: int, j: int| 0 <= i < j < p.len() ==> p[i] != p[j]
    &&& forall|i: int, j: int| 0 <= i < j < p.len() ==> sorts_before(keys, p[i] as int, p[j] as int)
}

/// The indices of `keys` in the order of a stable sort by key.
pub fn stable_sort_indices(keys: &Vec<Vec<char>>) -> (p: Vec<usize>)
    ensures
        is_stable_sort(keys@.map_values(|k: Vec<char>| k@), p@),
{
    let ghost ks = keys@.map_values(|k: Vec<char>| k@);
    let mut p: Vec<usize> = Vec::new();
    let mut i: usize = 0;
    while i < keys.len()
        invariant
            i <= keys.len(),
            ks == keys@.map_values(|k: Vec<char>| k@),
            p@.len() == i,
            forall|a: int| 0 <= a < p@.len() ==> 0 <= #[trigger] p@[a] < i,
            forall|a: int, b: int| 0 <= a < b < p@.len() ==> p@[a] != p@[b],
            forall|a: int, b: int|
                0 <= a < b < p@.len() ==> sorts_before(ks, p@[a] as int, p@[b] as int),
        decreases keys.len() - i,
    {
        let mut pos: usize = 0;
        while pos < p.len() && !text_less(&keys[i], &keys[p[pos]])
            invariant
                pos <= p@.len(),
                i < keys.len(),
                forall|a: int| 0 <= a < p@.len() ==> 0 <= #[trigger] p@[a] < i,
                forall|a: int| 0 <= a < pos ==> !text_lt(ks[i as int], ks[#[trigger] p@[a] as int]),
                ks == keys@.map_values(|k: Vec<char>| k@),
            decreases p@.len() - pos,
        {
            pos += 1;
        }
        let ghost old_p = p@;
        proof {
            assert forall|a: int| 0 <= a < pos implies sorts_before(ks, old_p[a] as int, i as int) by {
                lemma_text_lt_total(ks[i as int], ks[old_p[a] as int]);
            }
            assert forall|b: int| pos <= b < old_p.len() implies sorts_before(ks, i as int, old_p[b] as int) by {
                assert(text_lt(ks[i as int], ks[old_p[pos as int] as int]));
                if b > pos {
                    assert(sorts_before(ks, old_p[pos as int] as int, old_p[b] as int));
                    if text_lt(ks[old_p[pos as int] as int], ks[old_p[b] as int]) {
                        lemma_text_lt_transitive(ks[i as int], ks[old_p[pos as int] as int], ks[old_p[b] as int]);
                    }
                }
            }
        }
        p.insert(pos, i);
        proof {
            assert(p@ == old_p.insert(pos as int, i));
            assert forall|a: int, b: int| 0 <= a < b < p@.len() implies sorts_before(
                ks,
                p@[a] as int,
                p@[b] as int,
            ) by {
                if b < pos {
                    assert(p@[a] == old_p[a] && p@[b] == old_p[b]);
                } else if b == pos {
                    assert(p@[a] == old_p[a]);
                } else if a < pos {
                    assert(p@[a] == old_p[a] && p@[b] == old_p[b - 1]);
                } else if a == pos {
                    assert(p@[b] == old_p[b - 1]);
                } else {
                    assert(p@[a] == old_p[a - 1] && p@[b] == old_p[b - 1]);
                }
            }
            assert forall|a: int, b: int| 0 <= a < b < p@.len() implies p@[a] != p@[b] by {
                if b < pos {
                    assert(p@[a] == old_p[a] && p@[b] == old_p[b]);
                } else if b == pos {
                    assert(p@[a] == old_p[a]);
                } else if a < pos {
                    assert(p@[a] == old_p[a] && p@[b] == old_p[b - 1]);
                } else if a == pos {
                    assert(p@[b] == old_p[b - 1]);
                } else {
                    assert(p@[a] == old_p[a - 1] && p@[b] == old_p[b - 1]);
                }
            }
            assert forall|a: int| 0 <= a < p@.len() implies 0 <= #[trigger] p@[a] < i + 1 by {
                if a < pos {
                    assert(p@[a] == old_p[a]);
                } else if a > pos {
                    assert(p@[a] == old_p[a - 1]);
                }
            }
        }
        i += 1;
    }
    p
}

} // verus!
