//! Ordering of lists: a stable sort of positions by a strict total order, and
//! the lexicographic order of strings that several listings sort by.

use vstd::prelude::*;

verus! {

/// `ahead` orders the positions `0..n` strictly and totally.
pub open spec fn strict_total(ahead: spec_fn(int, int) -> bool, n: int) -> bool {
    &&& forall|i: int| 0 <= i < n ==> !#[trigger] ahead(i, i)
    &&& forall|i: int, j: int, k: int|
        0 <= i < n && 0 <= j < n && 0 <= k < n && #[trigger] ahead(i, j) && #[trigger] ahead(j, k)
            ==> ahead(i, k)
    &&& forall|i: int, j: int|
        0 <= i < n && 0 <= j < n && i != j ==> #[trigger] ahead(i, j) || #[trigger] ahead(j, i)
}

/// `p` lists each of the positions `0..n` once.
pub open spec fn is_arrangement(p: Seq<usize>, n: int) -> bool {
    &&& p.len() == n
    &&& p.no_duplicates()
    &&& forall|k: int| 0 <= k < p.len() ==> #[trigger] p[k] < n
}

/// `p` lists its positions in the order `ahead`.
pub open spec fn arranged_by(p: Seq<usize>, ahead: spec_fn(int, int) -> bool) -> bool {
    forall|a: int, b: int| 0 <= a < b < p.len() ==> ahead(#[trigger] p[a] as int, #[trigger] p[b] as int)
}

/// The positions `0..n`, arranged by `ahead`, whose exec form is `ahead_exec`.
pub fn arrange<F: Fn(usize, usize) -> bool>(
    n: usize,
    ahead_exec: F,
    Ghost(ahead): Ghost<spec_fn(int, int) -> bool>,
) -> (r: Vec<usize>)
    requires
        strict_total(ahead, n as int),
        forall|i: usize, j: usize| i < n && j < n ==> #[trigger] ahead_exec.requires((i, j)),
        forall|i: usize, j: usize, b: bool|
            #[trigger] ahead_exec.ensures((i, j), b) ==> b == ahead(i as int, j as int),
    ensures
        is_arrangement(r@, n as int),
        arranged_by(r@, ahead),
{
    let mut p: Vec<usize> = Vec::new();
    let mut i: usize = 0;
    while i < n
        invariant
            i <= n,
            strict_total(ahead, n as int),
            forall|x: usize, y: usize| x < n && y < n ==> #[trigger] ahead_exec.requires((x, y)),
            forall|x: usize, y: usize, b: bool|
                #[trigger] ahead_exec.ensures((x, y), b) ==> b == ahead(x as int, y as int),
            p.len() == i,
            p@.no_duplicates(),
            forall|k: int| 0 <= k < p.len() ==> #[trigger] p@[k] < i,
            arranged_by(p@, ahead),
        decreases n - i,
    {
        let mut pos: usize = 0;
        while pos < p.len() && !ahead_exec(i, p[pos])
            invariant
                pos <= p.len(),
                p.len() == i,
                i < n,
                forall|k: int| 0 <= k < p.len() ==> #[trigger] p@[k] < i,
                forall|x: usize, y: usize| x < n && y < n ==> #[trigger] ahead_exec.requires((x, y)),
                forall|x: usize, y: usize, b: bool|
                    #[trigger] ahead_exec.ensures((x, y), b) ==> b == ahead(x as int, y as int),
                forall|a: int| 0 <= a < pos ==> !ahead(i as int, #[trigger] p@[a] as int),
            decreases p.len() - pos,
        {
            pos = pos + 1;
        }
        let ghost old_p = p@;
        proof {
            assert forall|a: int| 0 <= a < pos implies ahead(#[trigger] old_p[a] as int, i as int) by {
                assert(old_p[a] < i);
                assert(!ahead(i as int, old_p[a] as int));
                assert(ahead(i as int, old_p[a] as int) || ahead(old_p[a] as int, i as int));
            }
            if pos < old_p.len() {
                assert(ahead(i as int, old_p[pos as int] as int));
                assert forall|b: int| pos <= b < old_p.len() implies ahead(i as int, #[trigger] old_p[b] as int) by {
                    if b > pos {
                        assert(ahead(old_p[pos as int] as int, old_p[b] as int));
                        assert(ahead(i as int, old_p[pos as int] as int) && ahead(
                            old_p[pos as int] as int,
                            old_p[b] as int,
                        ));
                    }
                }
            }
        }
        p.insert(pos, i);
        proof {
            assert(p@ == old_p.insert(pos as int, i));
            assert forall|a: int, b: int| 0 <= a < b < p@.len() implies ahead(
                #[trigger] p@[a] as int,
                #[trigger] p@[b] as int,
            ) by {
                if b < pos {
                    assert(p@[a] == old_p[a] && p@[b] == old_p[b]);
                } else if b == pos {
                    assert(p@[a] == old_p[a]);
                } else if a < pos {
                    assert(p@[a] == old_p[a] && p@[b] == old_p[b - 1]);
                    assert(ahead(old_p[a] as int, i as int));
                    assert(ahead(i as int, old_p[b - 1] as int));
                    assert(ahead(old_p[a] as int, i as int) && ahead(i as int, old_p[b - 1] as int));
                } else if a == pos {
                    assert(p@[b] == old_p[b - 1]);
                } else {
                    assert(p@[a] == old_p[a - 1] && p@[b] == old_p[b - 1]);
                }
            }
            assert forall|a: int, b: int| 0 <= a < b < p@.len() implies p@[a] != p@[b] by {
                if b < pos {
                    assert(p@[a] == old_p[a] && p@[b] == old_p[b]);
                } else if b == pos {
                    assert(p@[a] == old_p[a]);
                } else if a < pos {
                    assert(p@[a] == old_p[a] && p@[b] == old_p[b - 1]);
                } else if a == pos {
                    assert(p@[b] == old_p[b - 1]);
                } else {
                    assert(p@[a] == old_p[a - 1] && p@[b] == old_p[b - 1]);
                }
            }
            assert forall|k: int| 0 <= k < p@.len() implies #[trigger] p@[k] < i + 1 by {
                if k < pos {
                    assert(p@[k] == old_p[k]);
                } else if k > pos {
                    assert(p@[k] == old_p[k - 1]);
                }
            }
        }
        i = i + 1;
    }
    p
}

/// Strings in lexicographic order of their characters (the order of `str`).
pub open spec fn text_less(a: Seq<char>, b: Seq<char>) -> bool
    decreases a.len(),
{
    if a.len() == 0 {
        b.len() > 0
    } else if b.len() == 0 {
        false
    } else if a[0] != b[0] {
        (a[0] as int) < (b[0] as int)
    } else {
        text_less(a.drop_first(), b.drop_first())
    }
}

pub proof fn lemma_text_less_irreflexive(a: Seq<char>)
    ensures
        !text_less(a, a),
    decreases a.len(),
{
    if a.len() > 0 {
        lemma_text_less_irreflexive(a.drop_first());
    }
}

pub proof fn lemma_text_less_transitive(a: Seq<char>, b: Seq<char>, c: Seq<char>)
    requires
        text_less(a, b),
        text_less(b, c),
    ensures
        text_less(a, c),
    decreases a.len(),
{
    if a.len() > 0 && b.len() > 0 && c.len() > 0 {
        if a[0] == b[0] && b[0] == c[0] {
            lemma_text_less_transitive(a.drop_first(), b.drop_first(), c.drop_first());
        }
    }
}

pub proof fn lemma_text_less_total(a: Seq<char>, b: Seq<char>)
    ensures
        a == b || text_less(a, b) || text_less(b, a),
    decreases a.len(),
{
    if a.len() > 0 && b.len() > 0 {
        if a[0] == b[0] {
            lemma_text_less_total(a.drop_first(), b.drop_first());
            if a.drop_first() == b.drop_first() {
                assert(a == seq![a[0]] + a.drop_first());
                assert(b == seq![b[0]] + b.drop_first());
            }
        } else {
            assert((a[0] as int) != (b[0] as int));
        }
    } else if a.len() == 0 && b.len() == 0 {
        assert(a == b);
    }
}

/// Whether `a` comes before `b` lexicographically.
pub fn text_is_less(a: &str, b: &str) -> (r: bool)
    ensures
        r == text_less(a@, b@),
{
    let n = a.unicode_len();
    let m = b.unicode_len();
    let mut i: usize = 0;
    proof {
        assert(a@.skip(0) == a@);
        assert(b@.skip(0) == b@);
    }
    while i < n && i < m
        invariant
            n == a@.len(),
            m == b@.len(),
            i <= n,
            i <= m,
            a@.subrange(0, i as int) == b@.subrange(0, i as int),
            text_less(a@, b@) == text_less(a@.skip(i as int), b@.skip(i as int)),
        decreases n - i,
    {
        let x = a.get_char(i);
        let y = b.get_char(i);
        proof {
            assert(a@.skip(i as int)[0] == x);
            assert(b@.skip(i as int)[0] == y);
            assert(a@.skip(i as int).drop_first() == a@.skip(i + 1));
            assert(b@.skip(i as int).drop_first() == b@.skip(i + 1));
        }
        if x != y {
            return (x as u32) < (y as u32);
        }
        proof {
            assert(a@.subrange(0, i + 1) == a@.subrange(0, i as int).push(x));
            assert(b@.subrange(0, i + 1) == b@.subrange(0, i as int).push(y));
        }
        i = i + 1;
    }
    proof {
        assert(a@.skip(i as int).len() == n - i);
        assert(b@.skip(i as int).len() == m - i);
    }
    i == n && i < m
}

} // verus!
