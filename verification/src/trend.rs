//! Score trend of an event: for every entrant that solved something, one mark
//! per moment at which anybody solved something, naming what the entrant
//! solved then and which of its solves count at that moment. The running
//! score is the sum of the bonus points of the solves counted so far.

use vstd::prelude::*;
use crate::scoreboard::{Moment, NamedItem, earlier, is_earlier, find_name, lookup_name};

verus! {

/// A solve with the moment it was accepted; a list of them is ordered by time.
#[derive(Clone, Copy, Debug)]
pub struct TrendSolve {
    pub owner: u128,
    pub challenge: u128,
    pub time: Moment,
}

/// One moment of an entrant's trend.
#[derive(Clone, Debug)]
pub struct TrendMark {
    pub time: Moment,
    /// The name of the first challenge the entrant solved at this moment, or
    /// the empty string.
    pub name: String,
    /// The indices (into the list of solves) of the entrant's solves at this
    /// moment, in order.
    pub solves: Vec<usize>,
}

/// The trend of one entrant.
#[derive(Clone, Debug)]
pub struct TrendLine {
    pub owner: u128,
    pub name: String,
    pub marks: Vec<TrendMark>,
}

/// The entrants that solved something, in the order of their first solve.
pub open spec fn owners_upto(s: Seq<TrendSolve>, n: int) -> Seq<u128>
    decreases n,
{
    if n <= 0 {
        Seq::empty()
    } else {
        let p = owners_upto(s, n - 1);
        if p.contains(s[n - 1].owner) {
            p
        } else {
            p.push(s[n - 1].owner)
        }
    }
}

pub open spec fn trend_owners(s: Seq<TrendSolve>) -> Seq<u128> {
    owners_upto(s, s.len() as int)
}

/// `t` lists, from the earliest, every moment at which one of the first `n`
/// solves was accepted, each once.
pub open spec fn moments_of(t: Seq<Moment>, s: Seq<TrendSolve>, n: int) -> bool {
    &&& forall|a: int, b: int| 0 <= a < b < t.len() ==> earlier(#[trigger] t[a], #[trigger] t[b])
    &&& forall|x: Moment|
        t.contains(x) <==> exists|j: int| 0 <= j < n && #[trigger] s[j].time == x
}

/// The indices, among the first `n` solves, of those by `owner` at moment `x`.
pub open spec fn solves_at(s: Seq<TrendSolve>, owner: u128, x: Moment, n: int) -> Seq<usize>
    decreases n,
{
    if n <= 0 {
        Seq::empty()
    } else {
        let p = solves_at(s, owner, x, n - 1);
        if s[n - 1].owner == owner && s[n - 1].time == x {
            p.push((n - 1) as usize)
        } else {
            p
        }
    }
}

/// The name a mark shows: that of the challenge of the entrant's first solve
/// at the moment, from the catalogue, or the empty string.
pub open spec fn mark_name(s: Seq<TrendSolve>, idx: Seq<usize>, cat: Seq<NamedItem>) -> Seq<char> {
    if idx.len() == 0 {
        Seq::empty()
    } else {
        match find_name(cat, s[idx[0] as int].challenge) {
            Some(n) => n,
            None => Seq::empty(),
        }
    }
}

/// What the line of `owner` holds over the moments `t`.
pub open spec fn line_ok(
    line: TrendLine,
    owner: u128,
    t: Seq<Moment>,
    s: Seq<TrendSolve>,
    cat: Seq<NamedItem>,
    owner_names: Seq<NamedItem>,
) -> bool {
    &&& line.owner == owner
    &&& find_name(owner_names, owner) == Some(line.name@)
    &&& line.marks.len() == t.len()
    &&& forall|q: int|
        0 <= q < t.len() ==> {
            let m = #[trigger] line.marks@[q];
            &&& m.time == t[q]
            &&& m.solves@ == solves_at(s, owner, t[q], s.len() as int)
            &&& m.name@ == mark_name(s, m.solves@, cat)
        }
}

proof fn lemma_owners_upto(s: Seq<TrendSolve>, n: int)
    requires
        0 <= n <= s.len(),
    ensures
        forall|x: u128|
            owners_upto(s, n).contains(x) <==> exists|j: int| 0 <= j < n && #[trigger] s[j].owner == x,
        owners_upto(s, n).no_duplicates(),
        owners_upto(s, n).len() <= n,
    decreases n,
{
    if n > 0 {
        lemma_owners_upto(s, n - 1);
        let p = owners_upto(s, n - 1);
        assert forall|x: u128|
            owners_upto(s, n).contains(x) implies exists|j: int| 0 <= j < n && #[trigger] s[j].owner == x by {
            if p.contains(x) {
            } else {
                assert(s[n - 1].owner == x);
            }
        }
        assert forall|x: u128|
            (exists|j: int| 0 <= j < n && #[trigger] s[j].owner == x) implies owners_upto(s, n).contains(x) by {
            let j = choose|j: int| 0 <= j < n && #[trigger] s[j].owner == x;
            if j < n - 1 {
                assert(p.contains(x));
                if !p.contains(s[n - 1].owner) {
                    assert(p.push(s[n - 1].owner)[p.index_of(x)] == x);
                }
            } else {
                if !p.contains(s[n - 1].owner) {
                    assert(p.push(s[n - 1].owner)[p.len() as int] == x);
                }
            }
        }
    }
}

/// The entrants that solved something, in the order of their first solve.
pub fn owners_in_order(s: &Vec<TrendSolve>) -> (r: Vec<u128>)
    ensures
        r@ == trend_owners(s@),
{
    let mut out: Vec<u128> = Vec::new();
    let mut i: usize = 0;
    while i < s.len()
        invariant
            i <= s.len(),
            out@ == owners_upto(s@, i as int),
        decreases s.len() - i,
    {
        let o = s[i].owner;
        let mut found = false;
        let mut k: usize = 0;
        while k < out.len()
            invariant
                k <= out.len(),
                found == exists|t: int| 0 <= t < k && out@[t] == o,
            decreases out.len() - k,
        {
            if out[k] == o {
                found = true;
            }
            k = k + 1;
        }
        proof {
            if found {
                let t = choose|t: int| 0 <= t < out.len() && out@[t] == o;
                assert(out@.contains(o));
            } else {
                assert(!out@.contains(o));
            }
        }
        if !found {
            out.push(o);
        }
        i = i + 1;
    }
    out
}

/// Every moment at which a solve was accepted, from the earliest, each once.
pub fn solve_moments(s: &Vec<TrendSolve>) -> (r: Vec<Moment>)
    ensures
        moments_of(r@, s@, s.len() as int),
{
    let mut t: Vec<Moment> = Vec::new();
    let mut i: usize = 0;
    while i < s.len()
        invariant
            i <= s.len(),
            moments_of(t@, s@, i as int),
        decreases s.len() - i,
    {
        let x = s[i].time;
        let mut p: usize = 0;
        while p < t.len() && is_earlier(t[p], x)
            invariant
                p <= t.len(),
                forall|a: int| 0 <= a < p ==> earlier(#[trigger] t@[a], x),
            decreases t.len() - p,
        {
            p = p + 1;
        }
        let ghost old_t = t@;
        if p < t.len() && t[p] == x {
            proof {
                assert(t@[p as int] == x);
                assert forall|y: Moment|
                    t@.contains(y) <==> exists|j: int| 0 <= j < i + 1 && #[trigger] s@[j].time == y by {
                    if t@.contains(y) {
                        let a = choose|a: int| 0 <= a < t@.len() && t@[a] == y;
                        assert(exists|j: int| 0 <= j < i && #[trigger] s@[j].time == y);
                    }
                    if exists|j: int| 0 <= j < i + 1 && #[trigger] s@[j].time == y {
                        let j = choose|j: int| 0 <= j < i + 1 && #[trigger] s@[j].time == y;
                        if j < i {
                            assert(exists|j2: int| 0 <= j2 < i && #[trigger] s@[j2].time == y);
                        } else {
                            assert(t@[p as int] == y);
                        }
                    }
                }
            }
        } else {
            t.insert(p, x);
            proof {
                assert(t@ == old_t.insert(p as int, x));
                assert forall|a: int, b: int| 0 <= a < b < t@.len() implies earlier(#[trigger] t@[a], #[trigger] t@[b]) by {
                    if b < p {
                        assert(t@[a] == old_t[a] && t@[b] == old_t[b]);
                    } else if b == p {
                        assert(t@[a] == old_t[a]);
                    } else if a < p {
                        assert(t@[a] == old_t[a] && t@[b] == old_t[b - 1]);
                        assert(earlier(old_t[a], x));
                        if b - 1 > p {
                            assert(earlier(old_t[p as int], old_t[b - 1]));
                        }
                    } else if a == p {
                        assert(t@[b] == old_t[b - 1]);
                        if b - 1 > p {
                            assert(earlier(old_t[p as int], old_t[b - 1]));
                        }
                    } else {
                        assert(t@[a] == old_t[a - 1] && t@[b] == old_t[b - 1]);
                    }
                }
                assert forall|y: Moment|
                    t@.contains(y) <==> exists|j: int| 0 <= j < i + 1 && #[trigger] s@[j].time == y by {
                    if t@.contains(y) {
                        let a = choose|a: int| 0 <= a < t@.len() && t@[a] == y;
                        if a < p {
                            assert(old_t[a] == y);
                            assert(old_t.contains(y));
                        } else if a > p {
                            assert(old_t[a - 1] == y);
                            assert(old_t.contains(y));
                        } else {
                            assert(s@[i as int].time == y);
                        }
                    }
                    if exists|j: int| 0 <= j < i + 1 && #[trigger] s@[j].time == y {
                        let j = choose|j: int| 0 <= j < i + 1 && #[trigger] s@[j].time == y;
                        if j < i {
                            assert(exists|j2: int| 0 <= j2 < i && #[trigger] s@[j2].time == y);
                            assert(old_t.contains(y));
                            let a = choose|a: int| 0 <= a < old_t.len() && old_t[a] == y;
                            if a < p {
                                assert(t@[a] == y);
                            } else {
                                assert(t@[a + 1] == y);
                            }
                        } else {
                            assert(t@[p as int] == y);
                        }
                    }
                }
            }
        }
        i = i + 1;
    }
    t
}

/// The indices of the solves by `owner` at moment `x`, in order.
fn solves_at_exec(s: &Vec<TrendSolve>, owner: u128, x: Moment) -> (r: Vec<usize>)
    ensures
        r@ == solves_at(s@, owner, x, s.len() as int),
{
    let mut out: Vec<usize> = Vec::new();
    let mut i: usize = 0;
    while i < s.len()
        invariant
            i <= s.len(),
            out@ == solves_at(s@, owner, x, i as int),
        decreases s.len() - i,
    {
        if s[i].owner == owner && s[i].time == x {
            out.push(i);
        }
        i = i + 1;
    }
    out
}

proof fn lemma_solves_at_bounds(s: Seq<TrendSolve>, owner: u128, x: Moment, n: int)
    requires
        0 <= n <= s.len(),
        s.len() <= usize::MAX,
    ensures
        forall|k: int| 0 <= k < solves_at(s, owner, x, n).len() ==> solves_at(s, owner, x, n)[k] < n,
    decreases n,
{
    if n > 0 {
        lemma_solves_at_bounds(s, owner, x, n - 1);
        let p = solves_at(s, owner, x, n - 1);
        if s[n - 1].owner == owner && s[n - 1].time == x {
            assert(((n - 1) as usize) as int == n - 1);
            let q = p.push((n - 1) as usize);
            assert forall|k: int| 0 <= k < q.len() implies #[trigger] q[k] < n by {
                if k < p.len() {
                    assert(q[k] == p[k]);
                }
            }
        }
    }
}

/// The line of one entrant over the moments `t`.
fn build_line(
    owner: u128,
    t: &Vec<Moment>,
    s: &Vec<TrendSolve>,
    cat: &Vec<NamedItem>,
    owner_names: &Vec<NamedItem>,
) -> (r: TrendLine)
    requires
        find_name(owner_names@, owner).is_some(),
    ensures
        line_ok(r, owner, t@, s@, cat@, owner_names@),
{
    let name = match lookup_name(owner_names, owner) {
        Some(n) => n,
        None => String::new(),
    };
    let mut marks: Vec<TrendMark> = Vec::new();
    let mut q: usize = 0;
    while q < t.len()
        invariant
            q <= t.len(),
            marks.len() == q,
            forall|k: int|
                0 <= k < q ==> {
                    let m = #[trigger] marks@[k];
                    &&& m.time == t@[k]
                    &&& m.solves@ == solves_at(s@, owner, t@[k], s.len() as int)
                    &&& m.name@ == mark_name(s@, m.solves@, cat@)
                },
        decreases t.len() - q,
    {
        let x = t[q];
        let idx = solves_at_exec(s, owner, x);
        proof {
            lemma_solves_at_bounds(s@, owner, x, s.len() as int);
        }
        let mark_title = if idx.len() == 0 {
            String::new()
        } else {
            match lookup_name(cat, s[idx[0]].challenge) {
                Some(n) => n,
                None => String::new(),
            }
        };
        marks.push(TrendMark { time: x, name: mark_title, solves: idx });
        q = q + 1;
    }
    TrendLine { owner, name, marks }
}

/// The trend of an event from its solves (ordered by time): one line per
/// entrant that solved something, in the order of their first solve, named
/// from `owner_names`; each line has a mark per moment at which anybody
/// solved something. Every entrant with a solve must be in `owner_names`.
pub fn event_trend(
    solves: &Vec<TrendSolve>,
    challenges: &Vec<NamedItem>,
    owner_names: &Vec<NamedItem>,
) -> (r: Vec<TrendLine>)
    requires
        forall|j: int|
            0 <= j < solves.len() ==> #[trigger] find_name(owner_names@, solves@[j].owner).is_some(),
    ensures
        r.len() == trend_owners(solves@).len(),
        exists|t: Seq<Moment>|
            {
                &&& moments_of(t, solves@, solves.len() as int)
                &&& forall|k: int|
                    0 <= k < r.len() ==> line_ok(
                        #[trigger] r@[k],
                        trend_owners(solves@)[k],
                        t,
                        solves@,
                        challenges@,
                        owner_names@,
                    )
            },
{
    let owners = owners_in_order(solves);
    let t = solve_moments(solves);
    proof {
        lemma_owners_upto(solves@, solves.len() as int);
    }
    let mut lines: Vec<TrendLine> = Vec::new();
    let mut k: usize = 0;
    while k < owners.len()
        invariant
            k <= owners.len(),
            owners@ == trend_owners(solves@),
            lines.len() == k,
            forall|x: u128|
                owners@.contains(x) <==> exists|j: int| 0 <= j < solves.len() && #[trigger] solves@[j].owner == x,
            forall|j: int|
                0 <= j < solves.len() ==> #[trigger] find_name(owner_names@, solves@[j].owner).is_some(),
            forall|i: int|
                0 <= i < k ==> line_ok(
                    #[trigger] lines@[i],
                    owners@[i],
                    t@,
                    solves@,
                    challenges@,
                    owner_names@,
                ),
        decreases owners.len() - k,
    {
        let o = owners[k];
        proof {
            assert(owners@.contains(o));
            let j = choose|j: int| 0 <= j < solves.len() && #[trigger] solves@[j].owner == o;
            assert(find_name(owner_names@, solves@[j].owner).is_some());
        }
        let line = build_line(o, &t, solves, challenges, owner_names);
        lines.push(line);
        k = k + 1;
    }
    lines
}

proof fn lemma_solves_at_members(s: Seq<TrendSolve>, owner: u128, x: Moment, n: int, j: int)
    requires
        0 <= n <= s.len(),
        s.len() <= usize::MAX,
        0 <= j < s.len(),
    ensures
        solves_at(s, owner, x, n).contains(j as usize) <==> (j < n && s[j].owner == owner
            && s[j].time == x),
    decreases n,
{
    if n > 0 {
        lemma_solves_at_members(s, owner, x, n - 1, j);
        lemma_solves_at_bounds(s, owner, x, n - 1);
        let p = solves_at(s, owner, x, n - 1);
        if s[n - 1].owner == owner && s[n - 1].time == x {
            let q = p.push((n - 1) as usize);
            if q.contains(j as usize) {
                let k = choose|k: int| 0 <= k < q.len() && q[k] == j as usize;
                if k < p.len() {
                    assert(p[k] == j as usize);
                    assert(p.contains(j as usize));
                }
            }
            if p.contains(j as usize) {
                let k = choose|k: int| 0 <= k < p.len() && p[k] == j as usize;
                assert(q[k] == j as usize);
            }
            if j == n - 1 {
                assert(q[p.len() as int] == j as usize);
            }
        } else {
            if p.contains(j as usize) {
                let k = choose|k: int| 0 <= k < p.len() && p[k] == j as usize;
                assert(p[k] < n - 1);
            }
        }
    }
}

/// Each solve of an entrant counts at exactly one of the moments of the
/// trend, the moment it was accepted, so the running score of a line ends at
/// the sum of the entrant's bonus points.
pub proof fn lemma_solve_counted_once(s: Seq<TrendSolve>, t: Seq<Moment>, j: int)
    requires
        s.len() <= usize::MAX,
        moments_of(t, s, s.len() as int),
        0 <= j < s.len(),
    ensures
        exists|q: int|
            0 <= q < t.len() && t[q] == s[j].time && solves_at(s, s[j].owner, t[q], s.len() as int).contains(
                j as usize,
            ),
        forall|q: int|
            0 <= q < t.len() && #[trigger] solves_at(s, s[j].owner, t[q], s.len() as int).contains(
                j as usize,
            ) ==> t[q] == s[j].time,
{
    assert(t.contains(s[j].time));
    let q = choose|q: int| 0 <= q < t.len() && t[q] == s[j].time;
    lemma_solves_at_members(s, s[j].owner, t[q], s.len() as int, j);
    assert forall|q2: int|
        0 <= q2 < t.len() && #[trigger] solves_at(s, s[j].owner, t[q2], s.len() as int).contains(
            j as usize,
        ) implies t[q2] == s[j].time by {
        lemma_solves_at_members(s, s[j].owner, t[q2], s.len() as int, j);
    }
}

} // verus!
