//! Ranking of the users by their solves of practice challenges: the fifteen
//! users with the most solves, the latest last solve first among equals.

use vstd::prelude::*;
use crate::scoreboard::{Moment, Entrant, earlier, find_user};
use crate::order::{strict_total, is_arrangement, arranged_by, arrange};

verus! {

/// A solve of a practice challenge by a user.
#[derive(Clone, Copy, Debug)]
pub struct PracticeSolve {
    pub user: u128,
    pub time: Moment,
}

/// A line of the ranking.
#[derive(Clone, Debug)]
pub struct TopUser {
    pub no: usize,
    pub nickname: String,
    pub avatar: Option<String>,
    pub solved_count: u64,
    pub solved_last_at: Moment,
}

/// How many places the ranking shows.
pub const TOP_USERS: usize = 15;

/// The users of the first `n` solves, each once, in the order of their first solve.
pub open spec fn users_upto(s: Seq<PracticeSolve>, n: int) -> Seq<u128>
    decreases n,
{
    if n <= 0 {
        Seq::empty()
    } else {
        let p = users_upto(s, n - 1);
        if p.contains(s[n - 1].user) {
            p
        } else {
            p.push(s[n - 1].user)
        }
    }
}

/// How many of the first `n` solves are by `u`.
pub open spec fn count_of(s: Seq<PracticeSolve>, u: u128, n: int) -> nat
    decreases n,
{
    if n <= 0 {
        0
    } else {
        count_of(s, u, n - 1) + if s[n - 1].user == u {
            1nat
        } else {
            0nat
        }
    }
}

proof fn lemma_count_bound(s: Seq<PracticeSolve>, u: u128, n: int)
    requires
        0 <= n,
    ensures
        count_of(s, u, n) <= n,
    decreases n,
{
    if n > 0 {
        lemma_count_bound(s, u, n - 1);
    }
}

/// The latest moment among the first `n` solves by `u`.
pub open spec fn last_of(s: Seq<PracticeSolve>, u: u128, n: int) -> Moment
    decreases n,
{
    if n <= 0 {
        Moment { secs: 0, nanos: 0 }
    } else {
        let p = last_of(s, u, n - 1);
        if s[n - 1].user == u && (count_of(s, u, n - 1) == 0 || earlier(p, s[n - 1].time)) {
            s[n - 1].time
        } else {
            p
        }
    }
}

/// The users among `ids` found in the user list, in order.
pub open spec fn found_upto(ids: Seq<u128>, users: Seq<Entrant>, n: int) -> Seq<u128>
    decreases n,
{
    if n <= 0 {
        Seq::empty()
    } else {
        let p = found_upto(ids, users, n - 1);
        if find_user(users, ids[n - 1]).is_some() {
            p.push(ids[n - 1])
        } else {
            p
        }
    }
}

/// The users that can be ranked: those with a solve that the user list knows,
/// in the order of their first solve.
pub open spec fn ranked_users(s: Seq<PracticeSolve>, users: Seq<Entrant>) -> Seq<u128> {
    let ids = users_upto(s, s.len() as int);
    found_upto(ids, users, ids.len() as int)
}

/// Whether the candidate at position `i` ranks ahead of the one at `j`: more
/// solves first, then the later last solve, then the earlier first solve.
pub open spec fn ranks_ahead(counts: Seq<u64>, lasts: Seq<Moment>, i: int, j: int) -> bool {
    counts[i] > counts[j] || (counts[i] == counts[j] && (earlier(lasts[j], lasts[i]) || (lasts[i]
        == lasts[j] && i < j)))
}

/// What the ranking holds: the first fifteen candidates (fewer when there are
/// fewer) arranged by `ranks_ahead`, numbered from 1.
pub open spec fn ranking_of(r: Seq<TopUser>, s: Seq<PracticeSolve>, users: Seq<Entrant>) -> bool {
    let c = ranked_users(s, users);
    let counts = Seq::new(c.len(), |i: int| count_of(s, c[i], s.len() as int) as u64);
    let lasts = Seq::new(c.len(), |i: int| last_of(s, c[i], s.len() as int));
    exists|p: Seq<usize>|
        {
            &&& is_arrangement(p, c.len() as int)
            &&& arranged_by(p, |i: int, j: int| ranks_ahead(counts, lasts, i, j))
            &&& r.len() == if c.len() < TOP_USERS {
                c.len() as int
            } else {
                TOP_USERS as int
            }
            &&& forall|k: int|
                0 <= k < r.len() ==> {
                    let u = c[#[trigger] p[k] as int];
                    let e = find_user(users, u).unwrap();
                    &&& r[k].no == k + 1
                    &&& r[k].nickname@ == e.name@
                    &&& r[k].avatar == e.avatar
                    &&& r[k].solved_count == count_of(s, u, s.len() as int)
                    &&& r[k].solved_last_at == last_of(s, u, s.len() as int)
                }
        }
}

fn distinct_users(s: &Vec<PracticeSolve>) -> (r: Vec<u128>)
    ensures
        r@ == users_upto(s@, s.len() as int),
{
    let mut out: Vec<u128> = Vec::new();
    let mut i: usize = 0;
    while i < s.len()
        invariant
            i <= s.len(),
            out@ == users_upto(s@, i as int),
        decreases s.len() - i,
    {
        let u = s[i].user;
        let mut found = false;
        let mut k: usize = 0;
        while k < out.len()
            invariant
                k <= out.len(),
                found == exists|t: int| 0 <= t < k && out@[t] == u,
            decreases out.len() - k,
        {
            if out[k] == u {
                found = true;
            }
            k = k + 1;
        }
        proof {
            if found {
                let t = choose|t: int| 0 <= t < out.len() && out@[t] == u;
                assert(out@.contains(u));
            } else {
                assert(!out@.contains(u));
            }
        }
        if !found {
            out.push(u);
        }
        i = i + 1;
    }
    out
}

/// The number of solves of `u` and the latest of them.
fn tally(s: &Vec<PracticeSolve>, u: u128) -> (r: (u64, Moment))
    ensures
        r.0 == count_of(s@, u, s.len() as int),
        r.1 == last_of(s@, u, s.len() as int),
{
    let mut count: u64 = 0;
    let mut last = Moment { secs: 0, nanos: 0 };
    let mut i: usize = 0;
    while i < s.len()
        invariant
            i <= s.len(),
            count == count_of(s@, u, i as int),
            count <= i,
            last == last_of(s@, u, i as int),
        decreases s.len() - i,
    {
        let e = s[i];
        if e.user == u {
            if count == 0 || (last.secs < e.time.secs || (last.secs == e.time.secs && last.nanos
                < e.time.nanos)) {
                last = e.time;
            }
            count = count + 1;
        }
        i = i + 1;
    }
    (count, last)
}

fn find_entrant(users: &Vec<Entrant>, id: u128) -> (r: Option<usize>)
    ensures
        match r {
            Some(k) => k < users.len() && find_user(users@, id) == Some(users@[k as int]),
            None => find_user(users@, id).is_none(),
        },
{
    let mut i: usize = users.len();
    proof {
        assert(users@.subrange(0, i as int) == users@);
    }
    while i > 0
        invariant
            i <= users.len(),
            find_user(users@, id) == find_user(users@.subrange(0, i as int), id),
        decreases i,
    {
        proof {
            assert(users@.subrange(0, i - 1) == users@.subrange(0, i as int).drop_last());
        }
        if users[i - 1].id == id {
            return Some(i - 1);
        }
        i = i - 1;
    }
    None
}

fn clone_avatar(a: &Option<String>) -> (r: Option<String>)
    ensures
        r == *a,
{
    match a {
        Some(s) => Some(s.clone()),
        None => None,
    }
}

/// The ranking of the users by their practice solves: at most fifteen lines,
/// the users with the most solves first, among equals the one whose last
/// solve is later, then the one that solved first; users missing from the
/// user list are left out.
pub fn top_users(solves: &Vec<PracticeSolve>, users: &Vec<Entrant>) -> (r: Vec<TopUser>)
    ensures
        ranking_of(r@, solves@, users@),
{
    let ids = distinct_users(solves);
    let mut cands: Vec<u128> = Vec::new();
    let mut at: Vec<usize> = Vec::new();
    let mut counts: Vec<u64> = Vec::new();
    let mut lasts: Vec<Moment> = Vec::new();
    let mut i: usize = 0;
    while i < ids.len()
        invariant
            i <= ids.len(),
            ids@ == users_upto(solves@, solves.len() as int),
            cands@ == found_upto(ids@, users@, i as int),
            at.len() == cands.len(),
            counts.len() == cands.len(),
            lasts.len() == cands.len(),
            forall|k: int|
                0 <= k < cands.len() ==> {
                    &&& #[trigger] at@[k] < users.len()
                    &&& find_user(users@, cands@[k]) == Some(users@[at@[k] as int])
                    &&& counts@[k] == count_of(solves@, cands@[k], solves.len() as int)
                    &&& lasts@[k] == last_of(solves@, cands@[k], solves.len() as int)
                },
        decreases ids.len() - i,
    {
        let u = ids[i];
        match find_entrant(users, u) {
            Some(k) => {
                let (c, l) = tally(solves, u);
                cands.push(u);
                at.push(k);
                counts.push(c);
                lasts.push(l);
            },
            None => {},
        }
        i = i + 1;
    }
    let n = cands.len();
    let ghost ahead = |a: int, b: int| ranks_ahead(counts@, lasts@, a, b);
    let before = |a: usize, b: usize| -> (x: bool)
        requires
            a < n && b < n,
        ensures
            x == ranks_ahead(counts@, lasts@, a as int, b as int),
        {
            let ca = counts[a];
            let cb = counts[b];
            let la = lasts[a];
            let lb = lasts[b];
            ca > cb || (ca == cb && ((lb.secs < la.secs || (lb.secs == la.secs && lb.nanos
                < la.nanos)) || (la == lb && a < b)))
        };
    proof {
        assert(strict_total(ahead, n as int));
    }
    let p = arrange(n, before, Ghost(ahead));
    let shown = if n < TOP_USERS {
        n
    } else {
        TOP_USERS
    };
    let mut out: Vec<TopUser> = Vec::new();
    let mut k: usize = 0;
    while k < shown
        invariant
            k <= shown,
            shown <= n,
            n == cands.len(),
            is_arrangement(p@, n as int),
            at.len() == n,
            counts.len() == n,
            lasts.len() == n,
            out.len() == k,
            forall|t: int|
                0 <= t < cands.len() ==> {
                    &&& #[trigger] at@[t] < users.len()
                    &&& find_user(users@, cands@[t]) == Some(users@[at@[t] as int])
                    &&& counts@[t] == count_of(solves@, cands@[t], solves.len() as int)
                    &&& lasts@[t] == last_of(solves@, cands@[t], solves.len() as int)
                },
            forall|t: int|
                0 <= t < k ==> {
                    let u = cands@[#[trigger] p@[t] as int];
                    let e = find_user(users@, u).unwrap();
                    &&& out@[t].no == t + 1
                    &&& out@[t].nickname@ == e.name@
                    &&& out@[t].avatar == e.avatar
                    &&& out@[t].solved_count == count_of(solves@, u, solves.len() as int)
                    &&& out@[t].solved_last_at == last_of(solves@, u, solves.len() as int)
                },
        decreases shown - k,
    {
        let c = p[k];
        let e = &users[at[c]];
        out.push(
            TopUser {
                no: k + 1,
                nickname: e.name.clone(),
                avatar: clone_avatar(&e.avatar),
                solved_count: counts[c],
                solved_last_at: lasts[c],
            },
        );
        k = k + 1;
    }
    proof {
        let c = ranked_users(solves@, users@);
        assert(c == cands@);
        let counts2 = Seq::new(c.len(), |i: int| count_of(solves@, c[i], solves.len() as int) as u64);
        let lasts2 = Seq::new(c.len(), |i: int| last_of(solves@, c[i], solves.len() as int));
        assert forall|i: int| 0 <= i < c.len() implies #[trigger] counts2[i] == counts@[i] by {
            assert(at@[i] < users.len());
            lemma_count_bound(solves@, c[i], solves.len() as int);
        }
        assert forall|i: int| 0 <= i < c.len() implies #[trigger] lasts2[i] == lasts@[i] by {
            assert(at@[i] < users.len());
        }
        assert(counts2 =~= counts@);
        assert(lasts2 =~= lasts@);
        assert(arranged_by(p@, |a: int, b: int| ranks_ahead(counts2, lasts2, a, b)));
    }
    out
}

/// Down the ranking, solve counts never grow, and among equal counts the
/// last solves never get later; places are numbered from 1.
pub proof fn lemma_ranking_descends(r: Seq<TopUser>, s: Seq<PracticeSolve>, users: Seq<Entrant>)
    requires
        ranking_of(r, s, users),
    ensures
        r.len() <= TOP_USERS,
        forall|k: int| 0 <= k < r.len() ==> (#[trigger] r[k]).no == k + 1,
        forall|a: int, b: int|
            0 <= a < b < r.len() ==> (#[trigger] r[a]).solved_count >= (#[trigger] r[b]).solved_count,
        forall|a: int, b: int|
            0 <= a < b < r.len() && (#[trigger] r[a]).solved_count == (#[trigger] r[b]).solved_count
                ==> !earlier(r[a].solved_last_at, r[b].solved_last_at),
{
    let c = ranked_users(s, users);
    let counts = Seq::new(c.len(), |i: int| count_of(s, c[i], s.len() as int) as u64);
    let lasts = Seq::new(c.len(), |i: int| last_of(s, c[i], s.len() as int));
    let p = choose|p: Seq<usize>|
        {
            &&& is_arrangement(p, c.len() as int)
            &&& arranged_by(p, |i: int, j: int| ranks_ahead(counts, lasts, i, j))
            &&& r.len() == if c.len() < TOP_USERS {
                c.len() as int
            } else {
                TOP_USERS as int
            }
            &&& forall|k: int|
                0 <= k < r.len() ==> {
                    let u = c[#[trigger] p[k] as int];
                    let e = find_user(users, u).unwrap();
                    &&& r[k].no == k + 1
                    &&& r[k].nickname@ == e.name@
                    &&& r[k].avatar == e.avatar
                    &&& r[k].solved_count == count_of(s, u, s.len() as int)
                    &&& r[k].solved_last_at == last_of(s, u, s.len() as int)
                }
        };
    assert forall|k: int| 0 <= k < r.len() implies (#[trigger] r[k]).no == k + 1 by {
        let u = c[p[k] as int];
        assert(r[k].no == k + 1);
    }
    assert forall|a: int, b: int| 0 <= a < b < r.len() implies (#[trigger] r[a]).solved_count
        >= (#[trigger] r[b]).solved_count && (r[a].solved_count == r[b].solved_count ==> !earlier(
        r[a].solved_last_at,
        r[b].solved_last_at,
    )) by {
        let pa = p[a] as int;
        let pb = p[b] as int;
        assert(ranks_ahead(counts, lasts, pa, pb));
        assert(pa < c.len() && pb < c.len());
        lemma_count_bound(s, c[pa], s.len() as int);
        lemma_count_bound(s, c[pb], s.len() as int);
        assert(counts[pa] == count_of(s, c[pa], s.len() as int));
        assert(counts[pb] == count_of(s, c[pb], s.len() as int));
        assert(r[a].solved_count == count_of(s, c[pa], s.len() as int));
        assert(r[b].solved_count == count_of(s, c[pb], s.len() as int));
    }
}

} // verus!
