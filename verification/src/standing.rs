//! What a participant sees of an event's challenges: how often each was
//! solved, whether the participant (or its team) solved it and in which
//! place, the list ordered by category.

use vstd::prelude::*;
use crate::error::UniError;
use crate::scoreboard::{EventStatus, Moment, earlier};
use crate::membership::{EventType, is_custom, is_missing};
use crate::order::{strict_total, is_arrangement, arranged_by, arrange, text_less, text_is_less,
    lemma_text_less_irreflexive, lemma_text_less_transitive, lemma_text_less_total};

verus! {

/// A visible challenge of the event, as the participant's request sees it.
#[derive(Clone, Debug)]
pub struct ChallengeEntry {
    pub category: String,
    /// When each solve of the challenge was accepted.
    pub solve_times: Vec<Moment>,
    /// When the participant (or its team) solved it, if it did.
    pub own_solve: Option<Moment>,
}

/// The standing of the participant on one challenge.
#[derive(Clone, Copy, Debug)]
pub struct ChallengeStanding {
    /// The position of the challenge in the request's list.
    pub entry: usize,
    pub solved_count: u64,
    pub solved: bool,
    pub solved_no: u64,
}

/// How many of the first `n` moments are earlier than `t`.
pub open spec fn count_earlier(times: Seq<Moment>, t: Moment, n: int) -> nat
    decreases n,
{
    if n <= 0 {
        0
    } else {
        count_earlier(times, t, n - 1) + if earlier(times[n - 1], t) {
            1nat
        } else {
            0nat
        }
    }
}

/// The place of a solve at `t`: one more than the solves accepted before it.
pub open spec fn place_at(times: Seq<Moment>, t: Moment) -> nat {
    count_earlier(times, t, times.len() as int) + 1
}

/// The categories of the challenges, in the request's order.
pub open spec fn categories(entries: Seq<ChallengeEntry>) -> Seq<Seq<char>> {
    Seq::new(entries.len(), |i: int| entries[i].category@)
}

/// Categories from the last in lexicographic order to the first; challenges
/// of one category keep the request's order.
pub open spec fn category_ahead(cats: Seq<Seq<char>>, i: int, j: int) -> bool {
    text_less(cats[j], cats[i]) || (cats[i] == cats[j] && i < j)
}

/// What the standing on entry `e` holds.
pub open spec fn standing_ok(s: ChallengeStanding, k: int, e: ChallengeEntry) -> bool {
    &&& s.solved_count == e.solve_times.len()
    &&& s.solved == e.own_solve.is_some()
    &&& s.solved_no == match e.own_solve {
        Some(t) => place_at(e.solve_times@, t),
        None => 0,
    }
}

fn standing_of(k: usize, e: &ChallengeEntry) -> (r: ChallengeStanding)
    requires
        e.solve_times.len() < u64::MAX,
    ensures
        r.entry == k,
        standing_ok(r, k as int, *e),
{
    let n = e.solve_times.len();
    let mut no: u64 = 0;
    match e.own_solve {
        Some(t) => {
            let mut c: u64 = 0;
            let mut i: usize = 0;
            while i < n
                invariant
                    n == e.solve_times.len(),
                    i <= n,
                    c == count_earlier(e.solve_times@, t, i as int),
                    c <= i,
                decreases n - i,
            {
                let x = e.solve_times[i];
                if x.secs < t.secs || (x.secs == t.secs && x.nanos < t.nanos) {
                    c = c + 1;
                }
                i = i + 1;
            }
            no = c + 1;
        },
        None => {},
    }
    ChallengeStanding { entry: k, solved_count: n as u64, solved: e.own_solve.is_some(), solved_no: no }
}

proof fn lemma_category_order(cats: Seq<Seq<char>>)
    ensures
        strict_total(|i: int, j: int| category_ahead(cats, i, j), cats.len() as int),
{
    let ahead = |i: int, j: int| category_ahead(cats, i, j);
    assert forall|i: int| 0 <= i < cats.len() implies !#[trigger] ahead(i, i) by {
        lemma_text_less_irreflexive(cats[i]);
    }
    assert forall|i: int, j: int, k: int|
        0 <= i < cats.len() && 0 <= j < cats.len() && 0 <= k < cats.len() && #[trigger] ahead(i, j)
            && #[trigger] ahead(j, k) implies ahead(i, k) by {
        if text_less(cats[j], cats[i]) && text_less(cats[k], cats[j]) {
            lemma_text_less_transitive(cats[k], cats[j], cats[i]);
        }
    }
    assert forall|i: int, j: int|
        0 <= i < cats.len() && 0 <= j < cats.len() && i != j implies #[trigger] ahead(i, j)
            || #[trigger] ahead(j, i) by {
        lemma_text_less_total(cats[i], cats[j]);
    }
}

/// The participant's view of the event's challenges. Before the event starts
/// it is refused ("Event is not start"), as it is to a user that has not
/// joined ("not joined"). When there is a challenge, the event must rank
/// users or teams ("event type not supported"), and in a team event the user
/// must be in a team ("you are not in any team"). The standings come ordered
/// by category, from the last in lexicographic order.
pub fn event_challenge_standings(
    status: EventStatus,
    joined: bool,
    kind: EventType,
    in_team: bool,
    entries: &Vec<ChallengeEntry>,
) -> (r: Result<Vec<ChallengeStanding>, UniError>)
    requires
        forall|k: int| 0 <= k < entries.len() ==> (#[trigger] entries@[k]).solve_times.len() < u64::MAX,
    ensures
        status == EventStatus::NotStarted ==> r.is_err() && is_custom(
            r->Err_0,
            "Event is not start"@,
        ),
        status != EventStatus::NotStarted && !joined ==> r.is_err() && is_custom(
            r->Err_0,
            "not joined"@,
        ),
        status != EventStatus::NotStarted && joined && entries.len() > 0 && kind
            != EventType::JeopardySingle && kind != EventType::JeopardyTeam ==> r.is_err()
            && is_custom(r->Err_0, "event type not supported"@),
        status != EventStatus::NotStarted && joined && entries.len() > 0 && kind
            == EventType::JeopardyTeam && !in_team ==> r.is_err() && is_missing(
            r->Err_0,
            "you are not in any team"@,
        ),
        r.is_ok() <==> (status != EventStatus::NotStarted && joined && (entries.len() == 0 || kind
            == EventType::JeopardySingle || (kind == EventType::JeopardyTeam && in_team))),
        r.is_ok() ==> {
            let out = r->Ok_0@;
            &&& out.len() == entries.len()
            &&& exists|p: Seq<usize>|
                {
                    &&& is_arrangement(p, entries.len() as int)
                    &&& arranged_by(
                        p,
                        |i: int, j: int| category_ahead(categories(entries@), i, j),
                    )
                    &&& forall|k: int|
                        0 <= k < out.len() ==> {
                            &&& (#[trigger] out[k]).entry == p[k]
                            &&& standing_ok(out[k], k, entries@[p[k] as int])
                        }
                }
        },
{
    if status == EventStatus::NotStarted {
        return Err(UniError::CustomError(String::from_str("Event is not start")));
    }
    if !joined {
        return Err(UniError::CustomError(String::from_str("not joined")));
    }
    if entries.len() > 0 {
        if kind != EventType::JeopardySingle && kind != EventType::JeopardyTeam {
            return Err(UniError::CustomError(String::from_str("event type not supported")));
        }
        if kind == EventType::JeopardyTeam && !in_team {
            return Err(UniError::NotFound(String::from_str("you are not in any team")));
        }
    }
    let n = entries.len();
    let ghost cats = categories(entries@);
    let ghost ahead = |i: int, j: int| category_ahead(categories(entries@), i, j);
    let before = |a: usize, b: usize| -> (x: bool)
        requires
            a < n && b < n,
        ensures
            x == category_ahead(categories(entries@), a as int, b as int),
        {
            let ca = &entries[a].category;
            let cb = &entries[b].category;
            text_is_less(cb.as_str(), ca.as_str()) || (*ca == *cb && a < b)
        };
    proof {
        lemma_category_order(cats);
    }
    let p = arrange(n, before, Ghost(ahead));
    let mut out: Vec<ChallengeStanding> = Vec::new();
    let mut k: usize = 0;
    while k < n
        invariant
            k <= n,
            n == entries.len(),
            is_arrangement(p@, n as int),
            forall|t: int| 0 <= t < entries.len() ==> (#[trigger] entries@[t]).solve_times.len() < u64::MAX,
            out.len() == k,
            forall|t: int|
                0 <= t < k ==> {
                    &&& (#[trigger] out@[t]).entry == p@[t]
                    &&& standing_ok(out@[t], t, entries@[p@[t] as int])
                },
        decreases n - k,
    {
        let s = standing_of(p[k], &entries[p[k]]);
        out.push(s);
        k = k + 1;
    }
    Ok(out)
}

} // verus!
