//! Scoreboard of an event: one row per entrant (a user or a team), with the
//! state of each visible challenge, and the event's phase.

use vstd::prelude::*;
use crate::error::UniError;

verus! {

/// One accepted flag: who solved (a user, or a team in team events) and which
/// challenge. A list of solves is ordered by challenge, then by time.
#[derive(Clone, Copy, Debug)]
pub struct SolveEntry {
    pub owner: u128,
    pub challenge: u128,
}

/// An item of a catalogue, found by its id.
#[derive(Clone, Debug)]
pub struct NamedItem {
    pub id: u128,
    pub name: String,
}

/// Who a row of the scoreboard is about.
#[derive(Clone, Debug)]
pub struct Entrant {
    pub id: u128,
    pub name: String,
    pub avatar: Option<String>,
}

/// The state of one challenge for one entrant.
#[derive(Clone, Debug)]
pub struct ChallengeScoreboard {
    pub name: String,
    pub solved: bool,
    /// The entrant's place among the solvers of the challenge (1 for the
    /// first), 0 when it has not solved it.
    pub solved_no: u64,
}

/// A row of the scoreboard; the score itself is carried beside it.
#[derive(Clone, Debug)]
pub struct ScoreboardRow {
    pub id: u128,
    pub no: u64,
    pub name: String,
    pub avatar: Option<String>,
    pub solved_count: u64,
    pub challenges: Vec<ChallengeScoreboard>,
}

/// The phase of an event.
#[derive(Clone, Copy, Debug, PartialEq, Eq, Structural)]
pub enum EventStatus {
    NotStarted,
    Ongoing,
    Ended,
}

/// A point in time: seconds since the epoch and nanoseconds within the second.
#[derive(Clone, Copy, Debug, PartialEq, Eq, Structural)]
pub struct Moment {
    pub secs: i64,
    pub nanos: u32,
}

/// Whether `a` comes before `b`.
pub open spec fn earlier(a: Moment, b: Moment) -> bool {
    a.secs < b.secs || (a.secs == b.secs && a.nanos < b.nanos)
}

/// The phase of an event at `now`: before its start it has not started,
/// after its end it has ended, and in between (both ends included) it runs.
pub open spec fn status_at(now: Moment, start: Moment, end: Moment) -> EventStatus {
    if earlier(now, start) {
        EventStatus::NotStarted
    } else if earlier(end, now) {
        EventStatus::Ended
    } else {
        EventStatus::Ongoing
    }
}

pub fn is_earlier(a: Moment, b: Moment) -> (r: bool)
    ensures
        r == earlier(a, b),
{
    a.secs < b.secs || (a.secs == b.secs && a.nanos < b.nanos)
}

/// The phase of an event at `now`.
pub fn event_status(now: Moment, start: Moment, end: Moment) -> (r: EventStatus)
    ensures
        r == status_at(now, start, end),
{
    if is_earlier(now, start) {
        EventStatus::NotStarted
    } else if is_earlier(end, now) {
        EventStatus::Ended
    } else {
        EventStatus::Ongoing
    }
}

/// The name of the last catalogue item with the given id (a map built from
/// the catalogue keeps the last one).
pub open spec fn find_name(cat: Seq<NamedItem>, id: u128) -> Option<Seq<char>>
    decreases cat.len(),
{
    if cat.len() == 0 {
        None
    } else if cat.last().id == id {
        Some(cat.last().name@)
    } else {
        find_name(cat.drop_last(), id)
    }
}

/// Whether `owner` has a solve of `challenge`.
pub open spec fn has_solved(solves: Seq<SolveEntry>, owner: u128, challenge: u128) -> bool {
    exists|j: int| 0 <= j < solves.len() && solves[j].owner == owner && solves[j].challenge == challenge
}

/// Scanning the solves from index `i`, with `seen` solves of `challenge`
/// already counted: the number of solves of `challenge` up to and including
/// the first one by `owner`, or 0 when `owner` has none.
pub open spec fn rank_from(solves: Seq<SolveEntry>, owner: u128, challenge: u128, i: int, seen: nat) -> nat
    decreases solves.len() - i,
{
    if i < 0 || i >= solves.len() {
        0
    } else if solves[i].challenge == challenge {
        if solves[i].owner == owner {
            seen + 1
        } else {
            rank_from(solves, owner, challenge, i + 1, seen + 1)
        }
    } else {
        rank_from(solves, owner, challenge, i + 1, seen)
    }
}

/// The place of `owner` among the solvers of `challenge`: how many solves of
/// the challenge come before its first one, plus one; 0 when it has none.
pub open spec fn solve_rank(solves: Seq<SolveEntry>, owner: u128, challenge: u128) -> nat {
    rank_from(solves, owner, challenge, 0, 0)
}

/// How many of the challenges `owner` has solved.
pub open spec fn solved_total(solves: Seq<SolveEntry>, owner: u128, challenges: Seq<u128>) -> nat
    decreases challenges.len(),
{
    if challenges.len() == 0 {
        0
    } else {
        solved_total(solves, owner, challenges.drop_last()) + if has_solved(
            solves,
            owner,
            challenges.last(),
        ) {
            1nat
        } else {
            0nat
        }
    }
}

proof fn lemma_rank_from(solves: Seq<SolveEntry>, owner: u128, challenge: u128, i: int, seen: nat)
    requires
        0 <= i <= solves.len(),
        forall|j: int| 0 <= j < i ==> !(solves[j].owner == owner && solves[j].challenge == challenge),
    ensures
        (rank_from(solves, owner, challenge, i, seen) > 0) == has_solved(solves, owner, challenge),
        rank_from(solves, owner, challenge, i, seen) <= seen + solves.len() - i,
    decreases solves.len() - i,
{
    if i < solves.len() {
        if solves[i].challenge == challenge && solves[i].owner == owner {
        } else {
            let next = if solves[i].challenge == challenge { seen + 1 } else { seen };
            lemma_rank_from(solves, owner, challenge, i + 1, next);
        }
    }
}

proof fn lemma_rank_above_seen(s: Seq<SolveEntry>, o: u128, c: u128, i: int, seen: nat, w: int)
    requires
        0 <= i <= w < s.len(),
        s[w].owner == o,
        s[w].challenge == c,
    ensures
        rank_from(s, o, c, i, seen) > seen,
    decreases s.len() - i,
{
    if i < w {
        let next = if s[i].challenge == c { seen + 1 } else { seen };
        if !(s[i].challenge == c && s[i].owner == o) {
            lemma_rank_above_seen(s, o, c, i + 1, next, w);
        }
    }
}

proof fn lemma_ranks_differ_from(
    s: Seq<SolveEntry>,
    a: u128,
    b: u128,
    c: u128,
    i: int,
    seen: nat,
    wa: int,
    wb: int,
)
    requires
        a != b,
        0 <= i <= wa < s.len(),
        i <= wb < s.len(),
        s[wa].owner == a && s[wa].challenge == c,
        s[wb].owner == b && s[wb].challenge == c,
    ensures
        rank_from(s, a, c, i, seen) != rank_from(s, b, c, i, seen),
    decreases s.len() - i,
{
    if s[i].challenge == c && s[i].owner == a {
        if i == wb {
        } else {
            lemma_rank_above_seen(s, b, c, i + 1, seen + 1, wb);
        }
    } else if s[i].challenge == c && s[i].owner == b {
        lemma_rank_above_seen(s, a, c, i + 1, seen + 1, wa);
    } else {
        let next = if s[i].challenge == c { seen + 1 } else { seen };
        lemma_ranks_differ_from(s, a, b, c, i + 1, next, wa, wb);
    }
}

/// An entrant has a place on a challenge exactly when it solved it, and two
/// entrants that both solved a challenge never share a place on it.
pub proof fn lemma_solve_places(solves: Seq<SolveEntry>, a: u128, b: u128, challenge: u128)
    ensures
        (solve_rank(solves, a, challenge) > 0) == has_solved(solves, a, challenge),
        solve_rank(solves, a, challenge) <= solves.len(),
        a != b && has_solved(solves, a, challenge) && has_solved(solves, b, challenge)
            ==> solve_rank(solves, a, challenge) != solve_rank(solves, b, challenge),
{
    lemma_rank_from(solves, a, challenge, 0, 0);
    if a != b && has_solved(solves, a, challenge) && has_solved(solves, b, challenge) {
        let wa = choose|j: int| 0 <= j < solves.len() && solves[j].owner == a && solves[j].challenge == challenge;
        let wb = choose|j: int| 0 <= j < solves.len() && solves[j].owner == b && solves[j].challenge == challenge;
        lemma_ranks_differ_from(solves, a, b, challenge, 0, 0, wa, wb);
    }
}

/// The first solve of a challenge takes the first place on it.
pub proof fn lemma_first_solver_first(solves: Seq<SolveEntry>, challenge: u128, w: int)
    requires
        0 <= w < solves.len(),
        solves[w].challenge == challenge,
        forall|j: int| 0 <= j < w ==> solves[j].challenge != challenge,
    ensures
        solve_rank(solves, solves[w].owner, challenge) == 1,
{
    lemma_first_rank_from(solves, solves[w].owner, challenge, 0, w);
}

proof fn lemma_first_rank_from(s: Seq<SolveEntry>, o: u128, c: u128, i: int, w: int)
    requires
        0 <= i <= w < s.len(),
        s[w].challenge == c && s[w].owner == o,
        forall|j: int| 0 <= j < w ==> s[j].challenge != c,
    ensures
        rank_from(s, o, c, i, 0) == 1,
    decreases w - i,
{
    if i < w {
        lemma_first_rank_from(s, o, c, i + 1, w);
    }
}

/// The place of `owner` among the solvers of `challenge`, and whether it
/// solved it at all.
pub fn rank_of(solves: &Vec<SolveEntry>, owner: u128, challenge: u128) -> (r: (bool, u64))
    ensures
        r.0 == has_solved(solves@, owner, challenge),
        r.1 == solve_rank(solves@, owner, challenge),
{
    let mut i: usize = 0;
    let mut seen: u64 = 0;
    proof {
        lemma_rank_from(solves@, owner, challenge, 0, 0);
    }
    while i < solves.len()
        invariant
            i <= solves.len(),
            seen <= i,
            rank_from(solves@, owner, challenge, i as int, seen as nat) == solve_rank(
                solves@,
                owner,
                challenge,
            ),
            forall|j: int|
                0 <= j < i ==> !(#[trigger] solves@[j].owner == owner && solves@[j].challenge
                    == challenge),
        decreases solves.len() - i,
    {
        let s = solves[i];
        if s.challenge == challenge {
            if s.owner == owner {
                proof {
                    lemma_rank_from(solves@, owner, challenge, 0, 0);
                }
                return (true, seen + 1);
            }
            seen = seen + 1;
        }
        i = i + 1;
    }
    proof {
        lemma_rank_from(solves@, owner, challenge, 0, 0);
    }
    (false, 0)
}

/// The name of the last catalogue item with the given id.
pub fn lookup_name(cat: &Vec<NamedItem>, id: u128) -> (r: Option<String>)
    ensures
        match r {
            Some(n) => find_name(cat@, id) == Some(n@),
            None => find_name(cat@, id).is_none(),
        },
{
    let mut i: usize = cat.len();
    proof {
        assert(cat@.subrange(0, i as int) == cat@);
    }
    while i > 0
        invariant
            i <= cat.len(),
            find_name(cat@, id) == find_name(cat@.subrange(0, i as int), id),
        decreases i,
    {
        let item = &cat[i - 1];
        proof {
            assert(cat@.subrange(0, i - 1) == cat@.subrange(0, i as int).drop_last());
        }
        if item.id == id {
            return Some(item.name.clone());
        }
        i = i - 1;
    }
    None
}

/// Whether every challenge of the event is in the catalogue.
pub open spec fn all_named(ids: Seq<u128>, cat: Seq<NamedItem>) -> bool {
    forall|j: int| 0 <= j < ids.len() ==> #[trigger] find_name(cat, ids[j]).is_some()
}

/// The names of the event's challenges, or `None` when one is missing from
/// the catalogue.
pub fn challenge_names(ids: &Vec<u128>, cat: &Vec<NamedItem>) -> (r: Option<Vec<String>>)
    ensures
        r.is_some() == all_named(ids@, cat@),
        r.is_some() ==> r.unwrap().len() == ids.len() && forall|j: int|
            0 <= j < ids.len() ==> find_name(cat@, ids@[j]) == Some(#[trigger] r.unwrap()@[j]@),
{
    let mut out: Vec<String> = Vec::new();
    let mut i: usize = 0;
    while i < ids.len()
        invariant
            i <= ids.len(),
            out.len() == i,
            forall|j: int| 0 <= j < i ==> find_name(cat@, ids@[j]) == Some(#[trigger] out@[j]@),
        decreases ids.len() - i,
    {
        match lookup_name(cat, ids[i]) {
            Some(n) => out.push(n),
            None => {
                proof {
                    assert(!find_name(cat@, ids@[i as int]).is_some());
                }
                return None;
            },
        }
        i = i + 1;
    }
    proof {
        assert forall|j: int| 0 <= j < ids.len() implies #[trigger] find_name(cat@, ids@[j]).is_some() by {
            assert(find_name(cat@, ids@[j]) == Some(out@[j]@));
        }
    }
    Some(out)
}

/// What a row of the scoreboard holds about one challenge.
pub open spec fn cell_ok(
    cell: ChallengeScoreboard,
    name: Seq<char>,
    solves: Seq<SolveEntry>,
    owner: u128,
    challenge: u128,
) -> bool {
    &&& cell.name@ == name
    &&& cell.solved == has_solved(solves, owner, challenge)
    &&& cell.solved_no == solve_rank(solves, owner, challenge)
}

/// What the row of entrant `e`, at place `k` of the list, holds.
pub open spec fn row_ok(
    row: ScoreboardRow,
    k: int,
    e: Entrant,
    ids: Seq<u128>,
    names: Seq<String>,
    solves: Seq<SolveEntry>,
) -> bool {
    &&& row.id == e.id
    &&& row.no == k + 1
    &&& row.name@ == e.name@
    &&& row.avatar == e.avatar
    &&& row.solved_count == solved_total(solves, e.id, ids)
    &&& row.challenges.len() == ids.len()
    &&& forall|j: int|
        0 <= j < ids.len() ==> cell_ok(
            #[trigger] row.challenges@[j],
            names[j]@,
            solves,
            e.id,
            ids[j],
        )
}

fn clone_avatar(a: &Option<String>) -> (r: Option<String>)
    ensures
        r == *a,
{
    match a {
        Some(s) => Some(s.clone()),
        None => None,
    }
}

/// The row of one entrant.
fn build_row(
    k: usize,
    e: &Entrant,
    ids: &Vec<u128>,
    names: &Vec<String>,
    solves: &Vec<SolveEntry>,
) -> (r: ScoreboardRow)
    requires
        names.len() == ids.len(),
        k < usize::MAX,
    ensures
        row_ok(r, k as int, *e, ids@, names@, solves@),
{
    let mut cells: Vec<ChallengeScoreboard> = Vec::new();
    let mut count: u64 = 0;
    let mut j: usize = 0;
    while j < ids.len()
        invariant
            j <= ids.len(),
            names.len() == ids.len(),
            cells.len() == j,
            count == solved_total(solves@, e.id, ids@.subrange(0, j as int)),
            count <= j,
            forall|t: int|
                0 <= t < j ==> cell_ok(#[trigger] cells@[t], names@[t]@, solves@, e.id, ids@[t]),
        decreases ids.len() - j,
    {
        let (solved, no) = rank_of(solves, e.id, ids[j]);
        proof {
            assert(ids@.subrange(0, j + 1).drop_last() == ids@.subrange(0, j as int));
        }
        if solved {
            count = count + 1;
        }
        cells.push(ChallengeScoreboard { name: names[j].clone(), solved, solved_no: no });
        j = j + 1;
    }
    proof {
        assert(ids@.subrange(0, ids.len() as int) == ids@);
    }
    ScoreboardRow {
        id: e.id,
        no: k as u64 + 1,
        name: e.name.clone(),
        avatar: clone_avatar(&e.avatar),
        solved_count: count,
        challenges: cells,
    }
}

/// The rows of all entrants, in the given order.
fn build_rows(
    entrants: &Vec<Entrant>,
    ids: &Vec<u128>,
    names: &Vec<String>,
    solves: &Vec<SolveEntry>,
) -> (r: Vec<ScoreboardRow>)
    requires
        names.len() == ids.len(),
    ensures
        r.len() == entrants.len(),
        forall|k: int|
            0 <= k < entrants.len() ==> row_ok(#[trigger] r@[k], k, entrants@[k], ids@, names@, solves@),
{
    let mut rows: Vec<ScoreboardRow> = Vec::new();
    let mut k: usize = 0;
    while k < entrants.len()
        invariant
            k <= entrants.len(),
            names.len() == ids.len(),
            rows.len() == k,
            forall|t: int|
                0 <= t < k ==> row_ok(#[trigger] rows@[t], t, entrants@[t], ids@, names@, solves@),
        decreases entrants.len() - k,
    {
        let row = build_row(k, &entrants[k], ids, names, solves);
        rows.push(row);
        k = k + 1;
    }
    rows
}

/// Whether `rows` is the scoreboard of `entrants`: one row per entrant, in
/// order, numbered from 1, each challenge named from the catalogue.
pub open spec fn scoreboard_of(
    rows: Seq<ScoreboardRow>,
    entrants: Seq<Entrant>,
    ids: Seq<u128>,
    cat: Seq<NamedItem>,
    solves: Seq<SolveEntry>,
) -> bool {
    &&& rows.len() == entrants.len()
    &&& forall|k: int|
        0 <= k < entrants.len() ==> {
            let row = #[trigger] rows[k];
            &&& row.id == entrants[k].id
            &&& row.no == k + 1
            &&& row.name@ == entrants[k].name@
            &&& row.avatar == entrants[k].avatar
            &&& row.solved_count == solved_total(solves, entrants[k].id, ids)
            &&& row.challenges.len() == ids.len()
            &&& forall|j: int|
                0 <= j < ids.len() ==> {
                    let cell = #[trigger] row.challenges@[j];
                    &&& find_name(cat, ids[j]) == Some(cell.name@)
                    &&& cell.solved == has_solved(solves, entrants[k].id, ids[j])
                    &&& cell.solved_no == solve_rank(solves, entrants[k].id, ids[j])
                }
        }
}

/// The error of a challenge of the event that the catalogue lacks.
pub open spec fn is_not_found(e: UniError, what: Seq<char>) -> bool {
    e matches UniError::NotFound(m) && m@ == what
}

/// The scoreboard of a team event: one row per team, in the given order,
/// over the event's visible challenges (`challenge_ids`), whose names come
/// from the catalogue. It fails with "challenge not found" when there is a
/// team and a challenge of the event is missing from the catalogue.
pub fn team_scoreboard(
    teams: &Vec<Entrant>,
    challenge_ids: &Vec<u128>,
    catalogue: &Vec<NamedItem>,
    solves: &Vec<SolveEntry>,
) -> (r: Result<Vec<ScoreboardRow>, UniError>)
    ensures
        r.is_err() == (teams.len() > 0 && !all_named(challenge_ids@, catalogue@)),
        r.is_err() ==> is_not_found(r->Err_0, "challenge not found"@),
        r.is_ok() ==> scoreboard_of(r->Ok_0@, teams@, challenge_ids@, catalogue@, solves@),
{
    if teams.len() == 0 {
        return Ok(Vec::new());
    }
    match challenge_names(challenge_ids, catalogue) {
        None => Err(UniError::NotFound(String::from_str("challenge not found"))),
        Some(names) => {
            let rows = build_rows(teams, challenge_ids, &names, solves);
            Ok(rows)
        },
    }
}

/// The entrant of each user, looked up in the user catalogue.
pub open spec fn find_user(users: Seq<Entrant>, id: u128) -> Option<Entrant>
    decreases users.len(),
{
    if users.len() == 0 {
        None
    } else if users.last().id == id {
        Some(users.last())
    } else {
        find_user(users.drop_last(), id)
    }
}

/// Whether every user of the event is in the user catalogue.
pub open spec fn all_users_found(ids: Seq<u128>, users: Seq<Entrant>) -> bool {
    forall|k: int| 0 <= k < ids.len() ==> #[trigger] find_user(users, ids[k]).is_some()
}

fn lookup_user(users: &Vec<Entrant>, id: u128) -> (r: Option<Entrant>)
    ensures
        r == find_user(users@, id),
{
    let mut i: usize = users.len();
    proof {
        assert(users@.subrange(0, i as int) == users@);
    }
    while i > 0
        invariant
            i <= users.len(),
            find_user(users@, id) == find_user(users@.subrange(0, i as int), id),
        decreases i,
    {
        proof {
            assert(users@.subrange(0, i - 1) == users@.subrange(0, i as int).drop_last());
        }
        if users[i - 1].id == id {
            let u = &users[i - 1];
            return Some(Entrant { id: u.id, name: u.name.clone(), avatar: clone_avatar(&u.avatar) });
        }
        i = i - 1;
    }
    None
}

/// The users of the event as entrants, or `None` when one is missing.
fn resolve_users(ids: &Vec<u128>, users: &Vec<Entrant>) -> (r: Option<Vec<Entrant>>)
    ensures
        r.is_some() == all_users_found(ids@, users@),
        r.is_some() ==> r.unwrap().len() == ids.len() && forall|k: int|
            0 <= k < ids.len() ==> find_user(users@, ids@[k]) == Some(#[trigger] r.unwrap()@[k]),
{
    let mut out: Vec<Entrant> = Vec::new();
    let mut k: usize = 0;
    while k < ids.len()
        invariant
            k <= ids.len(),
            out.len() == k,
            forall|t: int| 0 <= t < k ==> find_user(users@, ids@[t]) == Some(#[trigger] out@[t]),
        decreases ids.len() - k,
    {
        match lookup_user(users, ids[k]) {
            Some(e) => out.push(e),
            None => {
                proof {
                    assert(!find_user(users@, ids@[k as int]).is_some());
                }
                return None;
            },
        }
        k = k + 1;
    }
    proof {
        assert forall|t: int| 0 <= t < ids.len() implies #[trigger] find_user(users@, ids@[t]).is_some() by {
            assert(find_user(users@, ids@[t]) == Some(out@[t]));
        }
    }
    Some(out)
}

/// The scoreboard of a single-player event: one row per user of the event
/// (`user_ids`, ordered by points), with the nickname and avatar found in the
/// user catalogue. The first user is looked up before the challenges, so a
/// missing first user gives "user not found", then a missing challenge gives
/// "challenge not found", then any other missing user "user not found".
pub fn single_scoreboard(
    user_ids: &Vec<u128>,
    users: &Vec<Entrant>,
    challenge_ids: &Vec<u128>,
    catalogue: &Vec<NamedItem>,
    solves: &Vec<SolveEntry>,
) -> (r: Result<Vec<ScoreboardRow>, UniError>)
    ensures
        user_ids.len() == 0 ==> r.is_ok() && r->Ok_0.len() == 0,
        user_ids.len() > 0 && find_user(users@, user_ids@[0]).is_none() ==> r.is_err()
            && is_not_found(r->Err_0, "user not found"@),
        user_ids.len() > 0 && find_user(users@, user_ids@[0]).is_some() && !all_named(
            challenge_ids@,
            catalogue@,
        ) ==> r.is_err() && is_not_found(r->Err_0, "challenge not found"@),
        user_ids.len() > 0 && all_named(challenge_ids@, catalogue@) && !all_users_found(
            user_ids@,
            users@,
        ) ==> r.is_err() && is_not_found(r->Err_0, "user not found"@),
        user_ids.len() > 0 && all_named(challenge_ids@, catalogue@) && all_users_found(
            user_ids@,
            users@,
        ) ==> r.is_ok() && exists|entrants: Seq<Entrant>|
            {
                &&& entrants.len() == user_ids.len()
                &&& forall|k: int|
                    0 <= k < user_ids.len() ==> find_user(users@, user_ids@[k]) == Some(
                        #[trigger] entrants[k],
                    )
                &&& scoreboard_of(r->Ok_0@, entrants, challenge_ids@, catalogue@, solves@)
            },
{
    if user_ids.len() == 0 {
        return Ok(Vec::new());
    }
    if lookup_user(users, user_ids[0]).is_none() {
        proof {
            assert(!find_user(users@, user_ids@[0]).is_some());
        }
        return Err(UniError::NotFound(String::from_str("user not found")));
    }
    let names = match challenge_names(challenge_ids, catalogue) {
        None => {
            return Err(UniError::NotFound(String::from_str("challenge not found")));
        },
        Some(n) => n,
    };
    match resolve_users(user_ids, users) {
        None => Err(UniError::NotFound(String::from_str("user not found"))),
        Some(entrants) => {
            let rows = build_rows(&entrants, challenge_ids, &names, solves);
            proof {
                assert(scoreboard_of(rows@, entrants@, challenge_ids@, catalogue@, solves@));
            }
            Ok(rows)
        },
    }
}

/// What the scoreboard shows in a phase: before the start no row shows its
/// challenges; otherwise the rows are shown as they are.
pub fn visible_scoreboard(rows: Vec<ScoreboardRow>, status: EventStatus) -> (r: Vec<
    ScoreboardRow,
>)
    ensures
        r.len() == rows.len(),
        forall|k: int|
            0 <= k < rows.len() ==> {
                let a = #[trigger] r@[k];
                let b = rows@[k];
                &&& a.id == b.id
                &&& a.no == b.no
                &&& a.name == b.name
                &&& a.avatar == b.avatar
                &&& a.solved_count == b.solved_count
                &&& a.challenges@ == if status == EventStatus::NotStarted {
                    Seq::<ChallengeScoreboard>::empty()
                } else {
                    b.challenges@
                }
            },
{
    let ghost orig = rows@;
    let mut rest = rows;
    let mut out: Vec<ScoreboardRow> = Vec::new();
    while rest.len() > 0
        invariant
            out.len() + rest.len() == orig.len(),
            rest@ == orig.subrange(out.len() as int, orig.len() as int),
            forall|k: int|
                0 <= k < out.len() ==> {
                    let a = #[trigger] out@[k];
                    let b = orig[k];
                    &&& a.id == b.id
                    &&& a.no == b.no
                    &&& a.name == b.name
                    &&& a.avatar == b.avatar
                    &&& a.solved_count == b.solved_count
                    &&& a.challenges@ == if status == EventStatus::NotStarted {
                        Seq::<ChallengeScoreboard>::empty()
                    } else {
                        b.challenges@
                    }
                },
        decreases rest.len(),
    {
        let mut row = rest.remove(0);
        if status == EventStatus::NotStarted {
            row.challenges = Vec::new();
        }
        out.push(row);
    }
    out
}

} // verus!
