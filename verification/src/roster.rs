//! Who takes part in an event, as the admin pages list it: the members of a
//! team with its captain, the entrants of the writeup report, and the
//! per-challenge figures of the event's data page.

use vstd::prelude::*;
use crate::error::UniError;
use crate::membership::TeamRole;
use crate::order::{strict_total, is_arrangement, arranged_by, arrange};
use crate::accounts::{uuid_text, uuid_hyphenated};
use crate::text::{generate_safe_name, safe_char};

verus! {

/// A member of a team, with what the listing reads of the member's account.
#[derive(Clone, Debug)]
pub struct MemberEntry {
    /// The user's id in text form (for messages).
    pub user_id: String,
    pub username: String,
    pub nickname: String,
    pub role: TeamRole,
    /// Whether the user is registered in the event.
    pub in_event: bool,
}

/// A member as the listing shows it (its points are carried beside it).
#[derive(Clone, Debug)]
pub struct MemberLine {
    pub username: String,
    pub nickname: String,
    pub role: TeamRole,
}

/// A team's members and the user name of its captain.
#[derive(Clone, Debug)]
pub struct Roster {
    pub captain: String,
    pub members: Vec<MemberLine>,
}

/// The user name of the last captain among the first `n` members, or empty.
pub open spec fn captain_of(ms: Seq<MemberEntry>, n: int) -> Seq<char>
    decreases n,
{
    if n <= 0 {
        Seq::empty()
    } else if ms[n - 1].role == TeamRole::Captain {
        ms[n - 1].username@
    } else {
        captain_of(ms, n - 1)
    }
}

/// The first member not registered in the event, if any.
pub open spec fn first_unregistered(ms: Seq<MemberEntry>) -> Option<int> {
    if exists|k: int| 0 <= k < ms.len() && !ms[k].in_event {
        Some(
            choose|k: int|
                0 <= k < ms.len() && !ms[k].in_event && forall|j: int| 0 <= j < k ==> ms[j].in_event,
        )
    } else {
        None
    }
}

/// A team's roster: every member in order and the last captain's user name.
/// A member not registered in the event is an error naming that user.
pub fn team_roster(members: &Vec<MemberEntry>) -> (r: Result<Roster, UniError>)
    ensures
        match first_unregistered(members@) {
            Some(k) => r matches Err(UniError::NotFound(m)) && m@ == "EventUser "@
                + members@[k].user_id@ + " not exist"@,
            None => r.is_ok() && r->Ok_0.captain@ == captain_of(members@, members.len() as int)
                && r->Ok_0.members.len() == members.len() && forall|k: int|
                0 <= k < members.len() ==> {
                    let l = #[trigger] r->Ok_0.members@[k];
                    &&& l.username == members@[k].username
                    &&& l.nickname == members@[k].nickname
                    &&& l.role == members@[k].role
                },
        },
{
    let mut captain = String::new();
    let mut lines: Vec<MemberLine> = Vec::new();
    let mut i: usize = 0;
    while i < members.len()
        invariant
            i <= members.len(),
            captain@ == captain_of(members@, i as int),
            lines.len() == i,
            forall|j: int| 0 <= j < i ==> (#[trigger] members@[j]).in_event,
            forall|k: int|
                0 <= k < i ==> {
                    let l = #[trigger] lines@[k];
                    &&& l.username == members@[k].username
                    &&& l.nickname == members@[k].nickname
                    &&& l.role == members@[k].role
                },
        decreases members.len() - i,
    {
        let m = &members[i];
        if m.role == TeamRole::Captain {
            captain = m.username.clone();
        }
        if !m.in_event {
            proof {
                let k = choose|k: int|
                    0 <= k < members@.len() && !members@[k].in_event && forall|j: int|
                        0 <= j < k ==> members@[j].in_event;
                assert(0 <= i < members@.len() && !members@[i as int].in_event && forall|j: int|
                    0 <= j < i ==> members@[j].in_event);
                if k < i {
                    assert(members@[k].in_event);
                }
                if k > i {
                    assert(members@[i as int].in_event);
                }
            }
            let mut msg = String::from_str("EventUser ");
            msg.append(m.user_id.as_str());
            msg.append(" not exist");
            return Err(UniError::NotFound(msg));
        }
        lines.push(
            MemberLine { username: m.username.clone(), nickname: m.nickname.clone(), role: m.role },
        );
        i = i + 1;
    }
    Ok(Roster { captain, members: lines })
}

/// The writeup of an entrant of the report: the stored file's key, if the
/// entrant sent a writeup.
#[derive(Clone, Debug)]
pub struct ReportEntry {
    pub writeup: Option<String>,
}

/// The key shown for a writeup (empty without one).
pub open spec fn shown_key(e: ReportEntry) -> Seq<char> {
    match e.writeup {
        Some(k) => k@,
        None => Seq::empty(),
    }
}

/// Whether anybody sent a writeup.
pub open spec fn any_writeup(es: Seq<ReportEntry>) -> bool {
    exists|k: int| 0 <= k < es.len() && (#[trigger] es[k]).writeup.is_some()
}

/// Which entrants the report keeps, in order: when anybody sent a writeup,
/// those whose writeup key is not empty; otherwise everybody.
pub open spec fn kept_upto(es: Seq<ReportEntry>, any: bool, n: int) -> Seq<usize>
    decreases n,
{
    if n <= 0 {
        Seq::empty()
    } else {
        let p = kept_upto(es, any, n - 1);
        if !any || shown_key(es[n - 1]).len() > 0 {
            p.push((n - 1) as usize)
        } else {
            p
        }
    }
}

/// Where the writeup report of an event is stored: under `writeups/` and
/// the event's id, named by the event's safe title and its id.
pub fn report_key(event_id: u128, title: &str) -> (r: String)
    ensures
        r@ == "writeups/"@ + uuid_text(event_id) + "/"@ + title@.map_values(|c: char| safe_char(c))
            + "_"@ + uuid_text(event_id) + ".zip"@,
{
    let id = uuid_hyphenated(event_id);
    let mut key = String::from_str("writeups/");
    key.append(id.as_str());
    key.append("/");
    let safe = generate_safe_name(title);
    key.append(safe.as_str());
    key.append("_");
    key.append(id.as_str());
    key.append(".zip");
    key
}

/// The entrants the writeup report keeps (their positions, in order).
pub fn report_entrants(entries: &Vec<ReportEntry>) -> (r: Vec<usize>)
    ensures
        r@ == kept_upto(entries@, any_writeup(entries@), entries.len() as int),
{
    let mut any = false;
    let mut i: usize = 0;
    while i < entries.len()
        invariant
            i <= entries.len(),
            any == exists|k: int| 0 <= k < i && (#[trigger] entries@[k]).writeup.is_some(),
        decreases entries.len() - i,
    {
        if entries[i].writeup.is_some() {
            any = true;
        }
        i = i + 1;
    }
    let mut out: Vec<usize> = Vec::new();
    let mut j: usize = 0;
    while j < entries.len()
        invariant
            j <= entries.len(),
            any == any_writeup(entries@),
            out@ == kept_upto(entries@, any, j as int),
        decreases entries.len() - j,
    {
        let keep = match &entries[j].writeup {
            Some(k) => k.as_str().unicode_len() > 0,
            None => false,
        };
        if !any || keep {
            out.push(j);
        }
        j = j + 1;
    }
    out
}

/// The challenges of the data page, most solved first (equal counts keep
/// their order).
pub open spec fn solved_ahead(counts: Seq<u64>, i: int, j: int) -> bool {
    counts[i] > counts[j] || (counts[i] == counts[j] && i < j)
}

/// The order of the challenges on the data page, by their solve counts.
pub fn order_by_solves(counts: &Vec<u64>) -> (r: Vec<usize>)
    ensures
        is_arrangement(r@, counts.len() as int),
        arranged_by(r@, |i: int, j: int| solved_ahead(counts@, i, j)),
{
    let n = counts.len();
    let ghost ahead = |i: int, j: int| solved_ahead(counts@, i, j);
    let before = |a: usize, b: usize| -> (x: bool)
        requires
            a < n && b < n,
        ensures
            x == solved_ahead(counts@, a as int, b as int),
        { counts[a] > counts[b] || (counts[a] == counts[b] && a < b) };
    proof {
        assert(strict_total(ahead, n as int));
    }
    arrange(n, before, Ghost(ahead))
}

/// The first `n` rows of a list (all of them when there are fewer).
pub fn first_rows<T>(rows: Vec<T>, n: usize) -> (r: Vec<T>)
    ensures
        r@ == if rows.len() <= n {
            rows@
        } else {
            rows@.subrange(0, n as int)
        },
{
    let mut rows = rows;
    rows.truncate(n);
    rows
}

} // verus!
