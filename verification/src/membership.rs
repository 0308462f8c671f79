//! Who may join or leave an event or a team, and when.

use vstd::prelude::*;
use crate::error::UniError;
use crate::scoreboard::EventStatus;

verus! {

/// The kinds of event.
#[derive(Clone, Copy, Debug, PartialEq, Eq, Structural)]
pub enum EventType {
    JeopardyPractice,
    JeopardySingle,
    JeopardyTeam,
    AwdTeam,
}

/// The role of a member in a team.
#[derive(Clone, Copy, Debug, PartialEq, Eq, Structural)]
pub enum TeamRole {
    Captain,
    Member,
}

/// The body of a request that creates a team.
#[derive(Clone, Debug)]
pub struct CreateUserTeam {
    pub name: String,
}

/// What leaving a team removes.
#[derive(Clone, Copy, Debug, PartialEq, Eq, Structural)]
pub enum QuitAction {
    /// A captain leaving dissolves the whole team.
    DeleteTeam,
    /// Any other member only leaves it.
    DeleteMember,
}

/// Whether `e` is `CustomError` with the message `m`.
pub open spec fn is_custom(e: UniError, m: Seq<char>) -> bool {
    e matches UniError::CustomError(x) && x@ == m
}

/// Whether `e` is `NotFound` with the message `m`.
pub open spec fn is_missing(e: UniError, m: Seq<char>) -> bool {
    e matches UniError::NotFound(x) && x@ == m
}

fn custom(m: &str) -> (r: UniError)
    ensures
        is_custom(r, m@),
{
    UniError::CustomError(String::from_str(m))
}

fn missing(m: &str) -> (r: UniError)
    ensures
        is_missing(r, m@),
{
    UniError::NotFound(String::from_str(m))
}

/// Creating a team: only before the event starts, and only by a user that
/// has not joined the event yet.
pub fn check_create_team(status: EventStatus, already_joined: bool) -> (r: Result<(), UniError>)
    ensures
        status != EventStatus::NotStarted ==> r.is_err() && is_custom(
            r->Err_0,
            "Event has not yet begun"@,
        ),
        status == EventStatus::NotStarted && already_joined ==> r.is_err() && is_custom(
            r->Err_0,
            "already joined team"@,
        ),
        status == EventStatus::NotStarted && !already_joined ==> r.is_ok(),
{
    if status != EventStatus::NotStarted {
        return Err(custom("Event has not yet begun"));
    }
    if already_joined {
        return Err(custom("already joined team"));
    }
    Ok(())
}

/// Quitting a team: the user must be a member; a captain dissolves the team.
pub fn plan_quit_team(role: Option<TeamRole>) -> (r: Result<QuitAction, UniError>)
    ensures
        role.is_none() ==> r.is_err() && is_missing(r->Err_0, "You are not of the team"@),
        role == Some(TeamRole::Captain) ==> r == Ok::<QuitAction, UniError>(QuitAction::DeleteTeam),
        role == Some(TeamRole::Member) ==> r == Ok::<QuitAction, UniError>(QuitAction::DeleteMember),
{
    match role {
        None => Err(missing("You are not of the team")),
        Some(TeamRole::Captain) => Ok(QuitAction::DeleteTeam),
        Some(TeamRole::Member) => Ok(QuitAction::DeleteMember),
    }
}

/// Joining a team: not twice, and only a team that exists.
pub fn check_join_team(already_member: bool, team_exists: bool) -> (r: Result<(), UniError>)
    ensures
        already_member ==> r.is_err() && is_custom(r->Err_0, "already joined team"@),
        !already_member && !team_exists ==> r.is_err() && is_missing(r->Err_0, "team not found"@),
        !already_member && team_exists ==> r.is_ok(),
{
    if already_member {
        return Err(custom("already joined team"));
    }
    if !team_exists {
        return Err(missing("team not found"));
    }
    Ok(())
}

/// Leaving a team without quitting the event: members may, captains may not.
pub fn check_leave_team(role: Option<TeamRole>) -> (r: Result<(), UniError>)
    ensures
        role.is_none() ==> r.is_err() && is_missing(r->Err_0, "You are not of the team"@),
        role == Some(TeamRole::Captain) ==> r.is_err() && is_custom(
            r->Err_0,
            "Captain can't leave team"@,
        ),
        role == Some(TeamRole::Member) ==> r.is_ok(),
{
    match role {
        None => Err(missing("You are not of the team")),
        Some(TeamRole::Captain) => Err(custom("Captain can't leave team")),
        Some(TeamRole::Member) => Ok(()),
    }
}

/// Joining an event: only one that allows it, and only before it starts.
pub fn check_join_event(allow_join: bool, status: EventStatus) -> (r: Result<(), UniError>)
    ensures
        !allow_join ==> r.is_err() && is_custom(r->Err_0, "event not allow join"@),
        allow_join && status != EventStatus::NotStarted ==> r.is_err() && is_custom(
            r->Err_0,
            "Event has not yet begun"@,
        ),
        allow_join && status == EventStatus::NotStarted ==> r.is_ok(),
{
    if !allow_join {
        return Err(custom("event not allow join"));
    }
    if status != EventStatus::NotStarted {
        return Err(custom("Event has not yet begun"));
    }
    Ok(())
}

/// Leaving an event: only one that allows joining, only before it starts,
/// and only by a user that joined it.
pub fn check_leave_event(allow_join: bool, status: EventStatus, joined: bool) -> (r: Result<
    (),
    UniError,
>)
    ensures
        !allow_join ==> r.is_err() && is_custom(r->Err_0, "event not allow leave"@),
        allow_join && status != EventStatus::NotStarted ==> r.is_err() && is_custom(
            r->Err_0,
            "Event has not yet begun"@,
        ),
        allow_join && status == EventStatus::NotStarted && !joined ==> r.is_err() && is_missing(
            r->Err_0,
            "event user not found"@,
        ),
        allow_join && status == EventStatus::NotStarted && joined ==> r.is_ok(),
{
    if !allow_join {
        return Err(custom("event not allow leave"));
    }
    if status != EventStatus::NotStarted {
        return Err(custom("Event has not yet begun"));
    }
    if !joined {
        return Err(missing("event user not found"));
    }
    Ok(())
}

/// Which entrants a scoreboard or a trend is about.
#[derive(Clone, Copy, Debug, PartialEq, Eq, Structural)]
pub enum EntrantKind {
    Users,
    Teams,
}

/// Single-player events rank users, team events rank teams; other kinds of
/// event have no scoreboard.
pub fn entrant_kind(t: EventType) -> (r: Result<EntrantKind, UniError>)
    ensures
        t == EventType::JeopardySingle ==> r == Ok::<EntrantKind, UniError>(EntrantKind::Users),
        t == EventType::JeopardyTeam ==> r == Ok::<EntrantKind, UniError>(EntrantKind::Teams),
        t != EventType::JeopardySingle && t != EventType::JeopardyTeam ==> r.is_err() && is_custom(
            r->Err_0,
            "event type not supported"@,
        ),
{
    match t {
        EventType::JeopardySingle => Ok(EntrantKind::Users),
        EventType::JeopardyTeam => Ok(EntrantKind::Teams),
        _ => Err(custom("event type not supported")),
    }
}

/// The data page counts teams only for team events (0 otherwise).
pub fn counted_teams(t: EventType, teams: u64) -> (r: u64)
    ensures
        r == if t == EventType::JeopardyTeam {
            teams
        } else {
            0
        },
{
    if t == EventType::JeopardyTeam {
        teams
    } else {
        0
    }
}

/// What a challenge's solve share is taken of: the teams in a team event,
/// the users otherwise.
pub fn share_base(t: EventType, users: u64, teams: u64) -> (r: u64)
    ensures
        r == if t == EventType::JeopardyTeam {
            teams
        } else {
            users
        },
{
    if t == EventType::JeopardyTeam {
        teams
    } else {
        users
    }
}

/// Whose writeup a participant's "own writeup" is.
#[derive(Clone, Copy, Debug, PartialEq, Eq, Structural)]
pub enum WriteupOwner {
    User(u128),
    Team(u128),
}

/// Whose writeup to look up for `user` (`team` is the user's team, if any):
/// none in the practice event, the user's own in single-player events, the
/// team's in team events, where a user without a team is refused.
pub fn own_writeup_owner(t: EventType, user: u128, team: Option<u128>) -> (r: Result<
    Option<WriteupOwner>,
    UniError,
>)
    ensures
        t == EventType::JeopardyPractice ==> r == Ok::<Option<WriteupOwner>, UniError>(None),
        t == EventType::JeopardySingle ==> r == Ok::<Option<WriteupOwner>, UniError>(
            Some(WriteupOwner::User(user)),
        ),
        (t == EventType::JeopardyTeam || t == EventType::AwdTeam) && team.is_some() ==> r == Ok::<
            Option<WriteupOwner>,
            UniError,
        >(Some(WriteupOwner::Team(team.unwrap()))),
        (t == EventType::JeopardyTeam || t == EventType::AwdTeam) && team.is_none() ==> r.is_err()
            && is_custom(r->Err_0, "This member has no team!"@),
{
    match t {
        EventType::JeopardyPractice => Ok(None),
        EventType::JeopardySingle => Ok(Some(WriteupOwner::User(user))),
        _ => match team {
            Some(id) => Ok(Some(WriteupOwner::Team(id))),
            None => Err(custom("This member has no team!")),
        },
    }
}

/// A participant's own writeup: its stored key, or "Has no wp" when there is
/// none.
pub fn own_writeup_key(found: Option<String>) -> (r: Result<String, UniError>)
    ensures
        found.is_some() ==> r == Ok::<String, UniError>(found.unwrap()),
        found.is_none() ==> r.is_err() && is_missing(r->Err_0, "Has no wp"@),
{
    match found {
        Some(k) => Ok(k),
        None => Err(missing("Has no wp")),
    }
}

} // verus!
