use floatctf_api::error::UniError;
use floatctf_api::membership::{
    check_create_team, check_join_event, check_join_team, check_leave_event, check_leave_team,
    counted_teams, own_writeup_key, own_writeup_owner, plan_quit_team, share_base, EventType,
    QuitAction, TeamRole, WriteupOwner,
};
use floatctf_api::scoreboard::EventStatus;

fn custom(r: Result<(), UniError>) -> String {
    match r {
        Err(UniError::CustomError(m)) => m,
        Err(UniError::NotFound(m)) => format!("404 {}", m),
        Err(_) => "other".into(),
        Ok(()) => "ok".into(),
    }
}

#[test]
fn creating_a_team() {
    assert_eq!(custom(check_create_team(EventStatus::Ongoing, false)), "Event has not yet begun");
    assert_eq!(custom(check_create_team(EventStatus::NotStarted, true)), "already joined team");
    assert_eq!(custom(check_create_team(EventStatus::NotStarted, false)), "ok");
}

#[test]
fn quitting_and_leaving_teams() {
    assert_eq!(plan_quit_team(Some(TeamRole::Captain)).unwrap(), QuitAction::DeleteTeam);
    assert_eq!(plan_quit_team(Some(TeamRole::Member)).unwrap(), QuitAction::DeleteMember);
    assert!(matches!(plan_quit_team(None), Err(UniError::NotFound(m)) if m == "You are not of the team"));
    assert_eq!(custom(check_leave_team(Some(TeamRole::Captain))), "Captain can't leave team");
    assert_eq!(custom(check_leave_team(Some(TeamRole::Member))), "ok");
    assert_eq!(custom(check_leave_team(None)), "404 You are not of the team");
}

#[test]
fn joining_teams_and_events() {
    assert_eq!(custom(check_join_team(true, true)), "already joined team");
    assert_eq!(custom(check_join_team(false, false)), "404 team not found");
    assert_eq!(custom(check_join_team(false, true)), "ok");
    assert_eq!(custom(check_join_event(false, EventStatus::NotStarted)), "event not allow join");
    assert_eq!(custom(check_join_event(true, EventStatus::Ended)), "Event has not yet begun");
    assert_eq!(custom(check_join_event(true, EventStatus::NotStarted)), "ok");
    assert_eq!(custom(check_leave_event(false, EventStatus::NotStarted, true)), "event not allow leave");
    assert_eq!(custom(check_leave_event(true, EventStatus::Ongoing, true)), "Event has not yet begun");
    assert_eq!(custom(check_leave_event(true, EventStatus::NotStarted, false)), "404 event user not found");
    assert_eq!(custom(check_leave_event(true, EventStatus::NotStarted, true)), "ok");
}

#[test]
fn data_page_counts() {
    assert_eq!(counted_teams(EventType::JeopardyTeam, 4), 4);
    assert_eq!(counted_teams(EventType::JeopardySingle, 4), 0);
    assert_eq!(share_base(EventType::JeopardyTeam, 10, 4), 4);
    assert_eq!(share_base(EventType::AwdTeam, 10, 4), 10);
}

#[test]
fn own_writeups() {
    assert_eq!(own_writeup_owner(EventType::JeopardyPractice, 1, None).unwrap(), None);
    assert_eq!(own_writeup_owner(EventType::JeopardySingle, 1, Some(9)).unwrap(), Some(WriteupOwner::User(1)));
    assert_eq!(own_writeup_owner(EventType::JeopardyTeam, 1, Some(9)).unwrap(), Some(WriteupOwner::Team(9)));
    assert!(matches!(own_writeup_owner(EventType::AwdTeam, 1, None), Err(UniError::CustomError(m)) if m == "This member has no team!"));
    assert_eq!(own_writeup_key(Some("k.pdf".into())).unwrap(), "k.pdf");
    assert!(matches!(own_writeup_key(None), Err(UniError::NotFound(m)) if m == "Has no wp"));
}
