use floatctf_api::error::UniError;
use floatctf_api::membership::{entrant_kind, EntrantKind, EventType};
use floatctf_api::scoreboard::{
    event_status, rank_of, single_scoreboard, team_scoreboard, visible_scoreboard, Entrant,
    EventStatus, Moment, NamedItem, SolveEntry,
};

fn m(secs: i64) -> Moment {
    Moment { secs, nanos: 0 }
}

fn item(id: u128, name: &str) -> NamedItem {
    NamedItem { id, name: name.to_string() }
}

fn who(id: u128, name: &str) -> Entrant {
    Entrant { id, name: name.to_string(), avatar: None }
}

fn solve(owner: u128, challenge: u128) -> SolveEntry {
    SolveEntry { owner, challenge }
}

#[test]
fn event_status_by_time() {
    assert_eq!(event_status(m(5), m(10), m(20)), EventStatus::NotStarted);
    assert_eq!(event_status(m(10), m(10), m(20)), EventStatus::Ongoing);
    assert_eq!(event_status(m(20), m(10), m(20)), EventStatus::Ongoing);
    assert_eq!(event_status(Moment { secs: 20, nanos: 1 }, m(10), m(20)), EventStatus::Ended);
}

#[test]
fn solve_places_count_earlier_solves_of_the_challenge() {
    // ordered by challenge, then time
    let s = vec![solve(1, 100), solve(2, 100), solve(1, 100), solve(3, 100), solve(2, 200)];
    assert_eq!(rank_of(&s, 1, 100), (true, 1));
    assert_eq!(rank_of(&s, 2, 100), (true, 2));
    assert_eq!(rank_of(&s, 3, 100), (true, 4));
    assert_eq!(rank_of(&s, 2, 200), (true, 1));
    assert_eq!(rank_of(&s, 1, 200), (false, 0));
}

#[test]
fn team_scoreboard_rows() {
    let teams = vec![who(7, "red"), who(8, "blue")];
    let cat = vec![item(100, "pwn1"), item(200, "web1")];
    let ids = vec![200u128, 100];
    let s = vec![solve(8, 100), solve(7, 100), solve(8, 200)];
    let rows = team_scoreboard(&teams, &ids, &cat, &s).unwrap();
    assert_eq!(rows.len(), 2);
    assert_eq!(rows[0].no, 1);
    assert_eq!(rows[0].name, "red");
    assert_eq!(rows[0].solved_count, 1);
    assert_eq!(rows[0].challenges[0].name, "web1");
    assert!(!rows[0].challenges[0].solved);
    assert_eq!(rows[0].challenges[1].solved_no, 2);
    assert_eq!(rows[1].no, 2);
    assert_eq!(rows[1].solved_count, 2);
    assert_eq!(rows[1].challenges[0].solved_no, 1);
    assert_eq!(rows[1].challenges[1].solved_no, 1);
}

#[test]
fn team_scoreboard_missing_challenge() {
    let teams = vec![who(7, "red")];
    let r = team_scoreboard(&teams, &vec![999u128], &vec![item(1, "a")], &vec![]);
    match r {
        Err(UniError::NotFound(m)) => assert_eq!(m, "challenge not found"),
        _ => panic!("expected not found"),
    }
    // without teams there is nothing to look up
    assert!(team_scoreboard(&vec![], &vec![999u128], &vec![], &vec![]).unwrap().is_empty());
}

#[test]
fn single_scoreboard_errors_in_order() {
    let users = vec![Entrant { id: 1, name: "alice".to_string(), avatar: Some("a.png".to_string()) }];
    let cat = vec![item(100, "pwn1")];
    // first user missing
    match single_scoreboard(&vec![2u128], &users, &vec![100u128], &cat, &vec![]) {
        Err(UniError::NotFound(m)) => assert_eq!(m, "user not found"),
        _ => panic!(),
    }
    // challenge missing
    match single_scoreboard(&vec![1u128, 2], &users, &vec![555u128], &cat, &vec![]) {
        Err(UniError::NotFound(m)) => assert_eq!(m, "challenge not found"),
        _ => panic!(),
    }
    // a later user missing
    match single_scoreboard(&vec![1u128, 2], &users, &vec![100u128], &cat, &vec![]) {
        Err(UniError::NotFound(m)) => assert_eq!(m, "user not found"),
        _ => panic!(),
    }
    let rows = single_scoreboard(&vec![1u128], &users, &vec![100u128], &cat, &vec![solve(1, 100)]).unwrap();
    assert_eq!(rows[0].name, "alice");
    assert_eq!(rows[0].avatar, Some("a.png".to_string()));
    assert_eq!(rows[0].solved_count, 1);
    assert!(single_scoreboard(&vec![], &users, &vec![], &cat, &vec![]).unwrap().is_empty());
}

#[test]
fn scoreboard_hides_challenges_before_start() {
    let teams = vec![who(7, "red")];
    let cat = vec![item(100, "pwn1")];
    let rows = team_scoreboard(&teams, &vec![100u128], &cat, &vec![]).unwrap();
    let hidden = visible_scoreboard(rows.clone(), EventStatus::NotStarted);
    assert!(hidden[0].challenges.is_empty());
    assert_eq!(hidden[0].name, "red");
    let shown = visible_scoreboard(rows, EventStatus::Ongoing);
    assert_eq!(shown[0].challenges.len(), 1);
}

#[test]
fn scoreboards_exist_for_single_and_team_events_only() {
    assert_eq!(entrant_kind(EventType::JeopardySingle).unwrap(), EntrantKind::Users);
    assert_eq!(entrant_kind(EventType::JeopardyTeam).unwrap(), EntrantKind::Teams);
    match entrant_kind(EventType::AwdTeam) {
        Err(UniError::CustomError(m)) => assert_eq!(m, "event type not supported"),
        _ => panic!(),
    }
    assert!(entrant_kind(EventType::JeopardyPractice).is_err());
}
