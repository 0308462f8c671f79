use floatctf_api::ranking::{top_users, PracticeSolve};
use floatctf_api::roster::order_by_solves;
use floatctf_api::scoreboard::{Entrant, Moment};
use floatctf_api::standing::{event_challenge_standings, ChallengeEntry};
use floatctf_api::error::UniError;
use floatctf_api::membership::EventType;
use floatctf_api::scoreboard::EventStatus;

fn m(secs: i64) -> Moment {
    Moment { secs, nanos: 0 }
}

fn user(id: u128, name: &str) -> Entrant {
    Entrant { id, name: name.to_string(), avatar: None }
}

#[test]
fn top_users_by_count_then_latest_solve() {
    let solves = vec![
        PracticeSolve { user: 1, time: m(10) },
        PracticeSolve { user: 2, time: m(11) },
        PracticeSolve { user: 2, time: m(5) },
        PracticeSolve { user: 3, time: m(50) },
        PracticeSolve { user: 1, time: m(40) },
        PracticeSolve { user: 4, time: m(1) },
    ];
    let users = vec![user(1, "a"), user(2, "b"), user(3, "c")];
    let top = top_users(&solves, &users);
    assert_eq!(top.len(), 3);
    assert_eq!(top[0].nickname, "a");
    assert_eq!(top[0].no, 1);
    assert_eq!(top[0].solved_count, 2);
    assert_eq!(top[0].solved_last_at, m(40));
    assert_eq!(top[1].nickname, "b");
    assert_eq!(top[1].solved_last_at, m(11));
    assert_eq!(top[2].nickname, "c");
    assert_eq!(top[2].no, 3);
}

#[test]
fn top_users_shows_at_most_fifteen() {
    let solves: Vec<PracticeSolve> = (0..20u128).map(|u| PracticeSolve { user: u, time: m(u as i64) }).collect();
    let users: Vec<Entrant> = (0..20u128).map(|u| user(u, &format!("u{}", u))).collect();
    let top = top_users(&solves, &users);
    assert_eq!(top.len(), 15);
    // equal counts: the later last solve first
    assert_eq!(top[0].nickname, "u19");
    assert_eq!(top[14].nickname, "u5");
    assert_eq!(top[14].no, 15);
}

#[test]
fn challenges_ordered_by_category_descending() {
    let e = |c: &str, times: Vec<i64>, own: Option<i64>| ChallengeEntry {
        category: c.to_string(),
        solve_times: times.into_iter().map(m).collect(),
        own_solve: own.map(m),
    };
    let entries = vec![e("misc", vec![], None), e("web", vec![5, 1, 9], Some(5)), e("crypto", vec![3], None), e("web", vec![], None)];
    let r = event_challenge_standings(EventStatus::Ongoing, true, EventType::JeopardySingle, false, &entries).unwrap();
    let order: Vec<usize> = r.iter().map(|s| s.entry).collect();
    assert_eq!(order, vec![1, 3, 0, 2]);
    assert_eq!(r[0].solved_count, 3);
    assert!(r[0].solved);
    assert_eq!(r[0].solved_no, 2);
    assert!(!r[1].solved);
    assert_eq!(r[1].solved_no, 0);
}

#[test]
fn challenge_list_is_refused_when_it_must_be() {
    let entries = vec![ChallengeEntry { category: "web".into(), solve_times: vec![], own_solve: None }];
    let msg = |r: Result<Vec<floatctf_api::standing::ChallengeStanding>, UniError>| match r {
        Err(UniError::CustomError(m)) => m,
        Err(UniError::NotFound(m)) => format!("404 {}", m),
        _ => "ok".to_string(),
    };
    assert_eq!(msg(event_challenge_standings(EventStatus::NotStarted, true, EventType::JeopardySingle, false, &entries)), "Event is not start");
    assert_eq!(msg(event_challenge_standings(EventStatus::Ended, false, EventType::JeopardySingle, false, &entries)), "not joined");
    assert_eq!(msg(event_challenge_standings(EventStatus::Ended, true, EventType::AwdTeam, false, &entries)), "event type not supported");
    assert_eq!(msg(event_challenge_standings(EventStatus::Ended, true, EventType::JeopardyTeam, false, &entries)), "404 you are not in any team");
    assert_eq!(msg(event_challenge_standings(EventStatus::Ended, true, EventType::JeopardyTeam, true, &entries)), "ok");
    assert_eq!(msg(event_challenge_standings(EventStatus::Ended, true, EventType::AwdTeam, false, &vec![])), "ok");
}

#[test]
fn data_page_orders_by_solves() {
    assert_eq!(order_by_solves(&vec![3, 9, 3, 0, 9]), vec![1, 4, 0, 2, 3]);
}
