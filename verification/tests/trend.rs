use floatctf_api::scoreboard::{Moment, NamedItem};
use floatctf_api::trend::{event_trend, owners_in_order, solve_moments, TrendSolve};

fn m(secs: i64) -> Moment {
    Moment { secs, nanos: 0 }
}

fn s(owner: u128, challenge: u128, t: i64) -> TrendSolve {
    TrendSolve { owner, challenge, time: m(t) }
}

#[test]
fn moments_are_sorted_and_distinct() {
    let v = vec![s(1, 10, 30), s(2, 10, 10), s(1, 11, 30), s(3, 12, 20)];
    assert_eq!(solve_moments(&v), vec![m(10), m(20), m(30)]);
    assert_eq!(owners_in_order(&v), vec![1, 2, 3]);
}

#[test]
fn every_line_has_a_mark_per_moment_and_each_solve_counts_once() {
    let v = vec![s(1, 10, 10), s(2, 10, 20), s(1, 11, 20), s(1, 12, 20)];
    let cat = vec![NamedItem { id: 10, name: "a".into() }, NamedItem { id: 11, name: "b".into() }];
    let names = vec![NamedItem { id: 1, name: "alice".into() }, NamedItem { id: 2, name: "bob".into() }];
    let lines = event_trend(&v, &cat, &names);
    assert_eq!(lines.len(), 2);
    assert_eq!(lines[0].name, "alice");
    assert_eq!(lines[0].marks.len(), 2);
    assert_eq!(lines[0].marks[0].solves, vec![0]);
    assert_eq!(lines[0].marks[0].name, "a");
    assert_eq!(lines[0].marks[1].solves, vec![2, 3]);
    assert_eq!(lines[0].marks[1].name, "b");
    assert_eq!(lines[1].name, "bob");
    assert!(lines[1].marks[0].solves.is_empty());
    assert_eq!(lines[1].marks[0].name, "");
    assert_eq!(lines[1].marks[1].solves, vec![1]);
    // each solve is counted at exactly one mark of its owner's line
    for (j, sv) in v.iter().enumerate() {
        let line = lines.iter().find(|l| l.owner == sv.owner).unwrap();
        let hits = line.marks.iter().filter(|mk| mk.solves.contains(&j)).count();
        assert_eq!(hits, 1);
    }
}

#[test]
fn unknown_challenge_names_are_empty() {
    let v = vec![s(1, 99, 10)];
    let names = vec![NamedItem { id: 1, name: "alice".into() }];
    let lines = event_trend(&v, &vec![], &names);
    assert_eq!(lines[0].marks[0].name, "");
    assert!(event_trend(&vec![], &vec![], &names).is_empty());
}
