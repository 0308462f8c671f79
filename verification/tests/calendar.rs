use floatctf_api::calendar::{
    ctftime_entry, ctftime_entry_from, duration_hours, event_calendar, internal_entry, join_organizers,
    parse_organizers,
    order_by_start,
    strip_html, InternalEvent, ListedEvent,
};
use floatctf_api::membership::EventType;
use floatctf_api::rss::{parse_rss, rss_items, CtftimeEvent, XmlEvent};
use floatctf_api::scoreboard::Moment;

fn m(secs: i64) -> Moment {
    Moment { secs, nanos: 0 }
}

fn blank_event() -> CtftimeEvent {
    CtftimeEvent {
        title: String::new(),
        url: String::new(),
        ctftime_url: String::new(),
        start_date: String::new(),
        finish_date: String::new(),
        format_text: String::new(),
        weight: String::new(),
        restrictions: String::new(),
        onsite: String::new(),
        location: String::new(),
        organizers: String::new(),
        ctf_id: String::new(),
    }
}

#[test]
fn html_tags_are_removed_and_text_trimmed() {
    assert_eq!(strip_html("  <b>Hello</b> <i>CTF</i>  "), "Hello CTF");
    assert_eq!(strip_html("no tags"), "no tags");
    assert_eq!(strip_html("<p></p>"), "");
    assert_eq!(strip_html("a > b"), "a  b");
}

#[test]
fn durations_truncate_toward_zero() {
    assert_eq!(duration_hours(0, 7199), 1);
    assert_eq!(duration_hours(0, 7200), 2);
    assert_eq!(duration_hours(7199, 0), -1);
    assert_eq!(duration_hours(100, 100), 0);
}

#[test]
fn items_are_read_from_feed_events() {
    let evs = vec![
        XmlEvent::Start("rss".into()),
        XmlEvent::Start("item".into()),
        XmlEvent::Start("title".into()),
        XmlEvent::Text("First".into()),
        XmlEvent::End("title".into()),
        XmlEvent::Text("ignored, no tag".into()),
        XmlEvent::Start("ctf_id".into()),
        XmlEvent::Text("7".into()),
        XmlEvent::End("ctf_id".into()),
        XmlEvent::End("item".into()),
        XmlEvent::Start("title".into()),
        XmlEvent::Text("outside any item".into()),
        XmlEvent::Eof,
        XmlEvent::Start("item".into()),
        XmlEvent::End("item".into()),
    ];
    let items = rss_items(&evs);
    assert_eq!(items.len(), 1);
    assert_eq!(items[0].title, "First");
    assert_eq!(items[0].ctf_id, "7");
    assert_eq!(items[0].url, "");
}

#[test]
fn rss_document_is_parsed() {
    let xml = "<?xml version=\"1.0\"?><rss><channel><title>CTFtime</title>\
        <item><title>&lt;b&gt;Cool&lt;/b&gt; CTF</title><url></url><ctftime_url>/event/1</ctftime_url>\
        <start_date>20250102T030405</start_date><finish_date>20250103T030405</finish_date>\
        <format_text>Jeopardy</format_text><onsite>True</onsite><ctf_id>42</ctf_id></item>\
        <item><title>  Second  </title></item></channel></rss>";
    let items = parse_rss(xml).ok().unwrap();
    assert_eq!(items.len(), 2);
    assert_eq!(items[0].title, "<b>Cool</b> CTF");
    assert_eq!(items[0].ctftime_url, "/event/1");
    assert_eq!(items[0].start_date, "20250102T030405");
    assert_eq!(items[0].ctf_id, "42");
    assert_eq!(items[1].title, "Second");
    assert!(parse_rss("<rss><item><title>x</wrong></item></rss>").is_err());
}

#[test]
fn feed_items_take_only_item_fields() {
    let xml = "<rss><channel><title>CTFtime</title><item><title>Alpha CTF</title><ctf_id>11</ctf_id><weight>25.00</weight></item><item><ctf_id>22</ctf_id></item></channel></rss>";
    let v = parse_rss(xml).ok().unwrap();
    assert_eq!(v.len(), 2);
    assert_eq!(v[0].title, "Alpha CTF");
    assert_eq!(v[0].ctf_id, "11");
    assert_eq!(v[0].weight, "25.00");
    for f in [&v[0].url, &v[0].ctftime_url, &v[0].start_date, &v[0].finish_date, &v[0].format_text,
        &v[0].restrictions, &v[0].onsite, &v[0].location, &v[0].organizers] {
        assert_eq!(f, "");
    }
    assert_eq!(v[1].ctf_id, "22");
    for f in [&v[1].title, &v[1].url, &v[1].ctftime_url, &v[1].start_date, &v[1].finish_date,
        &v[1].format_text, &v[1].weight, &v[1].restrictions, &v[1].onsite, &v[1].location,
        &v[1].organizers] {
        assert_eq!(f, "");
    }
    assert!(v.iter().all(|e| e.title != "CTFtime"));
}

#[test]
fn mismatched_end_tag_is_a_fault() {
    let r = parse_rss("<rss><item><title>A</ctf_id></item></rss>");
    assert!(r.is_err());
    assert!(!r.err().unwrap().message.is_empty());
}

#[test]
fn empty_feed_has_no_items() {
    assert_eq!(parse_rss("").ok().unwrap().len(), 0);
    assert_eq!(parse_rss("<rss><channel></channel></rss>").ok().unwrap().len(), 0);
}

#[test]
fn ctftime_entries() {
    let mut ev = blank_event();
    ev.title = "<b>Cool</b> CTF".into();
    ev.ctftime_url = "/event/1".into();
    ev.start_date = "20250102T030405".into();
    ev.finish_date = "20250103T030405".into();
    ev.onsite = "True".into();
    ev.ctf_id = "42".into();
    ev.format_text = "Jeopardy".into();
    let e = ctftime_entry(&ev, "org1, org2".into(), m(0));
    assert_eq!(e.id, "ctftime_42");
    assert_eq!(e.title, "Cool CTF");
    assert_eq!(e.url, Some("https://ctftime.org/event/1".to_string()));
    assert_eq!(e.start_time, "2025-01-02T03:04:05+00:00");
    assert_eq!(e.end_time, "2025-01-03T03:04:05+00:00");
    assert_eq!(e.duration_hours, 24);
    assert_eq!(e.status, "upcoming");
    assert!(e.onsite);
    assert_eq!(e.organizer, "org1, org2");
    assert_eq!(e.source, "ctftime");
    let running = ctftime_entry(&ev, String::new(), m(1735787045 + 60));
    assert_eq!(running.status, "running");
    let ended = ctftime_entry(&ev, String::new(), m(1735873445 + 1));
    assert_eq!(ended.status, "ended");

    let mut bad = blank_event();
    bad.url = "https://x.org".into();
    bad.start_date = "tomorrow".into();
    let b = ctftime_entry(&bad, String::new(), m(0));
    assert_eq!(b.status, "unknown");
    assert_eq!(b.start_time, "");
    assert_eq!(b.duration_hours, 0);
    assert_eq!(b.url, Some("https://x.org".to_string()));
    assert!(!b.onsite);

    let given = ctftime_entry_from(&ev, Some((0, 3600)), "s".into(), "e".into(), String::new(), m(10));
    assert_eq!(given.status, "running");
    assert_eq!(given.duration_hours, 1);
}

#[test]
fn calendar_is_ordered_by_start_text() {
    let internal = vec![
        InternalEvent {
            id: "b".into(),
            title: "Later".into(),
            description: None,
            kind: EventType::JeopardyTeam,
            start: m(100),
            end: m(200),
            start_text: "2025-05-01T00:00:00+00:00".into(),
            end_text: "2025-05-02T00:00:00+00:00".into(),
        },
        InternalEvent {
            id: "a".into(),
            title: "Earlier".into(),
            description: Some("d".into()),
            kind: EventType::AwdTeam,
            start: m(10),
            end: m(20),
            start_text: "2025-01-01T00:00:00+00:00".into(),
            end_text: "2025-01-02T00:00:00+00:00".into(),
        },
    ];
    let mut ev = blank_event();
    ev.ctf_id = "9".into();
    let listed = vec![ListedEvent { event: ev, organizer: String::new() }];
    let cal = event_calendar(&internal, &listed, m(150));
    assert_eq!(cal.len(), 3);
    // the unreadable CTFtime dates give an empty start, which sorts first
    assert_eq!(cal[0].id, "ctftime_9");
    assert_eq!(cal[1].id, "a");
    assert_eq!(cal[1].format, "AWD (Team)");
    assert_eq!(cal[1].status, "ended");
    assert_eq!(cal[2].id, "b");
    assert_eq!(cal[2].status, "running");
    assert_eq!(cal[2].source, "internal");
    let one = internal_entry(&internal[0], m(0));
    assert_eq!(one.status, "upcoming");
    assert_eq!(one.format, "Jeopardy (Team)");
    assert_eq!(order_by_start(vec![]).len(), 0);
}

#[test]
fn organizer_names_are_joined() {
    let names = vec!["Team A".to_string(), "B".to_string(), "".to_string()];
    assert_eq!(join_organizers(Some(names)), "Team A, B, ");
    assert_eq!(join_organizers(Some(vec!["Solo".to_string()])), "Solo");
    assert_eq!(join_organizers(Some(vec![])), "");
    assert_eq!(join_organizers(None), "");
}

#[test]
fn organizers_field_is_read_and_joined() {
    assert_eq!(parse_organizers(r#"[{"id": 1, "name": "Team A"}, {"name": "B"}]"#), "Team A, B");
    assert_eq!(parse_organizers("[]"), "");
    assert_eq!(parse_organizers("not json"), "");
    assert_eq!(parse_organizers(r#"[{"id": 1}]"#), "");
    assert_eq!(parse_organizers(r#"[{"name": 3}]"#), "");
}
