//! The event calendar: the platform's own events and those CTFtime lists,
//! as one list ordered by start time.

use vstd::prelude::*;
use crate::text::{chars_of, string_from_chars, trim, trimmed};
use crate::scoreboard::{Moment, EventStatus, earlier, status_at, event_status};
use crate::membership::EventType;
use crate::rss::CtftimeEvent;
use crate::order::{strict_total, is_arrangement, arranged_by, arrange, text_less, text_is_less,
    lemma_text_less_irreflexive, lemma_text_less_transitive, lemma_text_less_total};

verus! {

/// An entry of the calendar.
#[derive(Clone, Debug)]
pub struct CalendarEvent {
    pub id: String,
    pub title: String,
    pub description: Option<String>,
    pub url: Option<String>,
    pub start_time: String,
    pub end_time: String,
    pub duration_hours: i64,
    pub format: String,
    pub location: String,
    pub onsite: bool,
    pub organizer: String,
    /// "internal" or "ctftime".
    pub source: String,
    /// "upcoming", "running", "ended" or "unknown".
    pub status: String,
}

/// One of the platform's own events, as the calendar needs it.
#[derive(Clone, Debug)]
pub struct InternalEvent {
    pub id: String,
    pub title: String,
    pub description: Option<String>,
    pub kind: EventType,
    pub start: Moment,
    pub end: Moment,
    /// The start and end in RFC 3339.
    pub start_text: String,
    pub end_text: String,
}

/// `s` without what stands between `<` and `>` (the brackets included);
/// `inside` tells whether the scan starts inside a tag.
pub open spec fn untagged(s: Seq<char>, inside: bool) -> Seq<char>
    decreases s.len(),
{
    if s.len() == 0 {
        Seq::empty()
    } else if s[0] == '<' {
        untagged(s.drop_first(), true)
    } else if s[0] == '>' {
        untagged(s.drop_first(), false)
    } else if !inside {
        seq![s[0]] + untagged(s.drop_first(), inside)
    } else {
        untagged(s.drop_first(), inside)
    }
}

/// The text of `text` without HTML tags, trimmed.
pub fn strip_html(text: &str) -> (r: String)
    ensures
        r@ == trim(untagged(text@, false)),
{
    let cs = chars_of(text);
    let mut out: Vec<char> = Vec::new();
    let mut inside = false;
    let mut i: usize = 0;
    proof {
        assert(cs@.skip(0) == cs@);
    }
    while i < cs.len()
        invariant
            cs@ == text@,
            i <= cs.len(),
            out@ + untagged(cs@.skip(i as int), inside) == untagged(text@, false),
        decreases cs.len() - i,
    {
        let c = cs[i];
        proof {
            assert(cs@.skip(i as int)[0] == c);
            assert(cs@.skip(i as int).drop_first() == cs@.skip(i + 1));
        }
        if c == '<' {
            inside = true;
        } else if c == '>' {
            inside = false;
        } else if !inside {
            proof {
                assert(out@.push(c) + untagged(cs@.skip(i + 1), inside) == out@ + (seq![c]
                    + untagged(cs@.skip(i + 1), inside)));
            }
            out.push(c);
        }
        i = i + 1;
    }
    proof {
        assert(cs@.skip(i as int) == Seq::<char>::empty());
        assert(out@ + Seq::<char>::empty() == out@);
    }
    let s = string_from_chars(&out);
    trimmed(s.as_str())
}

/// Whole hours from `start` to `end` (seconds), truncated toward zero.
pub open spec fn hours_between(start: i64, end: i64) -> int {
    let d = end - start;
    if d >= 0 {
        d / 3600
    } else {
        -((-d) / 3600)
    }
}

pub fn duration_hours(start: i64, end: i64) -> (r: i64)
    ensures
        r == hours_between(start, end),
{
    let d: i128 = end as i128 - start as i128;
    let q: i128 = if d >= 0 {
        d / 3600
    } else {
        -((-d) / 3600)
    };
    q as i64
}

/// The word for an event's phase.
pub open spec fn status_word(s: EventStatus) -> Seq<char> {
    match s {
        EventStatus::NotStarted => "upcoming"@,
        EventStatus::Ongoing => "running"@,
        EventStatus::Ended => "ended"@,
    }
}

fn status_text(s: EventStatus) -> (r: String)
    ensures
        r@ == status_word(s),
{
    match s {
        EventStatus::NotStarted => String::from_str("upcoming"),
        EventStatus::Ongoing => String::from_str("running"),
        EventStatus::Ended => String::from_str("ended"),
    }
}

/// How the calendar names a kind of event.
pub open spec fn format_name(t: EventType) -> Seq<char> {
    match t {
        EventType::JeopardySingle => "Jeopardy (Single)"@,
        EventType::JeopardyTeam => "Jeopardy (Team)"@,
        EventType::JeopardyPractice => "Jeopardy (Practice)"@,
        EventType::AwdTeam => "AWD (Team)"@,
    }
}

fn format_text(t: EventType) -> (r: String)
    ensures
        r@ == format_name(t),
{
    match t {
        EventType::JeopardySingle => String::from_str("Jeopardy (Single)"),
        EventType::JeopardyTeam => String::from_str("Jeopardy (Team)"),
        EventType::JeopardyPractice => String::from_str("Jeopardy (Practice)"),
        EventType::AwdTeam => String::from_str("AWD (Team)"),
    }
}

fn clone_opt(a: &Option<String>) -> (r: Option<String>)
    ensures
        r == *a,
{
    match a {
        Some(s) => Some(s.clone()),
        None => None,
    }
}

/// What the calendar entry of one of the platform's own events holds at `now`.
pub open spec fn internal_entry_ok(r: CalendarEvent, ev: InternalEvent, now: Moment) -> bool {
    &&& r.id@ == ev.id@
    &&& r.title@ == ev.title@
    &&& r.description == ev.description
    &&& r.url.is_none()
    &&& r.start_time@ == ev.start_text@
    &&& r.end_time@ == ev.end_text@
    &&& r.duration_hours == hours_between(ev.start.secs, ev.end.secs)
    &&& r.format@ == format_name(ev.kind)
    &&& r.location@ == Seq::<char>::empty()
    &&& !r.onsite
    &&& r.organizer@ == Seq::<char>::empty()
    &&& r.source@ == "internal"@
    &&& r.status@ == status_word(status_at(now, ev.start, ev.end))
}

/// The calendar entry of one of the platform's own events at `now`.
pub fn internal_entry(ev: &InternalEvent, now: Moment) -> (r: CalendarEvent)
    ensures
        internal_entry_ok(r, *ev, now),
{
    CalendarEvent {
        id: ev.id.clone(),
        title: ev.title.clone(),
        description: clone_opt(&ev.description),
        url: None,
        start_time: ev.start_text.clone(),
        end_time: ev.end_text.clone(),
        duration_hours: duration_hours(ev.start.secs, ev.end.secs),
        format: format_text(ev.kind),
        location: String::new(),
        onsite: false,
        organizer: String::new(),
        source: String::from_str("internal"),
        status: status_text(event_status(now, ev.start, ev.end)),
    }
}

/// The moment (seconds, UTC) that a CTFtime date `YYYYMMDDTHHMMSS` denotes.
pub uninterp spec fn ctftime_seconds(s: Seq<char>) -> Option<i64>;

/// RFC 3339 text of a moment given in seconds, in UTC.
pub uninterp spec fn rfc3339_utc(secs: i64) -> Seq<char>;

/// Reads a CTFtime date (chrono's `NaiveDateTime::parse_from_str` with the
/// format `%Y%m%dT%H%M%S`, taken as UTC); the result is named, not stated.
#[verifier::external_body]
fn parse_ctftime_date(s: &str) -> (r: Option<i64>)
    ensures
        r == ctftime_seconds(s@),
{
    chrono::NaiveDateTime::parse_from_str(s, "%Y%m%dT%H%M%S").ok().map(|n| n.and_utc().timestamp())
}

/// Writes a UTC moment in RFC 3339 (chrono's `DateTime::to_rfc3339`); the
/// result is named, not stated.
#[verifier::external_body]
fn rfc3339_text(secs: i64) -> (r: String)
    ensures
        r@ == rfc3339_utc(secs),
{
    chrono::DateTime::from_timestamp(secs, 0).map(|d| d.to_rfc3339()).unwrap_or_default()
}

/// The phase of a CTFtime event from its start and finish (seconds) at `now`.
pub open spec fn ctftime_status(now: Moment, start: i64, finish: i64) -> EventStatus {
    status_at(now, Moment { secs: start, nanos: 0 }, Moment { secs: finish, nanos: 0 })
}

/// What a CTFtime entry holds, given the moments read from its dates (both,
/// or `None`), the RFC 3339 texts of those moments, and its organizers.
pub open spec fn ctftime_entry_ok(
    r: CalendarEvent,
    ev: CtftimeEvent,
    times: Option<(i64, i64)>,
    start_text: Seq<char>,
    end_text: Seq<char>,
    organizer: Seq<char>,
    now: Moment,
) -> bool {
    &&& r.id@ == "ctftime_"@ + ev.ctf_id@
    &&& r.title@ == trim(untagged(ev.title@, false))
    &&& r.description.is_none()
    &&& r.url.is_some()
    &&& r.url.unwrap()@ == if ev.url@.len() == 0 {
        "https://ctftime.org"@ + ev.ctftime_url@
    } else {
        ev.url@
    }
    &&& r.format@ == ev.format_text@
    &&& r.location@ == ev.location@
    &&& r.onsite == (ev.onsite@ == "True"@)
    &&& r.organizer@ == organizer
    &&& r.source@ == "ctftime"@
    &&& match times {
        Some((s, f)) => {
            &&& r.start_time@ == start_text
            &&& r.end_time@ == end_text
            &&& r.duration_hours == hours_between(s, f)
            &&& r.status@ == status_word(ctftime_status(now, s, f))
        },
        None => {
            &&& r.start_time@ == Seq::<char>::empty()
            &&& r.end_time@ == Seq::<char>::empty()
            &&& r.duration_hours == 0
            &&& r.status@ == "unknown"@
        },
    }
}

/// The calendar entry of a CTFtime event, given what was read of its dates.
pub fn ctftime_entry_from(
    ev: &CtftimeEvent,
    times: Option<(i64, i64)>,
    start_text: String,
    end_text: String,
    organizer: String,
    now: Moment,
) -> (r: CalendarEvent)
    ensures
        ctftime_entry_ok(r, *ev, times, start_text@, end_text@, organizer@, now),
{
    let mut id = String::from_str("ctftime_");
    id.append(ev.ctf_id.as_str());
    let url = if ev.url.as_str().unicode_len() == 0 {
        let mut u = String::from_str("https://ctftime.org");
        u.append(ev.ctftime_url.as_str());
        u
    } else {
        ev.url.clone()
    };
    let onsite = crate::text::str_equals(ev.onsite.as_str(), "True");
    let (st, et, dur, status) = match times {
        Some((s, f)) => (
            start_text,
            end_text,
            duration_hours(s, f),
            status_text(
                event_status(now, Moment { secs: s, nanos: 0 }, Moment { secs: f, nanos: 0 }),
            ),
        ),
        None => (String::new(), String::new(), 0i64, String::from_str("unknown")),
    };
    CalendarEvent {
        id,
        title: strip_html(ev.title.as_str()),
        description: None,
        url: Some(url),
        start_time: st,
        end_time: et,
        duration_hours: dur,
        format: ev.format_text.clone(),
        location: ev.location.clone(),
        onsite,
        organizer,
        source: String::from_str("ctftime"),
        status,
    }
}

/// The moments of a CTFtime event's dates, when both can be read.
pub open spec fn ctftime_times(ev: CtftimeEvent) -> Option<(i64, i64)> {
    match (ctftime_seconds(ev.start_date@), ctftime_seconds(ev.finish_date@)) {
        (Some(s), Some(f)) => Some((s, f)),
        _ => None,
    }
}

/// The calendar entry of a CTFtime event at `now`, with its organizers.
pub fn ctftime_entry(ev: &CtftimeEvent, organizer: String, now: Moment) -> (r: CalendarEvent)
    ensures
        ctftime_entry_ok(
            r,
            *ev,
            ctftime_times(*ev),
            match ctftime_times(*ev) {
                Some((s, f)) => rfc3339_utc(s),
                None => Seq::empty(),
            },
            match ctftime_times(*ev) {
                Some((s, f)) => rfc3339_utc(f),
                None => Seq::empty(),
            },
            organizer@,
            now,
        ),
{
    let start = parse_ctftime_date(ev.start_date.as_str());
    let finish = parse_ctftime_date(ev.finish_date.as_str());
    match (start, finish) {
        (Some(s), Some(f)) => {
            let st = rfc3339_text(s);
            let et = rfc3339_text(f);
            ctftime_entry_from(ev, Some((s, f)), st, et, organizer, now)
        },
        _ => ctftime_entry_from(ev, None, String::new(), String::new(), organizer, now),
    }
}

/// Start times earlier in lexicographic order first; entries with the same
/// start keep their order.
pub open spec fn start_ahead(starts: Seq<Seq<char>>, i: int, j: int) -> bool {
    text_less(starts[i], starts[j]) || (starts[i] == starts[j] && i < j)
}

pub open spec fn start_texts(entries: Seq<CalendarEvent>) -> Seq<Seq<char>> {
    Seq::new(entries.len(), |i: int| entries[i].start_time@)
}

proof fn lemma_start_order(starts: Seq<Seq<char>>)
    ensures
        strict_total(|i: int, j: int| start_ahead(starts, i, j), starts.len() as int),
{
    let ahead = |i: int, j: int| start_ahead(starts, i, j);
    assert forall|i: int| 0 <= i < starts.len() implies !#[trigger] ahead(i, i) by {
        lemma_text_less_irreflexive(starts[i]);
    }
    assert forall|i: int, j: int, k: int|
        0 <= i < starts.len() && 0 <= j < starts.len() && 0 <= k < starts.len() && #[trigger] ahead(
            i,
            j,
        ) && #[trigger] ahead(j, k) implies ahead(i, k) by {
        if text_less(starts[i], starts[j]) && text_less(starts[j], starts[k]) {
            lemma_text_less_transitive(starts[i], starts[j], starts[k]);
        }
    }
    assert forall|i: int, j: int|
        0 <= i < starts.len() && 0 <= j < starts.len() && i != j implies #[trigger] ahead(i, j)
            || #[trigger] ahead(j, i) by {
        lemma_text_less_total(starts[i], starts[j]);
    }
}

/// The entries ordered by start time (as text), entries with equal starts in
/// their given order.
pub fn order_by_start(entries: Vec<CalendarEvent>) -> (r: Vec<CalendarEvent>)
    ensures
        r.len() == entries.len(),
        exists|p: Seq<usize>|
            {
                &&& is_arrangement(p, entries.len() as int)
                &&& arranged_by(p, |i: int, j: int| start_ahead(start_texts(entries@), i, j))
                &&& forall|k: int| 0 <= k < r.len() ==> #[trigger] r@[k] == entries@[p[k] as int]
            },
        forall|a: int, b: int|
            0 <= a < b < r.len() ==> !text_less(
                #[trigger] r@[b].start_time@,
                #[trigger] r@[a].start_time@,
            ),
{
    let n = entries.len();
    let ghost ahead = |i: int, j: int| start_ahead(start_texts(entries@), i, j);
    let before = |a: usize, b: usize| -> (x: bool)
        requires
            a < n && b < n,
        ensures
            x == start_ahead(start_texts(entries@), a as int, b as int),
        {
            let sa = &entries[a].start_time;
            let sb = &entries[b].start_time;
            text_is_less(sa.as_str(), sb.as_str()) || (*sa == *sb && a < b)
        };
    proof {
        lemma_start_order(start_texts(entries@));
    }
    let p = arrange(n, before, Ghost(ahead));
    let mut out: Vec<CalendarEvent> = Vec::new();
    let mut k: usize = 0;
    while k < n
        invariant
            k <= n,
            n == entries.len(),
            is_arrangement(p@, n as int),
            out.len() == k,
            forall|t: int| 0 <= t < k ==> #[trigger] out@[t] == entries@[p@[t] as int],
        decreases n - k,
    {
        out.push(entries[p[k]].clone_entry());
        k = k + 1;
    }
    proof {
        let st = start_texts(entries@);
        assert forall|a: int, b: int| 0 <= a < b < out.len() implies !text_less(
            #[trigger] out@[b].start_time@,
            #[trigger] out@[a].start_time@,
        ) by {
            let pa = p@[a] as int;
            let pb = p@[b] as int;
            assert(start_ahead(st, pa, pb));
            assert(out@[a].start_time@ == st[pa]);
            assert(out@[b].start_time@ == st[pb]);
            if text_less(st[pb], st[pa]) {
                lemma_text_less_irreflexive(st[pa]);
                if text_less(st[pa], st[pb]) {
                    lemma_text_less_transitive(st[pa], st[pb], st[pa]);
                }
            }
        }
    }
    out
}

impl CalendarEvent {
    /// A copy of the entry.
    pub fn clone_entry(&self) -> (r: CalendarEvent)
        ensures
            r == *self,
    {
        CalendarEvent {
            id: self.id.clone(),
            title: self.title.clone(),
            description: clone_opt(&self.description),
            url: clone_opt(&self.url),
            start_time: self.start_time.clone(),
            end_time: self.end_time.clone(),
            duration_hours: self.duration_hours,
            format: self.format.clone(),
            location: self.location.clone(),
            onsite: self.onsite,
            organizer: self.organizer.clone(),
            source: self.source.clone(),
            status: self.status.clone(),
        }
    }
}

/// Names joined by `, ` in order.
pub open spec fn joined_names(names: Seq<Seq<char>>) -> Seq<char>
    decreases names.len(),
{
    if names.len() == 0 {
        Seq::empty()
    } else if names.len() == 1 {
        names[0]
    } else {
        joined_names(names.drop_last()) + seq![',', ' '] + names.last()
    }
}

/// The organizer text of a CTFtime event: the names of its organizers (as
/// read from the feed's organizers field) joined by `, `, or empty when the
/// field could not be read (`None`).
pub fn join_organizers(names: Option<Vec<String>>) -> (r: String)
    ensures
        r@ == match names {
            Some(v) => joined_names(v@.map_values(|s: String| s@)),
            None => Seq::empty(),
        },
{
    match names {
        None => {
            let out: Vec<char> = Vec::new();
            string_from_chars(&out)
        },
        Some(v) => {
            let ghost ns = v@.map_values(|s: String| s@);
            let mut out: Vec<char> = Vec::new();
            let mut i: usize = 0;
            while i < v.len()
                invariant
                    i <= v.len(),
                    ns == v@.map_values(|s: String| s@),
                    out@ == joined_names(ns.take(i as int)),
                decreases v.len() - i,
            {
                let name = chars_of(v[i].as_str());
                let ghost prev = out@;
                if i > 0 {
                    out.push(',');
                    out.push(' ');
                }
                let mut k: usize = 0;
                while k < name.len()
                    invariant
                        k <= name.len(),
                        out@ == (if i > 0 {
                            prev + seq![',', ' ']
                        } else {
                            prev
                        }) + name@.take(k as int),
                    decreases name.len() - k,
                {
                    out.push(name[k]);
                    k = k + 1;
                    proof {
                        assert(name@.take(k as int) =~= name@.take(k - 1 as int).push(name@[k - 1]));
                    }
                }
                proof {
                    assert(name@.take(name.len() as int) =~= name@);
                    assert(ns.take(i + 1 as int).drop_last() =~= ns.take(i as int));
                    assert(ns.take(i + 1 as int).last() == ns[i as int]);
                    if i == 0 {
                        assert(prev =~= Seq::<char>::empty());
                        assert(out@ =~= ns[0]);
                    }
                }
                i = i + 1;
            }
            proof {
                assert(ns.take(v.len() as int) =~= ns);
            }
            string_from_chars(&out)
        },
    }
}

/// The names in a CTFtime organizers field as serde_json reads it: `None`
/// unless the text is a JSON array of objects each with a string `name`;
/// else those names, in order.
pub uninterp spec fn organizer_names(raw: Seq<char>) -> Option<Seq<Seq<char>>>;

/// Reads the names of a CTFtime organizers field (serde_json's `from_str`
/// into an array of JSON objects, each object's `name` read as a string).
#[verifier::external_body]
fn read_organizers(raw: &str) -> (r: Option<Vec<String>>)
    ensures
        match r {
            Some(v) => organizer_names(raw@) == Some(v@.map_values(|s: String| s@)),
            None => organizer_names(raw@) is None,
        },
{
    match serde_json::from_str::<Vec<serde_json::Map<String, serde_json::Value>>>(raw) {
        Ok(orgs) => orgs.into_iter().map(|o| match o.get("name") {
            Some(serde_json::Value::String(s)) => Some(s.clone()),
            _ => None,
        }).collect(),
        Err(_) => None,
    }
}

/// The organizer text of a CTFtime event from its organizers field
/// (`[{"name": ..}, ..]`): the names joined by `, `, or empty when the field
/// cannot be read.
pub fn parse_organizers(raw: &str) -> (r: String)
    ensures
        r@ == match organizer_names(raw@) {
            Some(v) => joined_names(v),
            None => Seq::empty(),
        },
{
    let names = read_organizers(raw);
    join_organizers(names)
}

/// A CTFtime event with the names of its organizers, joined.
#[derive(Clone, Debug)]
pub struct ListedEvent {
    pub event: CtftimeEvent,
    pub organizer: String,
}

/// What the CTFtime entry of a listed event holds at `now`.
pub open spec fn listed_entry_ok(r: CalendarEvent, l: ListedEvent, now: Moment) -> bool {
    ctftime_entry_ok(
        r,
        l.event,
        ctftime_times(l.event),
        match ctftime_times(l.event) {
            Some((s, f)) => rfc3339_utc(s),
            None => Seq::empty(),
        },
        match ctftime_times(l.event) {
            Some((s, f)) => rfc3339_utc(f),
            None => Seq::empty(),
        },
        l.organizer@,
        now,
    )
}

/// The calendar at `now`: the platform's events, then CTFtime's, each turned
/// into an entry, all ordered by start time (entries with equal starts in
/// that order).
pub fn event_calendar(internal: &Vec<InternalEvent>, listed: &Vec<ListedEvent>, now: Moment) -> (r:
    Vec<CalendarEvent>)
    ensures
        r.len() == internal.len() + listed.len(),
        exists|entries: Seq<CalendarEvent>, p: Seq<usize>|
            {
                &&& entries.len() == internal.len() + listed.len()
                &&& forall|k: int|
                    0 <= k < internal.len() ==> internal_entry_ok(#[trigger] entries[k], internal@[k], now)
                &&& forall|k: int|
                    0 <= k < listed.len() ==> listed_entry_ok(
                        #[trigger] entries[internal.len() + k],
                        listed@[k],
                        now,
                    )
                &&& is_arrangement(p, entries.len() as int)
                &&& arranged_by(p, |i: int, j: int| start_ahead(start_texts(entries), i, j))
                &&& forall|k: int| 0 <= k < r.len() ==> #[trigger] r@[k] == entries[p[k] as int]
            },
        forall|a: int, b: int|
            0 <= a < b < r.len() ==> !text_less(
                #[trigger] r@[b].start_time@,
                #[trigger] r@[a].start_time@,
            ),
{
    let mut entries: Vec<CalendarEvent> = Vec::new();
    let mut i: usize = 0;
    while i < internal.len()
        invariant
            i <= internal.len(),
            entries.len() == i,
            forall|k: int| 0 <= k < i ==> internal_entry_ok(#[trigger] entries@[k], internal@[k], now),
        decreases internal.len() - i,
    {
        let e = internal_entry(&internal[i], now);
        entries.push(e);
        i = i + 1;
    }
    let mut j: usize = 0;
    while j < listed.len()
        invariant
            j <= listed.len(),
            entries.len() == internal.len() + j,
            forall|k: int|
                0 <= k < internal.len() ==> internal_entry_ok(#[trigger] entries@[k], internal@[k], now),
            forall|k: int|
                0 <= k < j ==> listed_entry_ok(#[trigger] entries@[internal.len() + k], listed@[k], now),
        decreases listed.len() - j,
    {
        let l = &listed[j];
        let e = ctftime_entry(&l.event, l.organizer.clone(), now);
        entries.push(e);
        proof {
            assert(entries@[internal.len() + j] == e);
        }
        j = j + 1;
    }
    order_by_start(entries)
}

} // verus!
