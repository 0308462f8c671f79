//! Reading the CTFtime feed: the items of an RSS document, each field taken
//! from the text of the element of the same name.

use vstd::prelude::*;
use crate::text::str_equals;

verus! {

/// An event listed by CTFtime, as its feed gives it.
#[derive(Clone, Debug)]
pub struct CtftimeEvent {
    pub title: String,
    pub url: String,
    pub ctftime_url: String,
    pub start_date: String,
    pub finish_date: String,
    pub format_text: String,
    pub weight: String,
    pub restrictions: String,
    pub onsite: String,
    pub location: String,
    pub organizers: String,
    pub ctf_id: String,
}

/// The fields of a `CtftimeEvent`, as character sequences.
pub struct CtftimeView {
    pub title: Seq<char>,
    pub url: Seq<char>,
    pub ctftime_url: Seq<char>,
    pub start_date: Seq<char>,
    pub finish_date: Seq<char>,
    pub format_text: Seq<char>,
    pub weight: Seq<char>,
    pub restrictions: Seq<char>,
    pub onsite: Seq<char>,
    pub location: Seq<char>,
    pub organizers: Seq<char>,
    pub ctf_id: Seq<char>,
}

impl View for CtftimeEvent {
    type V = CtftimeView;

    open spec fn view(&self) -> CtftimeView {
        CtftimeView {
            title: self.title@,
            url: self.url@,
            ctftime_url: self.ctftime_url@,
            start_date: self.start_date@,
            finish_date: self.finish_date@,
            format_text: self.format_text@,
            weight: self.weight@,
            restrictions: self.restrictions@,
            onsite: self.onsite@,
            location: self.location@,
            organizers: self.organizers@,
            ctf_id: self.ctf_id@,
        }
    }
}

/// What a reader of the document reports, one step at a time.
#[derive(Clone, Debug)]
pub enum XmlEvent {
    /// An opening tag, with the element's name.
    Start(String),
    /// Text between tags, unescaped and trimmed.
    Text(String),
    /// A closing tag, with the element's name.
    End(String),
    /// The end of the document.
    Eof,
    /// Anything else (empty elements, comments, declarations, ...).
    Other,
}

/// An `XmlEvent` with its texts as character sequences.
pub enum XmlEventView {
    Start(Seq<char>),
    Text(Seq<char>),
    End(Seq<char>),
    Eof,
    Other,
}

impl View for XmlEvent {
    type V = XmlEventView;

    open spec fn view(&self) -> XmlEventView {
        match self {
            XmlEvent::Start(n) => XmlEventView::Start(n@),
            XmlEvent::Text(t) => XmlEventView::Text(t@),
            XmlEvent::End(n) => XmlEventView::End(n@),
            XmlEvent::Eof => XmlEventView::Eof,
            XmlEvent::Other => XmlEventView::Other,
        }
    }
}

/// A document that could not be read, with the reader's message.
#[derive(Clone, Debug)]
pub struct XmlFault {
    pub message: String,
}

pub open spec fn empty_view() -> CtftimeView {
    CtftimeView {
        title: Seq::empty(),
        url: Seq::empty(),
        ctftime_url: Seq::empty(),
        start_date: Seq::empty(),
        finish_date: Seq::empty(),
        format_text: Seq::empty(),
        weight: Seq::empty(),
        restrictions: Seq::empty(),
        onsite: Seq::empty(),
        location: Seq::empty(),
        organizers: Seq::empty(),
        ctf_id: Seq::empty(),
    }
}

/// The item with the field named `tag` set to `text`; other tags change nothing.
pub open spec fn set_field(e: CtftimeView, tag: Seq<char>, text: Seq<char>) -> CtftimeView {
    if tag == "title"@ {
        CtftimeView { title: text, ..e }
    } else if tag == "url"@ {
        CtftimeView { url: text, ..e }
    } else if tag == "ctftime_url"@ {
        CtftimeView { ctftime_url: text, ..e }
    } else if tag == "start_date"@ {
        CtftimeView { start_date: text, ..e }
    } else if tag == "finish_date"@ {
        CtftimeView { finish_date: text, ..e }
    } else if tag == "format_text"@ {
        CtftimeView { format_text: text, ..e }
    } else if tag == "weight"@ {
        CtftimeView { weight: text, ..e }
    } else if tag == "restrictions"@ {
        CtftimeView { restrictions: text, ..e }
    } else if tag == "onsite"@ {
        CtftimeView { onsite: text, ..e }
    } else if tag == "location"@ {
        CtftimeView { location: text, ..e }
    } else if tag == "organizers"@ {
        CtftimeView { organizers: text, ..e }
    } else if tag == "ctf_id"@ {
        CtftimeView { ctf_id: text, ..e }
    } else {
        e
    }
}

/// Where the reading of the feed stands: the items finished so far, the item
/// being read, and the name of the element being read.
pub struct RssState {
    pub items: Seq<CtftimeView>,
    pub current: Option<CtftimeView>,
    pub tag: Seq<char>,
}

/// The reading after one more event: an opening `item` starts an item, the
/// text of an element inside an item sets the field of that name, and a
/// closing `item` finishes the item.
pub open spec fn rss_step(st: RssState, ev: XmlEventView) -> RssState {
    match ev {
        XmlEventView::Start(name) => RssState {
            items: st.items,
            current: if name == "item"@ {
                Some(empty_view())
            } else {
                st.current
            },
            tag: name,
        },
        XmlEventView::Text(t) => RssState {
            items: st.items,
            current: match st.current {
                Some(c) => Some(set_field(c, st.tag, t)),
                None => None,
            },
            tag: st.tag,
        },
        XmlEventView::End(name) => {
            if name == "item"@ && st.current.is_some() {
                RssState { items: st.items.push(st.current.unwrap()), current: None, tag: Seq::empty() }
            } else {
                RssState { items: st.items, current: st.current, tag: Seq::empty() }
            }
        },
        _ => st,
    }
}

/// The reading after the first `n` events.
pub open spec fn rss_run(evs: Seq<XmlEventView>, n: int) -> RssState
    decreases n,
{
    if n <= 0 {
        RssState { items: Seq::empty(), current: None, tag: Seq::empty() }
    } else {
        rss_step(rss_run(evs, n - 1), evs[n - 1])
    }
}

/// The number of events before the end of the document.
pub open spec fn until_eof(evs: Seq<XmlEventView>) -> int {
    if exists|k: int| 0 <= k < evs.len() && evs[k] is Eof {
        choose|k: int|
            0 <= k < evs.len() && evs[k] is Eof && forall|j: int| 0 <= j < k ==> !(evs[j] is Eof)
    } else {
        evs.len() as int
    }
}

/// The items of a feed whose reader reported `evs`.
pub open spec fn rss_items_of(evs: Seq<XmlEventView>) -> Seq<CtftimeView> {
    rss_run(evs, until_eof(evs)).items
}

fn empty_event() -> (r: CtftimeEvent)
    ensures
        r@ == empty_view(),
{
    CtftimeEvent {
        title: String::new(),
        url: String::new(),
        ctftime_url: String::new(),
        start_date: String::new(),
        finish_date: String::new(),
        format_text: String::new(),
        weight: String::new(),
        restrictions: String::new(),
        onsite: String::new(),
        location: String::new(),
        organizers: String::new(),
        ctf_id: String::new(),
    }
}

fn set_field_exec(e: &mut CtftimeEvent, tag: &String, text: &String)
    ensures
        final(e)@ == set_field(old(e)@, tag@, text@),
{
    let t = tag.as_str();
    let v = text.clone();
    if str_equals(t, "title") {
        e.title = v;
    } else if str_equals(t, "url") {
        e.url = v;
    } else if str_equals(t, "ctftime_url") {
        e.ctftime_url = v;
    } else if str_equals(t, "start_date") {
        e.start_date = v;
    } else if str_equals(t, "finish_date") {
        e.finish_date = v;
    } else if str_equals(t, "format_text") {
        e.format_text = v;
    } else if str_equals(t, "weight") {
        e.weight = v;
    } else if str_equals(t, "restrictions") {
        e.restrictions = v;
    } else if str_equals(t, "onsite") {
        e.onsite = v;
    } else if str_equals(t, "location") {
        e.location = v;
    } else if str_equals(t, "organizers") {
        e.organizers = v;
    } else if str_equals(t, "ctf_id") {
        e.ctf_id = v;
    }
}

/// The reading state kept by the executable loop.
struct RssReading {
    items: Vec<CtftimeEvent>,
    current: Option<CtftimeEvent>,
    tag: String,
}

spec fn reading_view(r: RssReading) -> RssState {
    RssState {
        items: r.items@.map_values(|e: CtftimeEvent| e@),
        current: match r.current {
            Some(c) => Some(c@),
            None => None,
        },
        tag: r.tag@,
    }
}

fn new_reading() -> (r: RssReading)
    ensures
        reading_view(r) == (RssState { items: Seq::empty(), current: None, tag: Seq::empty() }),
{
    let r = RssReading { items: Vec::new(), current: None, tag: String::new() };
    proof {
        assert(r.items@.map_values(|e: CtftimeEvent| e@) == Seq::<CtftimeView>::empty());
    }
    r
}

fn step(st: &mut RssReading, ev: &XmlEvent)
    ensures
        reading_view(*final(st)) == rss_step(reading_view(*old(st)), ev@),
{
    match ev {
        XmlEvent::Start(name) => {
            if str_equals(name.as_str(), "item") {
                st.current = Some(empty_event());
            }
            st.tag = name.clone();
        },
        XmlEvent::Text(t) => {
            let cur = st.current.take();
            match cur {
                Some(mut c) => {
                    set_field_exec(&mut c, &st.tag, t);
                    st.current = Some(c);
                },
                None => {},
            }
        },
        XmlEvent::End(name) => {
            if str_equals(name.as_str(), "item") {
                let cur = st.current.take();
                match cur {
                    Some(c) => {
                        let ghost before = st.items@;
                        st.items.push(c);
                        proof {
                            assert(st.items@.map_values(|e: CtftimeEvent| e@) == before.map_values(
                                |e: CtftimeEvent| e@,
                            ).push(c@));
                        }
                    },
                    None => {},
                }
            }
            st.tag = String::new();
        },
        _ => {},
    }
}

proof fn lemma_until_eof(evs: Seq<XmlEventView>, k: int)
    requires
        0 <= k <= evs.len(),
        forall|j: int| 0 <= j < k ==> !(evs[j] is Eof),
        k == evs.len() || evs[k] is Eof,
    ensures
        until_eof(evs) == k,
{
    if exists|m: int| 0 <= m < evs.len() && evs[m] is Eof {
        let c = choose|c: int|
            0 <= c < evs.len() && evs[c] is Eof && forall|j: int| 0 <= j < c ==> !(evs[j] is Eof);
        assert(k < evs.len());
        assert(0 <= k < evs.len() && evs[k] is Eof && forall|j: int| 0 <= j < k ==> !(evs[j] is Eof));
        if c < k {
            assert(!(evs[c] is Eof));
        }
        if k < c {
            assert(!(evs[k] is Eof));
        }
    }
}

/// The events of a feed whose one item holds two elements named `tag`, with
/// the texts `x` and then `y`.
pub open spec fn item_feed(tag: Seq<char>, x: Seq<char>, y: Seq<char>) -> Seq<XmlEventView> {
    seq![
        XmlEventView::Start("item"@),
        XmlEventView::Start(tag),
        XmlEventView::Text(x),
        XmlEventView::End(tag),
        XmlEventView::Start(tag),
        XmlEventView::Text(y),
        XmlEventView::End(tag),
        XmlEventView::End("item"@),
    ]
}

proof fn lemma_item_feed(tag: Seq<char>, x: Seq<char>, y: Seq<char>)
    requires
        tag != "item"@,
    ensures
        rss_items_of(item_feed(tag, x, y)) == seq![set_field(set_field(empty_view(), tag, x), tag, y)],
{
    let evs = item_feed(tag, x, y);
    assert forall|j: int| 0 <= j < evs.len() implies !(evs[j] is Eof) by {}
    lemma_until_eof(evs, evs.len() as int);
    reveal_with_fuel(rss_run, 9);
    assert(rss_run(evs, 8).items =~= seq![set_field(set_field(empty_view(), tag, x), tag, y)]);
}

/// Each field of an item is the text of the last element of its name inside
/// the item: an item whose element `f` holds `x` and then `y` reads back with
/// `f` equal to `y` and every other field empty, for each of the twelve
/// fields.
pub proof fn lemma_item_fields_take_last_text(x: Seq<char>, y: Seq<char>)
    ensures
        rss_items_of(item_feed("title"@, x, y)) == seq![CtftimeView { title: y, ..empty_view() }],
        rss_items_of(item_feed("url"@, x, y)) == seq![CtftimeView { url: y, ..empty_view() }],
        rss_items_of(item_feed("ctftime_url"@, x, y)) == seq![CtftimeView { ctftime_url: y, ..empty_view() }],
        rss_items_of(item_feed("start_date"@, x, y)) == seq![CtftimeView { start_date: y, ..empty_view() }],
        rss_items_of(item_feed("finish_date"@, x, y)) == seq![CtftimeView { finish_date: y, ..empty_view() }],
        rss_items_of(item_feed("format_text"@, x, y)) == seq![CtftimeView { format_text: y, ..empty_view() }],
        rss_items_of(item_feed("weight"@, x, y)) == seq![CtftimeView { weight: y, ..empty_view() }],
        rss_items_of(item_feed("restrictions"@, x, y)) == seq![CtftimeView { restrictions: y, ..empty_view() }],
        rss_items_of(item_feed("onsite"@, x, y)) == seq![CtftimeView { onsite: y, ..empty_view() }],
        rss_items_of(item_feed("location"@, x, y)) == seq![CtftimeView { location: y, ..empty_view() }],
        rss_items_of(item_feed("organizers"@, x, y)) == seq![CtftimeView { organizers: y, ..empty_view() }],
        rss_items_of(item_feed("ctf_id"@, x, y)) == seq![CtftimeView { ctf_id: y, ..empty_view() }],
{
    reveal_strlit("title");
    assert("title"@.len() == 5);
    reveal_strlit("url");
    assert("url"@.len() == 3);
    reveal_strlit("ctftime_url");
    assert("ctftime_url"@.len() == 11);
    reveal_strlit("start_date");
    assert("start_date"@.len() == 10);
    reveal_strlit("finish_date");
    assert("finish_date"@.len() == 11);
    reveal_strlit("format_text");
    assert("format_text"@.len() == 11);
    reveal_strlit("weight");
    assert("weight"@.len() == 6);
    reveal_strlit("restrictions");
    assert("restrictions"@.len() == 12);
    reveal_strlit("onsite");
    assert("onsite"@.len() == 6);
    reveal_strlit("location");
    assert("location"@.len() == 8);
    reveal_strlit("organizers");
    assert("organizers"@.len() == 10);
    reveal_strlit("ctf_id");
    assert("ctf_id"@.len() == 6);
    reveal_strlit("item");
    assert("item"@.len() == 4);
    assert("finish_date"@[1] != "format_text"@[1]);
    assert("ctftime_url"@[0] != "finish_date"@[0]);
    assert("ctftime_url"@[0] != "format_text"@[0]);
    assert("start_date"@[0] != "organizers"@[0]);
    assert("weight"@[0] != "onsite"@[0]);
    assert("weight"@[0] != "ctf_id"@[0]);
    assert("onsite"@[0] != "ctf_id"@[0]);
    lemma_item_feed("title"@, x, y);
    lemma_item_feed("url"@, x, y);
    lemma_item_feed("ctftime_url"@, x, y);
    lemma_item_feed("start_date"@, x, y);
    lemma_item_feed("finish_date"@, x, y);
    lemma_item_feed("format_text"@, x, y);
    lemma_item_feed("weight"@, x, y);
    lemma_item_feed("restrictions"@, x, y);
    lemma_item_feed("onsite"@, x, y);
    lemma_item_feed("location"@, x, y);
    lemma_item_feed("organizers"@, x, y);
    lemma_item_feed("ctf_id"@, x, y);
}

/// The events of a feed with two items, the first titled `x`, the second
/// with the CTFtime id `y`, and a title `z` between them, outside any item.
pub open spec fn two_item_feed(x: Seq<char>, y: Seq<char>, z: Seq<char>) -> Seq<XmlEventView> {
    seq![
        XmlEventView::Start("item"@),
        XmlEventView::Start("title"@),
        XmlEventView::Text(x),
        XmlEventView::End("title"@),
        XmlEventView::End("item"@),
        XmlEventView::Start("title"@),
        XmlEventView::Text(z),
        XmlEventView::End("title"@),
        XmlEventView::Start("item"@),
        XmlEventView::Start("ctf_id"@),
        XmlEventView::Text(y),
        XmlEventView::End("ctf_id"@),
        XmlEventView::End("item"@),
    ]
}

/// A feed gives one item per `item` element, in the order of the document,
/// and text outside every item is read into none of them.
pub proof fn lemma_items_follow_the_document(x: Seq<char>, y: Seq<char>, z: Seq<char>)
    ensures
        rss_items_of(two_item_feed(x, y, z)) == seq![
            CtftimeView { title: x, ..empty_view() },
            CtftimeView { ctf_id: y, ..empty_view() },
        ],
{
    reveal_strlit("title");
    reveal_strlit("ctf_id");
    reveal_strlit("item");
    reveal_strlit("url");
    reveal_strlit("ctftime_url");
    reveal_strlit("start_date");
    reveal_strlit("finish_date");
    reveal_strlit("format_text");
    reveal_strlit("weight");
    reveal_strlit("restrictions");
    reveal_strlit("onsite");
    reveal_strlit("location");
    reveal_strlit("organizers");
    assert("title"@.len() == 5);
    assert("ctf_id"@.len() == 6);
    assert("item"@.len() == 4);
    assert("url"@.len() == 3);
    assert("ctftime_url"@.len() == 11);
    assert("start_date"@.len() == 10);
    assert("finish_date"@.len() == 11);
    assert("format_text"@.len() == 11);
    assert("weight"@.len() == 6);
    assert("restrictions"@.len() == 12);
    assert("onsite"@.len() == 6);
    assert("location"@.len() == 8);
    assert("organizers"@.len() == 10);
    assert("weight"@[0] != "ctf_id"@[0]);
    assert("onsite"@[0] != "ctf_id"@[0]);
    let evs = two_item_feed(x, y, z);
    assert forall|j: int| 0 <= j < evs.len() implies !(evs[j] is Eof) by {}
    lemma_until_eof(evs, evs.len() as int);
    reveal_with_fuel(rss_run, 14);
    assert(rss_run(evs, 13).items =~= seq![
        CtftimeView { title: x, ..empty_view() },
        CtftimeView { ctf_id: y, ..empty_view() },
    ]);
}

/// The items of a feed, from the events its reader reported, up to the end
/// of the document.
pub fn rss_items(events: &Vec<XmlEvent>) -> (r: Vec<CtftimeEvent>)
    ensures
        r@.map_values(|e: CtftimeEvent| e@) == rss_items_of(events@.map_values(|e: XmlEvent| e@)),
{
    let ghost evs = events@.map_values(|e: XmlEvent| e@);
    let mut st = new_reading();
    let mut i: usize = 0;
    while i < events.len()
        invariant
            i <= events.len(),
            evs == events@.map_values(|e: XmlEvent| e@),
            reading_view(st) == rss_run(evs, i as int),
            forall|j: int| 0 <= j < i ==> !(evs[j] is Eof),
        decreases events.len() - i,
    {
        if let XmlEvent::Eof = &events[i] {
            proof {
                lemma_until_eof(evs, i as int);
            }
            return st.items;
        }
        step(&mut st, &events[i]);
        i = i + 1;
    }
    proof {
        lemma_until_eof(evs, i as int);
    }
    st.items
}

/// Whether `reader` is quick-xml's reader `Reader::from_str(doc)`, with
/// text trimming switched on (`Config::trim_text(true)`), after `n` reads
/// of `Reader::read_event_into`.
pub uninterp spec fn reader_over(reader: quick_xml::Reader<&[u8]>, doc: Seq<char>, n: nat) -> bool;

/// What the read after the first `n` reads gives on a reader as
/// `reader_over` describes it, as `next_xml_event` converts it: the event,
/// or the text of quick-xml's error.
pub uninterp spec fn xml_read_at(doc: Seq<char>, n: nat) -> Result<XmlEventView, Seq<char>>;

/// Whether a read gave an event other than the end of the document.
pub open spec fn read_goes_on(r: Result<XmlEventView, Seq<char>>) -> bool {
    r is Ok && !(r->Ok_0 is Eof)
}

/// Whether each of the first `n` reads of `doc` gave an event other than the
/// end of the document.
pub open spec fn reads_go_on(doc: Seq<char>, n: nat) -> bool {
    forall|k: nat| k < n ==> read_goes_on(#[trigger] xml_read_at(doc, k))
}

/// A fresh reader over the document with text trimming switched on
/// (quick-xml's `Reader::from_str` and `Config::trim_text(true)`): the reader
/// of `doc` before its first read.
#[verifier::external_body]
fn xml_reader<'a>(xml: &'a str) -> (r: quick_xml::Reader<&'a [u8]>)
    ensures
        reader_over(r, xml@, 0),
{
    let mut reader = quick_xml::Reader::from_str(xml);
    reader.config_mut().trim_text(true);
    reader
}

/// The next event of the document (quick-xml's `Reader::read_event_into`),
/// with element names read as UTF-8 (invalid bytes replaced) and text
/// unescaped (empty where it cannot be unescaped); an error gives its text.
/// The reader depends only on the document and on how many reads came before,
/// so the read gives `xml_read_at(xml@, n)`. Every event other than the end
/// of the document consumes at least one byte (a text consumes the `<` after
/// it, markup consumes through its `>`), so when this and every earlier read
/// gave such an event, fewer reads than the document has bytes were made.
/// `xml` and `n` only name the reader's document and position.
#[verifier::external_body]
fn next_xml_event(reader: &mut quick_xml::Reader<&[u8]>, xml: &str, n: usize) -> (r: Result<
    XmlEvent,
    XmlFault,
>)
    requires
        reader_over(*old(reader), xml@, n as nat),
    ensures
        reader_over(*final(reader), xml@, n as nat + 1),
        match r {
            Ok(ev) => xml_read_at(xml@, n as nat) == Ok::<XmlEventView, Seq<char>>(ev@),
            Err(f) => xml_read_at(xml@, n as nat) == Err::<XmlEventView, Seq<char>>(f.message@),
        },
        r is Ok && !(r->Ok_0 is Eof) && reads_go_on(xml@, n as nat) ==> n < xml.len(),
{
    let mut buf = Vec::new();
    match reader.read_event_into(&mut buf) {
        Ok(quick_xml::events::Event::Start(e)) => Ok(
            XmlEvent::Start(String::from_utf8_lossy(e.name().as_ref()).to_string()),
        ),
        Ok(quick_xml::events::Event::Text(e)) => Ok(
            XmlEvent::Text(e.unescape().unwrap_or_default().to_string()),
        ),
        Ok(quick_xml::events::Event::End(e)) => Ok(
            XmlEvent::End(String::from_utf8_lossy(e.name().as_ref()).to_string()),
        ),
        Ok(quick_xml::events::Event::Eof) => Ok(XmlEvent::Eof),
        Ok(_) => Ok(XmlEvent::Other),
        Err(e) => Err(XmlFault { message: e.to_string() }),
    }
}

#[verifier::external_type_specification]
#[verifier::external_body]
#[verifier::reject_recursive_types(R)]
pub struct ExXmlReader<R>(quick_xml::Reader<R>);

/// Whether reading `doc` stops at read `m`: the reads before it went on, and
/// read `m` gave the end of the document or an error.
pub open spec fn stops_at(doc: Seq<char>, m: nat) -> bool {
    reads_go_on(doc, m) && !read_goes_on(xml_read_at(doc, m))
}

/// The events read from `doc` before read `m`.
pub open spec fn events_before(doc: Seq<char>, m: nat) -> Seq<XmlEventView> {
    Seq::new(m, |k: int| xml_read_at(doc, k as nat)->Ok_0)
}

/// What reading a feed gives: read events until the end of the document or
/// the first error; an error gives its text, else the items of the events.
pub open spec fn feed_of(doc: Seq<char>) -> Result<Seq<CtftimeView>, Seq<char>> {
    let m = choose|m: nat| stops_at(doc, m);
    match xml_read_at(doc, m) {
        Err(msg) => Err(msg),
        Ok(_) => Ok(rss_items_of(events_before(doc, m))),
    }
}

/// Reading stops at one read only.
proof fn lemma_stop_unique(doc: Seq<char>, m1: nat, m2: nat)
    requires
        stops_at(doc, m1),
        stops_at(doc, m2),
    ensures
        m1 == m2,
{
    if m1 < m2 {
        assert(read_goes_on(xml_read_at(doc, m1)));
    } else if m2 < m1 {
        assert(read_goes_on(xml_read_at(doc, m2)));
    }
}

/// Reads the items of an RSS document: one item per `item` element, each
/// field the text of the last element of that name inside it; reading stops
/// at the end of the document, and the first error the reader reports is
/// returned.
pub fn parse_rss(xml: &str) -> (r: Result<Vec<CtftimeEvent>, XmlFault>)
    ensures
        match feed_of(xml@) {
            Ok(items) => r is Ok && r->Ok_0@.map_values(|e: CtftimeEvent| e@) == items,
            Err(msg) => r is Err && r->Err_0.message@ == msg,
        },
{
    let mut reader = xml_reader(xml);
    let mut events: Vec<XmlEvent> = Vec::new();
    let mut reads: usize = 0;
    loop
        invariant
            reads <= xml.len(),
            reader_over(reader, xml@, reads as nat),
            reads_go_on(xml@, reads as nat),
            events@.map_values(|e: XmlEvent| e@) == events_before(xml@, reads as nat),
        decreases xml.len() - reads,
    {
        let got = next_xml_event(&mut reader, xml, reads);
        match got {
            Err(e) => {
                proof {
                    assert(stops_at(xml@, reads as nat));
                    let m = choose|m: nat| stops_at(xml@, m);
                    lemma_stop_unique(xml@, m, reads as nat);
                }
                return Err(e);
            },
            Ok(ev) => {
                if let XmlEvent::Eof = ev {
                    let r = rss_items(&events);
                    proof {
                        assert(stops_at(xml@, reads as nat));
                        let m = choose|m: nat| stops_at(xml@, m);
                        lemma_stop_unique(xml@, m, reads as nat);
                    }
                    return Ok(r);
                }
                let ghost before = events@;
                events.push(ev);
                proof {
                    assert(read_goes_on(xml_read_at(xml@, reads as nat)));
                    assert(reads_go_on(xml@, reads as nat + 1)) by {
                        assert forall|k: nat| k < reads as nat + 1 implies read_goes_on(
                            #[trigger] xml_read_at(xml@, k),
                        ) by {
                            if k < reads as nat {
                                assert(read_goes_on(xml_read_at(xml@, k)));
                            }
                        }
                    }
                    let ghost now_v = events@.map_values(|e: XmlEvent| e@);
                    let ghost before_v = before.map_values(|e: XmlEvent| e@);
                    let ghost target = events_before(xml@, reads as nat + 1);
                    assert(events@ == before.push(ev));
                    assert(before_v == events_before(xml@, reads as nat));
                    assert(before_v.len() == reads);
                    assert(before.len() == reads);
                    assert(target.len() == reads + 1);
                    assert(now_v.len() == target.len());
                    assert forall|k: int| 0 <= k < now_v.len() implies #[trigger] now_v[k]
                        == target[k] by {
                        if k < reads as int {
                            assert(before_v[k] == events_before(xml@, reads as nat)[k]);
                        }
                    }
                    assert(now_v =~= target);
                }
                reads = reads + 1;
            },
        }
    }
}

} // verus!
