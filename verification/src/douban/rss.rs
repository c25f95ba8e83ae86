//! The feed of coming series: RSS, read with `quick_xml`.
use quick_xml::events::Event;
use quick_xml::Reader;
use vstd::prelude::*;

use super::extract::{
    extract_wish_count, extract_year, opt_year, wish_count_in_text, year_in_text,
};
use crate::json::{as_text, member, Json, JsonObject, JsonView};
use crate::text::{same, trim, trimmed};

verus! {

/// A `quick_xml` reader.
#[verifier::external_type_specification]
#[verifier::external_body]
#[verifier::reject_recursive_types(R)]
pub struct ExReader<R>(Reader<R>);

/// What the reader comes upon in a feed.
#[derive(Debug)]
pub enum FeedEvent {
    /// The start of the element with that name.
    Start(String),
    /// Character data: the text that it stands for, or why it stands for none.
    Text(Result<String, String>),
    /// Character data that is taken as it is.
    CData(String),
    /// The end of the element with that name.
    End(String),
    /// Anything that a feed's items do not depend on.
    Other,
    /// The end of the feed.
    Eof,
    /// A point at which the feed cannot be read any further, and why.
    Failed(String),
}

pub enum EventView {
    Start(Seq<char>),
    Text(Result<Seq<char>, Seq<char>>),
    CData(Seq<char>),
    End(Seq<char>),
    Other,
    Eof,
    Failed(Seq<char>),
}

impl View for FeedEvent {
    type V = EventView;

    open spec fn view(&self) -> EventView {
        match self {
            FeedEvent::Start(name) => EventView::Start(name@),
            FeedEvent::Text(Ok(text)) => EventView::Text(Ok(text@)),
            FeedEvent::Text(Err(error)) => EventView::Text(Err(error@)),
            FeedEvent::CData(text) => EventView::CData(text@),
            FeedEvent::End(name) => EventView::End(name@),
            FeedEvent::Other => EventView::Other,
            FeedEvent::Eof => EventView::Eof,
            FeedEvent::Failed(error) => EventView::Failed(error@),
        }
    }
}

/// What `Reader::read_event_into` gives, one after the other, on a feed from
/// which white space around text is trimmed: up to the end of the feed or the
/// first error.
pub uninterp spec fn feed_events(xml: Seq<char>) -> Seq<EventView>;

/// What a reader has yet to give.
pub uninterp spec fn events_ahead(reader: Reader<&[u8]>) -> Seq<EventView>;

/// Whether an event is the last one.
pub open spec fn is_last(event: EventView) -> bool {
    event is Eof || event is Failed
}

/// Whether a list of events ends with its only last one.
pub open spec fn complete(events: Seq<EventView>) -> bool {
    &&& events.len() > 0
    &&& is_last(events.last())
    &&& forall|i: int| 0 <= i < events.len() - 1 ==> !is_last(#[trigger] events[i])
}

/// `Reader::from_str` and `Config::trim_text`: a reader at the start of `xml`. It
/// comes to the end of the feed or to an error.
#[verifier::external_body]
fn open_feed(xml: &str) -> (r: Reader<&[u8]>)
    ensures
        events_ahead(r) == feed_events(xml@),
        complete(events_ahead(r)),
{
    let mut reader = Reader::from_str(xml);
    reader.config_mut().trim_text(true);
    reader
}

/// `Reader::read_event_into`: the next event, with names and unparsed data as
/// text and with `BytesText::unescape` of character data.
#[verifier::external_body]
fn next_event(reader: &mut Reader<&[u8]>) -> (r: FeedEvent)
    requires
        events_ahead(*old(reader)).len() > 0,
    ensures
        r@ == events_ahead(*old(reader))[0],
        events_ahead(*final(reader)) == events_ahead(*old(reader)).drop_first(),
{
    match reader.read_event_into(&mut Vec::new()) {
        Ok(Event::Start(tag)) => FeedEvent::Start(String::from_utf8_lossy(tag.name().as_ref()).into_owned()),
        Ok(Event::Text(text)) => FeedEvent::Text(text.unescape().map(|text| text.into_owned()).map_err(|error| error.to_string())),
        Ok(Event::CData(data)) => FeedEvent::CData(String::from_utf8_lossy(data.as_ref()).into_owned()),
        Ok(Event::End(tag)) => FeedEvent::End(String::from_utf8_lossy(tag.name().as_ref()).into_owned()),
        Ok(Event::Eof) => FeedEvent::Eof,
        Ok(_) => FeedEvent::Other,
        Err(error) => FeedEvent::Failed(error.to_string()),
    }
}

/// A coming series, as the feed tells of it.
#[derive(Debug)]
pub struct FeedItem {
    pub title: String,
    pub link: String,
    pub description: String,
    pub wish_count: i64,
    pub year: Option<i32>,
}

#[verifier::ext_equal]
pub struct ItemView {
    pub title: Seq<char>,
    pub link: Seq<char>,
    pub description: Seq<char>,
    pub wish_count: int,
    pub year: Option<int>,
}

impl View for FeedItem {
    type V = ItemView;

    open spec fn view(&self) -> ItemView {
        ItemView {
            title: self.title@,
            link: self.link@,
            description: self.description@,
            wish_count: self.wish_count as int,
            year: opt_year(self.year),
        }
    }
}

/// What each item of a list tells.
pub open spec fn item_views(items: Seq<FeedItem>) -> Seq<ItemView> {
    items.map_values(|item: FeedItem| item@)
}

/// The text gathered under `key`; empty where there is none.
pub open spec fn gathered(fields: Map<Seq<char>, JsonView>, key: Seq<char>) -> Seq<char> {
    match as_text(member(JsonView::Object(fields), key)) {
        Some(s) => s,
        None => Seq::empty(),
    }
}

/// The text gathered under `key`.
fn gathered_text<'a>(fields: &'a JsonObject, key: &str) -> (r: &'a str)
    ensures
        r@ == gathered(fields.members(), key@),
{
    proof {
        reveal_strlit("");
        assert(""@ =~= Seq::<char>::empty());
    }
    match fields.get(key) {
        Some(value) => match value.as_str() {
            Some(s) => s,
            None => "",
        },
        None => "",
    }
}

/// The item with these fields; none where it has neither a title nor a link. Its
/// year stands in the category, or else in the description.
pub open spec fn item_with(fields: Map<Seq<char>, JsonView>) -> Option<ItemView> {
    let title = trimmed(gathered(fields, "title"@));
    let link = trimmed(gathered(fields, "link"@));
    let description = gathered(fields, "description"@);
    if title.len() == 0 && link.len() == 0 {
        None
    } else {
        Some(
            ItemView {
                title,
                link,
                description,
                wish_count: wish_count_in_text(description),
                year: match year_in_text(gathered(fields, "category"@)) {
                    Some(year) => Some(year),
                    None => year_in_text(description),
                },
            },
        )
    }
}

/// The item with these fields, where it has a title or a link.
fn make_item(fields: &JsonObject) -> (r: Option<FeedItem>)
    ensures
        match r {
            Some(item) => item_with(fields.members()) == Some(item@),
            None => item_with(fields.members()) is None,
        },
{
    let title = trim(gathered_text(fields, "title"));
    let link = trim(gathered_text(fields, "link"));
    let description = gathered_text(fields, "description");
    if title.is_empty() && link.is_empty() {
        return None;
    }
    let year = match extract_year(gathered_text(fields, "category")) {
        Some(year) => Some(year),
        None => extract_year(description),
    };
    Some(
        FeedItem {
            title: title.to_owned(),
            link: link.to_owned(),
            description: description.to_owned(),
            wish_count: extract_wish_count(description),
            year,
        },
    )
}

/// How far a feed has been read: whether inside an item, in which of its fields,
/// and what was gathered of the fields.
#[derive(Debug)]
pub struct FeedParser {
    in_item: bool,
    field: String,
    fields: JsonObject,
}

#[verifier::ext_equal]
pub struct ParserView {
    pub in_item: bool,
    pub field: Seq<char>,
    pub fields: Map<Seq<char>, JsonView>,
}

impl View for FeedParser {
    type V = ParserView;

    closed spec fn view(&self) -> ParserView {
        ParserView { in_item: self.in_item, field: self.field@, fields: self.fields.members() }
    }
}

/// A feed of which nothing has been read.
pub open spec fn unread() -> ParserView {
    ParserView { in_item: false, field: Seq::empty(), fields: Map::empty() }
}

impl ParserView {
    /// Whether text belongs to a field of an item.
    pub open spec fn in_field(self) -> bool {
        self.in_item && self.field.len() > 0
    }

    /// This state with `text` as what was gathered of the field.
    pub open spec fn with_text(self, text: Seq<char>) -> ParserView {
        ParserView { fields: self.fields.insert(self.field, JsonView::Text(text)), ..self }
    }

    /// The state after an event; none where the event ends the reading with an
    /// error.
    pub open spec fn after(self, event: EventView) -> Result<ParserView, Seq<char>> {
        match event {
            EventView::Start(name) => if name == "item"@ {
                Ok(ParserView { in_item: true, fields: Map::empty(), ..self })
            } else if self.in_item {
                Ok(ParserView { field: name, ..self })
            } else {
                Ok(self)
            },
            EventView::Text(text) => if self.in_field() {
                match text {
                    Ok(text) => Ok(self.with_text(gathered(self.fields, self.field) + text)),
                    Err(error) => Err(error),
                }
            } else {
                Ok(self)
            },
            EventView::CData(text) => if self.in_field() {
                Ok(self.with_text(text))
            } else {
                Ok(self)
            },
            EventView::End(name) => if name == "item"@ {
                Ok(ParserView { in_item: false, field: Seq::empty(), ..self })
            } else if name == self.field {
                Ok(ParserView { field: Seq::empty(), ..self })
            } else {
                Ok(self)
            },
            EventView::Other => Ok(self),
            EventView::Eof => Ok(self),
            EventView::Failed(error) => Err("解析 RSS 失败: "@ + error),
        }
    }

    /// The items that an event completes: one at most.
    pub open spec fn completed(self, event: EventView) -> Seq<ItemView> {
        match (event, item_with(self.fields)) {
            (EventView::End(name), Some(item)) => if name == "item"@ {
                seq![item]
            } else {
                Seq::empty()
            },
            _ => Seq::empty(),
        }
    }
}

/// The items that are read from a state on; the error where there is one.
pub open spec fn items_from(state: ParserView, events: Seq<EventView>) -> Result<
    Seq<ItemView>,
    Seq<char>,
>
    decreases events.len(),
{
    if events.len() == 0 || events[0] is Eof {
        Ok(Seq::empty())
    } else {
        match state.after(events[0]) {
            Ok(next) => match items_from(next, events.drop_first()) {
                Ok(items) => Ok(state.completed(events[0]) + items),
                Err(error) => Err(error),
            },
            Err(error) => Err(error),
        }
    }
}

/// What the items, or the error, say.
pub open spec fn feed_view(r: Result<Vec<FeedItem>, String>) -> Result<Seq<ItemView>, Seq<char>> {
    match r {
        Ok(items) => Ok(item_views(items@)),
        Err(error) => Err(error@),
    }
}

/// `before`, and what `rest` adds to it.
pub open spec fn continued(
    before: Seq<ItemView>,
    rest: Result<Seq<ItemView>, Seq<char>>,
) -> Result<Seq<ItemView>, Seq<char>> {
    match rest {
        Ok(items) => Ok(before + items),
        Err(error) => Err(error),
    }
}

impl FeedParser {
    /// A feed of which nothing has been read.
    pub fn new() -> (r: FeedParser)
        ensures
            r@ == unread(),
    {
        FeedParser { in_item: false, field: String::new(), fields: JsonObject::new() }
    }

    /// Reads one event: the state after it, with the item that it completes
    /// added to `items`.
    pub fn read(self, event: FeedEvent, items: &mut Vec<FeedItem>) -> (r: Result<
        FeedParser,
        String,
    >)
        ensures
            match r {
                Ok(next) => self@.after(event@) == Ok::<ParserView, Seq<char>>(next@) && item_views(
                    final(items)@,
                ) == item_views(old(items)@) + self@.completed(event@),
                Err(error) => self@.after(event@) == Err::<ParserView, Seq<char>>(error@)
                    && item_views(final(items)@) == item_views(old(items)@),
            },
    {
        let mut state = self;
        let ghost before = item_views(items@);
        assert(before + Seq::<ItemView>::empty() =~= before);
        match event {
            FeedEvent::Start(name) => {
                if same(name.as_str(), "item") {
                    state.in_item = true;
                    state.fields = JsonObject::new();
                } else if state.in_item {
                    state.field = name;
                }
                Ok(state)
            },
            FeedEvent::Text(text) => {
                if state.in_item && !state.field.as_str().is_empty() {
                    match text {
                        Ok(text) => {
                            let whole = gathered_text(
                                &state.fields,
                                state.field.as_str(),
                            ).to_owned().concat(text.as_str());
                            state.fields = state.fields.with(
                                state.field.as_str(),
                                Json::Text(whole),
                            );
                        },
                        Err(error) => {
                            return Err(error);
                        },
                    }
                }
                Ok(state)
            },
            FeedEvent::CData(text) => {
                if state.in_item && !state.field.as_str().is_empty() {
                    state.fields = state.fields.with(state.field.as_str(), Json::Text(text));
                }
                Ok(state)
            },
            FeedEvent::End(name) => {
                if same(name.as_str(), "item") {
                    match make_item(&state.fields) {
                        Some(item) => {
                            items.push(item);
                            assert(item_views(items@) =~= before + seq![item@]);
                        },
                        None => {},
                    }
                    state.in_item = false;
                    state.field = String::new();
                } else if same(name.as_str(), state.field.as_str()) {
                    state.field = String::new();
                }
                Ok(state)
            },
            FeedEvent::Other => Ok(state),
            FeedEvent::Eof => Ok(state),
            FeedEvent::Failed(error) => Err("解析 RSS 失败: ".to_owned().concat(error.as_str())),
        }
    }
}

/// The items that a list of events makes.
pub fn items_of_events(events: Vec<FeedEvent>) -> (r: Result<Vec<FeedItem>, String>)
    ensures
        feed_view(r) == items_from(unread(), event_views(events@)),
{
    let mut state = FeedParser::new();
    let mut items: Vec<FeedItem> = Vec::new();
    let ghost all = event_views(events@);
    let ghost whole = items_from(unread(), all);
    proof {
        assert(item_views(items@) =~= Seq::empty());
        assert(all.skip(0) =~= all);
        assert(continued(Seq::empty(), whole) == whole) by {
            if let Ok(list) = whole {
                assert(Seq::<ItemView>::empty() + list =~= list);
            }
        }
    }
    for event in it: events
        invariant
            it.seq() == events@,
            all == event_views(events@),
            whole == items_from(unread(), all),
            whole == continued(item_views(items@), items_from(state@, all.skip(it.index() as int))),
    {
        let ghost ahead = all.skip(it.index() as int);
        let ghost before = item_views(items@);
        let ghost from = state@;
        assert(ahead[0] == event@);
        assert(ahead.drop_first() =~= all.skip(it.index() + 1));
        if let FeedEvent::Eof = event {
            assert(before + Seq::<ItemView>::empty() =~= before);
            return Ok(items);
        }
        match state.read(event, &mut items) {
            Ok(next) => {
                proof {
                    lemma_continued(from, before, ahead);
                }
                state = next;
            },
            Err(error) => {
                return Err(error);
            },
        }
    }
    assert(all.skip(all.len() as int) =~= Seq::empty());
    assert(item_views(items@) + Seq::<ItemView>::empty() =~= item_views(items@));
    Ok(items)
}

/// What each event of a list is.
pub open spec fn event_views(events: Seq<FeedEvent>) -> Seq<EventView> {
    events.map_values(|e: FeedEvent| e@)
}

proof fn lemma_continued(state: ParserView, before: Seq<ItemView>, events: Seq<EventView>)
    requires
        events.len() > 0,
        !(events[0] is Eof),
        state.after(events[0]) is Ok,
    ensures
        continued(before, items_from(state, events)) == continued(
            before + state.completed(events[0]),
            items_from(state.after(events[0])->Ok_0, events.drop_first()),
        ),
{
    match items_from(state.after(events[0])->Ok_0, events.drop_first()) {
        Ok(items) => {
            assert(before + (state.completed(events[0]) + items) =~= before + state.completed(
                events[0],
            ) + items);
        },
        Err(_) => {},
    }
}

/// All that the reader comes upon in the feed `xml`.
fn read_feed(xml: &str) -> (r: Vec<FeedEvent>)
    ensures
        event_views(r@) == feed_events(xml@),
{
    let mut reader = open_feed(xml);
    let mut events: Vec<FeedEvent> = Vec::new();
    assert(event_views(events@) + events_ahead(reader) =~= feed_events(xml@));
    loop
        invariant
            complete(events_ahead(reader)),
            event_views(events@) + events_ahead(reader) == feed_events(xml@),
        decreases events_ahead(reader).len(),
    {
        let ghost ahead = events_ahead(reader);
        let ghost before = event_views(events@);
        let event = next_event(&mut reader);
        let last = matches!(event, FeedEvent::Eof | FeedEvent::Failed(_));
        events.push(event);
        proof {
            let rest = ahead.drop_first();
            assert(event_views(events@) =~= before.push(event@));
            assert(event_views(events@) + rest =~= before + ahead);
            if last {
                assert(is_last(ahead[0]));
                assert(event_views(events@) + rest =~= event_views(events@));
            } else {
                assert(rest.last() == ahead.last());
                assert forall|i: int| 0 <= i < rest.len() - 1 implies !is_last(
                    #[trigger] rest[i],
                ) by {
                    assert(rest[i] == ahead[i + 1]);
                }
            }
        }
        if last {
            return events;
        }
    }
}

/// The items of the feed `xml`.
pub fn parse_rss(xml: &str) -> (r: Result<Vec<FeedItem>, String>)
    ensures
        feed_view(r) == items_from(unread(), feed_events(xml@)),
{
    items_of_events(read_feed(xml))
}

/// Every item of a feed has a title or a link, without surrounding white space.
pub proof fn law_items_can_be_named(state: ParserView, events: Seq<EventView>, i: int)
    requires
        items_from(state, events) matches Ok(items) && 0 <= i < items.len(),
    ensures
        ({
            let item = items_from(state, events)->Ok_0[i];
            &&& item.title.len() > 0 || item.link.len() > 0
            &&& trimmed(item.title) == item.title
            &&& trimmed(item.link) == item.link
        }),
    decreases events.len(),
{
    if events.len() > 0 && !(events[0] is Eof) {
        let first = state.completed(events[0]);
        let next = state.after(events[0])->Ok_0;
        if i < first.len() {
            crate::text::lemma_trimmed_twice(gathered(state.fields, "title"@));
            crate::text::lemma_trimmed_twice(gathered(state.fields, "link"@));
        } else {
            law_items_can_be_named(next, events.drop_first(), i - first.len());
        }
    }
}

} // verus!
