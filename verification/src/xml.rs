//! Reading markup: the event stream of a document, as `quick_xml` produces it.

use vstd::prelude::*;
use quick_xml::events::attributes::Attributes;
use quick_xml::events::Event;
use quick_xml::Reader;
use quick_xml::XmlVersion;

verus! {

/// `quick_xml::Reader`, carried as an opaque value.
#[verifier::external_type_specification]
#[verifier::external_body]
#[verifier::reject_recursive_types(R)]
pub struct ExReader<R>(Reader<R>);

/// One attribute of a tag: its name as written and its normalized value.
#[derive(Debug)]
pub struct Attribute {
    pub name: String,
    pub value: String,
}

impl View for Attribute {
    type V = (Seq<char>, Seq<char>);

    open spec fn view(&self) -> (Seq<char>, Seq<char>) {
        (self.name@, self.value@)
    }
}

/// What kind of markup an event is.
#[derive(Clone, Copy, Debug, PartialEq, Eq, Structural)]
pub enum RawKind {
    /// An opening tag; the content is the tag's name and attributes.
    Start,
    /// A self-closing tag; the content is the tag's name and attributes.
    Empty,
    /// A closing tag; the content is the tag's name.
    End,
    /// Character data between markup and references, as written.
    Text,
    /// A literal section; the content is taken as it stands.
    CData,
    /// A reference between `&` and `;`; the content is what stands between them.
    Reference,
    /// The end of the document.
    Eof,
    /// A comment, a declaration, a processing instruction or a document type.
    Other,
}

/// One event of a document: its kind and the text it spans.
#[derive(Debug)]
pub struct RawEvent {
    pub kind: RawKind,
    pub content: String,
}

impl View for RawEvent {
    type V = (RawKind, Seq<char>);

    open spec fn view(&self) -> (RawKind, Seq<char>) {
        (self.kind, self.content@)
    }
}

/// The event that comes `index`-th (from 0) when `text` is read from its
/// start, or `None` where the reader reports an error at that step.
pub uninterp spec fn xml_event(text: Seq<char>, index: nat) -> Option<(RawKind, Seq<char>)>;

/// The text that a reader was opened on.
pub uninterp spec fn reader_text(reader: Reader<&[u8]>) -> Seq<char>;

/// The number of events that a reader has handed out.
pub uninterp spec fn reader_step(reader: Reader<&[u8]>) -> nat;

/// `Reader::from_str`: a reader at the start of `text`, with the default
/// configuration of `quick_xml`.
#[verifier::external_body]
fn open_reader<'a>(text: &'a str) -> (reader: Reader<&'a [u8]>)
    ensures
        reader_text(reader) == text@,
        reader_step(reader) == 0,
{
    Reader::from_str(text)
}

/// `Reader::read_event` on a slice: hands out the next event of the text the
/// reader was opened on, as its kind and the text it derefs to, and moves the
/// reader one step on. An error of the reader comes back as `None`.
#[verifier::external_body]
fn next_event(reader: &mut Reader<&[u8]>) -> (event: Option<RawEvent>)
    ensures
        reader_text(*final(reader)) == reader_text(*old(reader)),
        reader_step(*final(reader)) == reader_step(*old(reader)) + 1,
        match event {
            Some(e) => xml_event(reader_text(*old(reader)), reader_step(*old(reader))) == Some(e@),
            None => xml_event(reader_text(*old(reader)), reader_step(*old(reader))) is None,
        },
{
    let event = reader.read_event().ok()?;
    let kind = match &event {
        Event::Start(_) => RawKind::Start,
        Event::Empty(_) => RawKind::Empty,
        Event::End(_) => RawKind::End,
        Event::Text(_) => RawKind::Text,
        Event::CData(_) => RawKind::CData,
        Event::GeneralRef(_) => RawKind::Reference,
        Event::Eof => RawKind::Eof,
        _ => RawKind::Other,
    };
    Some(RawEvent { kind, content: String::from(&*event) })
}

/// The attributes that stand in `rest`, the part of a tag behind its name:
/// each with its name as written and its value normalized (references
/// resolved, tabs and line ends turned into spaces), in the order written;
/// `None` where one of them is malformed or a name comes twice.
pub uninterp spec fn xml_attributes(rest: Seq<char>) -> Option<Seq<(Seq<char>, Seq<char>)>>;

/// `raw` with every character reference and predefined entity replaced by
/// what it stands for; `None` where one is unknown or not closed.
pub uninterp spec fn xml_unescape(raw: Seq<char>) -> Option<Seq<char>>;

/// `raw` with the characters that markup reserves (`<`, `>`, `&`, the two
/// quotes, the carriage return) replaced by references.
pub uninterp spec fn xml_escape(raw: Seq<char>) -> Seq<char>;

/// `quick_xml::escape::escape`: escapes `raw` for use as text or as an
/// attribute's value.
#[verifier::external_body]
pub(crate) fn escape(raw: &str) -> (r: String)
    ensures
        r@ == xml_escape(raw@),
{
    quick_xml::escape::escape(raw).into_owned()
}

/// The view of a list of attributes.
pub open spec fn attributes_view(attributes: Seq<Attribute>) -> Seq<(Seq<char>, Seq<char>)> {
    attributes.map_values(|a: Attribute| a@)
}

/// `Attributes::new` at position 0, walked to its end: the attributes of a
/// tag, from the text that follows the tag's name. Each value goes through
/// `Attribute::normalized_value` for a document without a version. The first
/// error of the iterator or of a value gives `None`.
#[verifier::external_body]
pub(crate) fn parse_attributes(rest: &str) -> (r: Option<Vec<Attribute>>)
    ensures
        match r {
            Some(attributes) => xml_attributes(rest@) == Some(attributes_view(attributes@)),
            None => xml_attributes(rest@) is None,
        },
{
    Attributes::new(rest, 0)
        .map(|a| {
            let a = a.ok()?;
            let value = a.normalized_value(XmlVersion::Implicit1_0).ok()?.into_owned();
            Some(Attribute { name: String::from(a.key.as_ref()), value })
        })
        .collect()
}

/// `quick_xml::escape::unescape`: resolves the references in `raw`.
#[verifier::external_body]
pub(crate) fn unescape(raw: &str) -> (r: Option<String>)
    ensures
        match r {
            Some(text) => xml_unescape(raw@) == Some(text@),
            None => xml_unescape(raw@) is None,
        },
{
    quick_xml::escape::unescape(raw).ok().map(|text| text.into_owned())
}

/// The most events a document of `text` is read for: one more than its
/// length in bytes.
pub open spec fn event_limit(text: Seq<char>) -> nat {
    ((vstd::utf8::encode_utf8(text).len() as usize) + 1) as nat
}

/// Whether `event` is an event that the document goes on after.
pub open spec fn goes_on(event: Option<(RawKind, Seq<char>)>) -> bool {
    event matches Some(e) && e.0 != RawKind::Eof
}

/// Whether `event` is the event that ends the document.
pub open spec fn is_end(event: Option<(RawKind, Seq<char>)>) -> bool {
    event matches Some(e) && e.0 == RawKind::Eof
}

/// Whether the first `n` events of `text` all exist and none of them ends the
/// document.
pub open spec fn events_run(text: Seq<char>, n: nat) -> bool {
    forall|k: nat| k < n ==> goes_on(#[trigger] xml_event(text, k))
}

/// Whether `events` are the events of `text` up to the one that ends it.
pub open spec fn events_of(text: Seq<char>, events: Seq<(RawKind, Seq<char>)>) -> bool {
    &&& events.len() < event_limit(text)
    &&& events_run(text, events.len())
    &&& forall|k: nat| k < events.len() ==> (#[trigger] xml_event(text, k)) == Some(events[k as int])
    &&& is_end(xml_event(text, events.len()))
}

/// Whether reading `text` fails: the reader reports an error before the
/// document ends, or the document does not end within `event_limit`.
pub open spec fn events_fail(text: Seq<char>) -> bool {
    exists|n: nat|
        #![trigger events_run(text, n)]
        n <= event_limit(text) && events_run(text, n) && (n == event_limit(text) || xml_event(
            text,
            n,
        ) is None)
}

/// The view of a list of events.
pub open spec fn events_view(events: Seq<RawEvent>) -> Seq<(RawKind, Seq<char>)> {
    events.map_values(|e: RawEvent| e@)
}

/// Two lists that are both the events of `text` are the same list, and a text
/// with such a list does not fail.
pub proof fn events_are_determined(
    text: Seq<char>,
    a: Seq<(RawKind, Seq<char>)>,
    b: Seq<(RawKind, Seq<char>)>,
)
    requires
        events_of(text, a),
    ensures
        events_of(text, b) ==> a == b,
        !events_fail(text),
{
    if events_of(text, b) {
        if a.len() < b.len() {
            assert(goes_on(xml_event(text, a.len())));
        }
        if b.len() < a.len() {
            assert(goes_on(xml_event(text, b.len())));
        }
        assert forall|k: int| 0 <= k < a.len() implies a[k] == b[k] by {
            assert(xml_event(text, k as nat) == Some(a[k]));
            assert(xml_event(text, k as nat) == Some(b[k]));
        }
        assert(a =~= b);
    }
    if events_fail(text) {
        let n = choose|n: nat|
            #![trigger events_run(text, n)]
            n <= event_limit(text) && events_run(text, n) && (n == event_limit(text) || xml_event(
                text,
                n,
            ) is None);
        if n > a.len() {
            assert(goes_on(xml_event(text, a.len())));
        } else if n < a.len() {
            assert(goes_on(xml_event(text, n)));
        }
    }
}

/// The events of `text`, the closing one left out, or `None` where reading
/// it fails.
pub open spec fn document_events(text: Seq<char>) -> Option<Seq<(RawKind, Seq<char>)>> {
    if exists|events: Seq<(RawKind, Seq<char>)>| events_of(text, events) {
        Some(choose|events: Seq<(RawKind, Seq<char>)>| events_of(text, events))
    } else {
        None
    }
}

/// A text either has its events or fails, never both.
pub proof fn events_or_failure(text: Seq<char>)
    ensures
        events_fail(text) <==> document_events(text) is None,
{
    if document_events(text) is Some {
        events_are_determined(text, document_events(text)->0, Seq::empty());
    } else {
        // No list is the events of the text: walk to the first step that
        // does not go on.
        let limit = event_limit(text);
        if events_run(text, limit) {
            assert(events_fail(text));
        } else {
            let n = first_stop(text, limit);
            let events = Seq::new(n, |k: int| xml_event(text, k as nat)->0);
            if is_end(xml_event(text, n)) {
                assert(events_of(text, events));
            }
            assert(events_run(text, n));
            assert(events_fail(text));
        }
    }
}

/// The first step below `bound` at which the document does not go on.
proof fn first_stop(text: Seq<char>, bound: nat) -> (n: nat)
    requires
        !events_run(text, bound),
    ensures
        n < bound,
        events_run(text, n),
        !goes_on(xml_event(text, n)),
    decreases bound,
{
    if bound == 0 {
        0
    } else if events_run(text, (bound - 1) as nat) {
        if goes_on(xml_event(text, (bound - 1) as nat)) {
            assert forall|k: nat| k < bound implies goes_on(#[trigger] xml_event(text, k)) by {
                if k < bound - 1 {
                }
            }
        }
        (bound - 1) as nat
    } else {
        first_stop(text, (bound - 1) as nat)
    }
}

/// Reads `text` to its end and returns its events, the closing one left out;
/// `None` where the reader reports an error or the document does not end
/// within `event_limit`.
pub fn read_events(text: &str) -> (r: Option<Vec<RawEvent>>)
    ensures
        match r {
            Some(events) => document_events(text@) == Some(events_view(events@)),
            None => document_events(text@) is None,
        },
{
    let limit = text.len();
    let mut reader = open_reader(text);
    let mut events: Vec<RawEvent> = Vec::new();
    loop
        invariant
            limit + 1 == event_limit(text@),
            reader_text(reader) == text@,
            reader_step(reader) == events.len(),
            events.len() <= limit,
            events_run(text@, events.len() as nat),
            forall|k: nat|
                k < events.len() ==> (#[trigger] xml_event(text@, k)) == Some(events[k as int]@),
        decreases limit - events.len(),
    {
        match next_event(&mut reader) {
            None => {
                assert(events_run(text@, events.len() as nat));
                proof {
                    events_or_failure(text@);
                }
                return None;
            },
            Some(event) => {
                if event.kind == RawKind::Eof {
                    proof {
                        assert forall|k: nat| k < events.len() implies (#[trigger] xml_event(
                            text@,
                            k,
                        )) == Some(events_view(events@)[k as int]) by {}
                        assert(events_of(text@, events_view(events@)));
                        events_are_determined(
                            text@,
                            events_view(events@),
                            document_events(text@)->0,
                        );
                    }
                    return Some(events);
                }
                let ghost before = events@;
                events.push(event);
                proof {
                    assert forall|k: nat| k < events.len() implies goes_on(
                        #[trigger] xml_event(text@, k),
                    ) by {
                        if k < before.len() {
                        }
                    }
                }
                if events.len() > limit {
                    assert(events_run(text@, events.len() as nat));
                    proof {
                        events_or_failure(text@);
                    }
                    return None;
                }
            },
        }
    }
}

} // verus!
