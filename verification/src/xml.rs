//! The boundary to the low-level XML tokenizer.
//!
//! The tokenizer is `quick_xml`'s pull reader. It is deterministic: the event
//! stream it yields is a function of the document text and of the whitespace
//! trimming choice alone, so that stream is given a name, `tokens_of`, and
//! everything the library proves about a document goes through that name. A
//! reader handle is modelled by the events it has not yet handed out; the
//! pieces of one raw event (its local name, its attributes, its character
//! data) are named as functions of that raw event, and the library assembles
//! them into its own event type in verified code.

use vstd::prelude::*;
use crate::events::{AttrView, EventView, XmlAttr, XmlEvent};
use quick_xml::Reader;
use quick_xml::events::{BytesEnd, BytesStart, BytesText, Event};

verus! {

#[verifier::external_type_specification]
#[verifier::external_body]
#[verifier::reject_recursive_types(R)]
pub struct ExReader<R>(Reader<R>);

#[verifier::external_type_specification]
#[verifier::external_body]
pub struct ExBytesStart<'a>(BytesStart<'a>);

#[verifier::external_type_specification]
#[verifier::external_body]
pub struct ExBytesEnd<'a>(BytesEnd<'a>);

#[verifier::external_type_specification]
#[verifier::external_body]
pub struct ExBytesText<'a>(BytesText<'a>);

/// The full sequence of structural events the tokenizer derives from the
/// given document text, with or without whitespace trimming of character
/// data, up to the end of the text or the first tokenization failure —
/// whichever comes first, so a truncated document simply yields a shorter
/// sequence.
pub uninterp spec fn tokens_of(xml: Seq<char>, trim: bool) -> Seq<EventView>;

/// The events a reader handle has not yet handed out.
pub uninterp spec fn pending_events(r: Reader<&[u8]>) -> Seq<EventView>;

/// The local name of a raw tag, its namespace prefix stripped, as
/// `tag_name` converts it.
pub uninterp spec fn tag_name_of(e: BytesStart) -> Seq<char>;

/// The attributes of a raw tag, in document order, as `tag_attrs` converts
/// them.
pub uninterp spec fn tag_attrs_of(e: BytesStart) -> Seq<AttrView>;

/// The local name of a raw closing tag, as `end_name` converts it.
pub uninterp spec fn end_name_of(e: BytesEnd) -> Seq<char>;

/// The unescaped character data of a raw text event, as `text_content`
/// converts it.
pub uninterp spec fn text_of(t: BytesText) -> Seq<char>;

/// One raw event, its outside payload moved along untouched.
pub enum RawXmlEvent<'a> {
    Tag(BytesStart<'a>, bool),
    End(BytesEnd<'a>),
    Text(BytesText<'a>),
    Other,
    Stop,
}

/// Relies on `quick_xml::Reader::from_str` and `Reader::trim_text`: a fresh
/// reader over the document text will hand out exactly the tokenization of
/// that text, which depends on nothing but the text and the trimming choice.
#[verifier::external_body]
fn reader_new<'s>(xml: &'s str, trim: bool) -> (r: Reader<&'s [u8]>)
    ensures
        pending_events(r) == tokens_of(xml@, trim),
{
    let mut r = Reader::from_str(xml);
    r.trim_text(trim);
    r
}

/// Relies on `quick_xml::Reader::read_event`: hands out the next raw event,
/// telling its kinds apart — an opening or self-closing tag, a closing tag,
/// character data, anything else (a comment, the document declaration, a
/// processing instruction, CDATA), or the end: the end of input or the
/// first tokenization failure.
#[verifier::external_body]
fn read_raw<'a>(r: &mut Reader<&'a [u8]>) -> (ev: RawXmlEvent<'a>)
    ensures
        match ev {
            RawXmlEvent::Tag(e, self_closing) => pending_events(*old(r)).len() > 0
                && pending_events(*old(r))[0] == (if self_closing {
                (EventView::SelfClosing { name: tag_name_of(e), attrs: tag_attrs_of(e) })
            } else {
                (EventView::Open { name: tag_name_of(e), attrs: tag_attrs_of(e) })
            }) && pending_events(*final (r)) == pending_events(*old(r)).drop_first(),
            RawXmlEvent::End(e) => pending_events(*old(r)).len() > 0 && pending_events(*old(r))[0]
                == (EventView::Close { name: end_name_of(e) }) && pending_events(*final (r))
                == pending_events(*old(r)).drop_first(),
            RawXmlEvent::Text(t) => pending_events(*old(r)).len() > 0 && pending_events(
                *old(r),
            )[0] == (EventView::Text { content: text_of(t) }) && pending_events(*final (r))
                == pending_events(*old(r)).drop_first(),
            RawXmlEvent::Other => pending_events(*old(r)).len() > 0 && pending_events(*old(r))[0]
                == EventView::Ignored && pending_events(*final (r)) == pending_events(
                *old(r),
            ).drop_first(),
            RawXmlEvent::Stop => pending_events(*old(r)).len() == 0 && pending_events(
                *final (r),
            ).len() == 0,
        },
{
    match r.read_event() {
        Ok(Event::Start(e)) => RawXmlEvent::Tag(e, false),
        Ok(Event::Empty(e)) => RawXmlEvent::Tag(e, true),
        Ok(Event::End(e)) => RawXmlEvent::End(e),
        Ok(Event::Text(t)) => RawXmlEvent::Text(t),
        Ok(Event::Eof) | Err(_) => RawXmlEvent::Stop,
        Ok(_) => RawXmlEvent::Other,
    }
}

/// Relies on `quick_xml::events::BytesStart::local_name`: the tag's name
/// with its namespace prefix stripped.
#[verifier::external_body]
fn tag_name(e: &BytesStart) -> (r: String)
    ensures
        r@ == tag_name_of(*e),
{
    String::from_utf8_lossy(e.local_name().as_ref()).into_owned()
}

/// Relies on `quick_xml::events::BytesStart::attributes` and
/// `Attribute::unescape_value`: the tag's attributes in document order,
/// keys exactly as written, values unescaped — kept raw when unescaping
/// fails.
#[verifier::external_body]
fn tag_attrs(e: &BytesStart) -> (r: Vec<XmlAttr>)
    ensures
        r.deep_view() == tag_attrs_of(*e),
{
    let mut attrs: Vec<XmlAttr> = Vec::new();
    for a in e.attributes().flatten() {
        let key = String::from_utf8_lossy(a.key.as_ref()).into_owned();
        let value = match a.unescape_value() {
            Ok(v) => v.into_owned(),
            Err(_) => String::from_utf8_lossy(&a.value).into_owned(),
        };
        attrs.push(XmlAttr { key, value });
    }
    attrs
}

/// Relies on `quick_xml::events::BytesEnd::local_name`: the closing tag's
/// name with its namespace prefix stripped.
#[verifier::external_body]
fn end_name(e: &BytesEnd) -> (r: String)
    ensures
        r@ == end_name_of(*e),
{
    String::from_utf8_lossy(e.local_name().as_ref()).into_owned()
}

/// Relies on `quick_xml::events::BytesText::unescape`: the character data
/// with entities resolved — empty when unescaping fails, which adds nothing
/// to any accumulating buffer.
#[verifier::external_body]
fn text_content(t: &BytesText) -> (r: String)
    ensures
        r@ == text_of(*t),
{
    t.unescape().map(|c| c.into_owned()).unwrap_or_default()
}

/// Tokenizes a whole document into its event sequence.
pub fn tokenize(xml: &str, trim: bool) -> (events: Vec<XmlEvent>)
    ensures
        events.deep_view() == tokens_of(xml@, trim),
{
    let mut r = reader_new(xml, trim);
    let mut events: Vec<XmlEvent> = Vec::new();
    proof {
        assert(events.deep_view() + pending_events(r) =~= tokens_of(xml@, trim));
    }
    loop
        invariant
            events.deep_view() + pending_events(r) == tokens_of(xml@, trim),
        decreases pending_events(r).len(),
    {
        let ghost prev_events = events.deep_view();
        let ghost prev_pending = pending_events(r);
        let next = match read_raw(&mut r) {
            RawXmlEvent::Tag(e, self_closing) => {
                let name = tag_name(&e);
                let attrs = tag_attrs(&e);
                if self_closing {
                    XmlEvent::SelfClosing { name, attrs }
                } else {
                    XmlEvent::Open { name, attrs }
                }
            },
            RawXmlEvent::End(e) => XmlEvent::Close { name: end_name(&e) },
            RawXmlEvent::Text(t) => XmlEvent::Text { content: text_content(&t) },
            RawXmlEvent::Other => XmlEvent::Ignored,
            RawXmlEvent::Stop => {
                proof {
                    assert(events.deep_view() =~= tokens_of(xml@, trim));
                }
                return events;
            },
        };
        proof {
            assert(next.deep_view() == prev_pending[0]);
            assert(prev_pending =~= seq![prev_pending[0]] + pending_events(r));
        }
        events.push(next);
        proof {
            assert(events.deep_view() =~= prev_events.push(prev_pending[0]));
            assert(events.deep_view() + pending_events(r) =~= tokens_of(xml@, trim));
        }
    }
}

} // verus!
