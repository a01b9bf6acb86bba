//! The XML event stream that the parsers read.
//!
//! quick-xml tokenizes the document; the events it yields are converted into
//! the plain [`XmlEvent`] values below, which the verified parsers consume.
//! Comments, processing instructions, the XML declaration and the DOCTYPE
//! prelude carry nothing the sdef grammar reads and are left out of the
//! stream.

use vstd::prelude::*;

use quick_xml::events::attributes::{AttrError, Attribute, Attributes};
use quick_xml::events::{BytesCData, BytesEnd, BytesStart, BytesText, Event};
use quick_xml::{NsReader, Reader};
use quick_xml::Error as ReadError;

verus! {

#[verifier::external_type_specification]
#[verifier::external_body]
pub struct ExReadError(ReadError);

#[verifier::external_type_specification]
#[verifier::external_body]
pub struct ExAttrError(AttrError);

#[verifier::external_type_specification]
#[verifier::external_body]
#[verifier::reject_recursive_types(R)]
pub struct ExReader<R>(Reader<R>);

#[verifier::external_type_specification]
#[verifier::external_body]
#[verifier::reject_recursive_types(R)]
pub struct ExNsReader<R>(NsReader<R>);

#[verifier::external_type_specification]
#[verifier::external_body]
pub struct ExBytesStart<'a>(BytesStart<'a>);

#[verifier::external_type_specification]
#[verifier::external_body]
pub struct ExBytesEnd<'a>(BytesEnd<'a>);

#[verifier::external_type_specification]
#[verifier::external_body]
pub struct ExBytesText<'a>(BytesText<'a>);

#[verifier::external_type_specification]
#[verifier::external_body]
pub struct ExBytesCData<'a>(BytesCData<'a>);

#[verifier::external_type_specification]
#[verifier::external_body]
pub struct ExAttributes<'a>(Attributes<'a>);

#[verifier::external_type_specification]
#[verifier::external_body]
pub struct ExAttribute<'a>(Attribute<'a>);

/// One attribute of a start tag, as the tokenizer delivered it.
pub enum AttrItem {
    /// A well-formed `key="value"` pair; `value` is the raw, still escaped
    /// text between the quotes.
    Pair { key: Vec<u8>, value: Vec<u8> },
    /// An attribute the tokenizer could not read (duplicate, missing `=`,
    /// unquoted value, ...).
    Malformed(AttrError),
}

/// One event of an XML document.
pub enum XmlEvent {
    /// `<name attr="..">`
    Open { name: Vec<u8>, attrs: Vec<AttrItem> },
    /// `<name attr=".."/>`
    Empty { name: Vec<u8>, attrs: Vec<AttrItem> },
    /// `</name>`
    Close { name: Vec<u8> },
    /// Character data between tags, raw (still escaped).
    Text { raw: Vec<u8> },
    /// The content of a `<![CDATA[..]]>` section.
    CData { raw: Vec<u8> },
    /// End of input.
    Eof,
    /// The tokenizer rejected the input at this point.
    Failed(ReadError),
}

/// What an attribute holds, as plain values: its raw key and raw value, or
/// that the tokenizer could not read it.
pub enum AttrView {
    /// A well-formed `key="value"` pair, raw.
    Pair { key: Seq<u8>, value: Seq<u8> },
    /// An attribute the tokenizer could not read.
    Malformed,
}

/// What an event holds, as plain values; a tokenizer failure is only marked.
pub enum EventView {
    /// `<name attr="..">`
    Open { name: Seq<u8>, attrs: Seq<AttrView> },
    /// `<name attr=".."/>`
    Empty { name: Seq<u8>, attrs: Seq<AttrView> },
    /// `</name>`
    Close { name: Seq<u8> },
    /// Character data between tags, raw.
    Text { raw: Seq<u8> },
    /// The content of a CDATA section.
    CData { raw: Seq<u8> },
    /// End of input.
    Eof,
    /// The tokenizer rejected the input at this point.
    Failed,
}

/// The plain values an attribute holds.
pub open spec fn attr_view(a: AttrItem) -> AttrView {
    match a {
        AttrItem::Pair { key, value } => AttrView::Pair { key: key@, value: value@ },
        AttrItem::Malformed(_) => AttrView::Malformed,
    }
}

/// The plain values of a run of attributes.
pub open spec fn attr_views(s: Seq<AttrItem>) -> Seq<AttrView> {
    s.map_values(|a: AttrItem| attr_view(a))
}

/// The plain values an event holds.
pub open spec fn event_view(e: XmlEvent) -> EventView {
    match e {
        XmlEvent::Open { name, attrs } => EventView::Open { name: name@, attrs: attr_views(attrs@) },
        XmlEvent::Empty { name, attrs } => EventView::Empty { name: name@, attrs: attr_views(attrs@) },
        XmlEvent::Close { name } => EventView::Close { name: name@ },
        XmlEvent::Text { raw } => EventView::Text { raw: raw@ },
        XmlEvent::CData { raw } => EventView::CData { raw: raw@ },
        XmlEvent::Eof => EventView::Eof,
        XmlEvent::Failed(_) => EventView::Failed,
    }
}

/// The plain values of a run of events.
pub open spec fn views(s: Seq<XmlEvent>) -> Seq<EventView> {
    s.map_values(|e: XmlEvent| event_view(e))
}

/// Whether an event opens an element (`<a>` or `<a/>`).
pub open spec fn is_start(e: EventView) -> bool {
    e is Open || e is Empty
}

/// The raw qualified name of a start or end tag.
pub open spec fn tag_bytes(e: EventView) -> Seq<u8> {
    match e {
        EventView::Open { name, .. } => name,
        EventView::Empty { name, .. } => name,
        EventView::Close { name } => name,
        _ => Seq::empty(),
    }
}

/// The attributes of a start tag.
pub open spec fn tag_attrs(e: EventView) -> Seq<AttrView> {
    match e {
        EventView::Open { attrs, .. } => attrs,
        EventView::Empty { attrs, .. } => attrs,
        _ => Seq::empty(),
    }
}

/// What the tokenizer read next, before conversion to an [`XmlEvent`].
pub enum RawEvent<'a> {
    Start(BytesStart<'a>),
    Empty(BytesStart<'a>),
    End(BytesEnd<'a>),
    Text(BytesText<'a>),
    CData(BytesCData<'a>),
    Eof,
    /// A comment, processing instruction, declaration or DOCTYPE.
    Other,
    Failed(ReadError),
}

/// What one step of the tokenizer yields, as plain values; a failure is
/// only marked.
pub enum TokenView {
    Start { name: Seq<u8>, attrs: Seq<AttrView> },
    Empty { name: Seq<u8>, attrs: Seq<AttrView> },
    End { name: Seq<u8> },
    Text { raw: Seq<u8> },
    CData { raw: Seq<u8> },
    Eof,
    /// A comment, processing instruction, declaration or DOCTYPE.
    Other,
    Failed,
}

/// Whether a token ends the stream.
pub open spec fn is_final_token(t: TokenView) -> bool {
    t is Eof || t is Failed
}

/// Whether a run of tokens is non-empty and ends at its first `Eof` or
/// failure.
pub open spec fn token_run(s: Seq<TokenView>) -> bool {
    &&& s.len() > 0
    &&& is_final_token(s.last())
    &&& forall|k: int| 0 <= k < s.len() - 1 ==> !is_final_token(#[trigger] s[k])
}

/// The tokens that `quick_xml::Reader::from_str(xml)` yields through
/// `read_event`, up to and including the first `Eof` or error.
pub uninterp spec fn plain_tokens(xml: Seq<char>) -> Seq<TokenView>;

/// The tokens that `quick_xml::NsReader::from_str(xml)` yields through
/// `read_event`, up to and including the first `Eof` or error.
pub uninterp spec fn ns_tokens(xml: Seq<char>) -> Seq<TokenView>;

/// The tokens a `Reader` has still to yield, up to and including the first
/// `Eof` or error.
pub uninterp spec fn plain_pending(r: Reader<&[u8]>) -> Seq<TokenView>;

/// The tokens an `NsReader` has still to yield, up to and including the
/// first `Eof` or error.
pub uninterp spec fn ns_pending(r: NsReader<&[u8]>) -> Seq<TokenView>;

/// The attributes `BytesStart::attributes` yields for a start tag, in
/// order, each as plain values.
pub uninterp spec fn tag_attributes(e: BytesStart) -> Seq<AttrView>;

/// The attributes an `Attributes` iterator has still to yield.
pub uninterp spec fn attrs_pending(it: Attributes) -> Seq<AttrView>;

/// The plain values of a raw event.
pub open spec fn raw_view(r: RawEvent) -> TokenView {
    match r {
        RawEvent::Start(e) => TokenView::Start { name: start_tag_name(e), attrs: tag_attributes(e) },
        RawEvent::Empty(e) => TokenView::Empty { name: start_tag_name(e), attrs: tag_attributes(e) },
        RawEvent::End(e) => TokenView::End { name: end_tag_name(e) },
        RawEvent::Text(e) => TokenView::Text { raw: text_raw(e) },
        RawEvent::CData(e) => TokenView::CData { raw: cdata_raw(e) },
        RawEvent::Eof => TokenView::Eof,
        RawEvent::Other => TokenView::Other,
        RawEvent::Failed(_) => TokenView::Failed,
    }
}

/// The event a token becomes in the stream the grammar reads; `None` for
/// the tokens it passes over.
pub open spec fn token_event(t: TokenView) -> Option<EventView> {
    match t {
        TokenView::Start { name, attrs } => Some(EventView::Open { name, attrs }),
        TokenView::Empty { name, attrs } => Some(EventView::Empty { name, attrs }),
        TokenView::End { name } => Some(EventView::Close { name }),
        TokenView::Text { raw } => Some(EventView::Text { raw }),
        TokenView::CData { raw } => Some(EventView::CData { raw }),
        TokenView::Eof => Some(EventView::Eof),
        TokenView::Other => None,
        TokenView::Failed => Some(EventView::Failed),
    }
}

/// The events a run of tokens becomes, in order.
pub open spec fn token_events(s: Seq<TokenView>) -> Seq<EventView>
    decreases s.len(),
{
    if s.len() == 0 {
        Seq::empty()
    } else {
        match token_event(s[0]) {
            Some(e) => seq![e] + token_events(s.drop_first()),
            None => token_events(s.drop_first()),
        }
    }
}

/// The events the grammar reads from `xml` through `quick_xml::Reader`.
pub open spec fn plain_doc(xml: Seq<char>) -> Seq<EventView> {
    token_events(plain_tokens(xml))
}

/// The events the grammar reads from `xml` through `quick_xml::NsReader`.
pub open spec fn ns_doc(xml: Seq<char>) -> Seq<EventView> {
    token_events(ns_tokens(xml))
}

/// A tokenizer over a whole document: `quick_xml::Reader::from_str`. Its
/// pending tokens are those of `xml`; quick-xml reads from a finite slice
/// and every token but `Eof` consumes input, so the run reaches an `Eof` or
/// an error.
#[verifier::external_body]
fn plain_reader(xml: &str) -> (r: Reader<&[u8]>)
    ensures
        plain_pending(r) == plain_tokens(xml@),
        token_run(plain_pending(r)),
{
    Reader::from_str(xml)
}

/// A namespace-aware tokenizer over a whole document:
/// `quick_xml::NsReader::from_str`, the tokenizer of quick-xml's serde
/// deserializer. Its pending tokens are those of `xml`, a run that reaches
/// an `Eof` or an error.
#[verifier::external_body]
fn ns_reader(xml: &str) -> (r: NsReader<&[u8]>)
    ensures
        ns_pending(r) == ns_tokens(xml@),
        token_run(ns_pending(r)),
{
    NsReader::from_str(xml)
}

/// The next event of a `Reader`: `quick_xml::Reader::read_event`. It is the
/// first pending token; unless that token ends the run, the rest of the run
/// is then pending. What the reader yields after the run's final token is
/// not stated.
#[verifier::external_body]
fn next_plain<'a>(reader: &mut Reader<&'a [u8]>) -> (r: RawEvent<'a>)
    requires
        plain_pending(*old(reader)).len() > 0,
    ensures
        raw_view(r) == plain_pending(*old(reader))[0],
        plain_pending(*old(reader)).len() > 1 ==> plain_pending(*final(reader)) == plain_pending(
            *old(reader),
        ).drop_first(),
{
    match reader.read_event() {
        Ok(Event::Start(e)) => RawEvent::Start(e),
        Ok(Event::Empty(e)) => RawEvent::Empty(e),
        Ok(Event::End(e)) => RawEvent::End(e),
        Ok(Event::Text(e)) => RawEvent::Text(e),
        Ok(Event::CData(e)) => RawEvent::CData(e),
        Ok(Event::Eof) => RawEvent::Eof,
        Ok(Event::Comment(_)) => RawEvent::Other,
        Ok(Event::Decl(_)) => RawEvent::Other,
        Ok(Event::PI(_)) => RawEvent::Other,
        Ok(Event::DocType(_)) => RawEvent::Other,
        Err(e) => RawEvent::Failed(e),
    }
}

/// The next event of an `NsReader`: `quick_xml::NsReader::read_event`. It
/// is the first pending token; unless that token ends the run, the rest of
/// the run is then pending. What the reader yields after the run's final
/// token is not stated.
#[verifier::external_body]
fn next_ns<'a>(reader: &mut NsReader<&'a [u8]>) -> (r: RawEvent<'a>)
    requires
        ns_pending(*old(reader)).len() > 0,
    ensures
        raw_view(r) == ns_pending(*old(reader))[0],
        ns_pending(*old(reader)).len() > 1 ==> ns_pending(*final(reader)) == ns_pending(
            *old(reader),
        ).drop_first(),
{
    match reader.read_event() {
        Ok(Event::Start(e)) => RawEvent::Start(e),
        Ok(Event::Empty(e)) => RawEvent::Empty(e),
        Ok(Event::End(e)) => RawEvent::End(e),
        Ok(Event::Text(e)) => RawEvent::Text(e),
        Ok(Event::CData(e)) => RawEvent::CData(e),
        Ok(Event::Eof) => RawEvent::Eof,
        Ok(Event::Comment(_)) => RawEvent::Other,
        Ok(Event::Decl(_)) => RawEvent::Other,
        Ok(Event::PI(_)) => RawEvent::Other,
        Ok(Event::DocType(_)) => RawEvent::Other,
        Err(e) => RawEvent::Failed(e),
    }
}

/// What `BytesStart::name` gives for a start tag: its qualified name.
pub uninterp spec fn start_tag_name(e: BytesStart) -> Seq<u8>;

/// The qualified name of a start tag: `BytesStart::name`, a slice of the
/// tag itself; it is named by [`start_tag_name`].
#[verifier::external_body]
fn start_name(e: &BytesStart) -> (r: Vec<u8>)
    ensures
        r@ == start_tag_name(*e),
{
    e.name().as_ref().to_vec()
}

/// An iterator over a start tag's attributes: `BytesStart::attributes`.
/// It has the tag's attributes still to yield.
#[verifier::external_body]
fn start_attributes<'b>(e: &'b BytesStart) -> (r: Attributes<'b>)
    ensures
        attrs_pending(r) == tag_attributes(*e),
{
    e.attributes()
}

/// The next attribute: `Attributes::next`. With nothing pending it gives
/// `None` (the iterator is fused); else it gives the first pending
/// attribute, key and value as raw bytes, and has it behind it.
#[verifier::external_body]
fn next_attribute(it: &mut Attributes) -> (r: Option<AttrItem>)
    ensures
        attrs_pending(*old(it)).len() == 0 ==> (r is None && attrs_pending(*final(it))
            == attrs_pending(*old(it))),
        attrs_pending(*old(it)).len() > 0 ==> (r matches Some(a) && attr_view(a) == attrs_pending(
            *old(it),
        )[0] && attrs_pending(*final(it)) == attrs_pending(*old(it)).drop_first()),
{
    match it.next() {
        Some(Ok(a)) => Some(AttrItem::Pair { key: a.key.as_ref().to_vec(), value: a.value.into_owned() }),
        Some(Err(e)) => Some(AttrItem::Malformed(e)),
        None => None,
    }
}

/// What `BytesEnd::name` gives for an end tag: its qualified name.
pub uninterp spec fn end_tag_name(e: BytesEnd) -> Seq<u8>;

/// The qualified name of an end tag: `BytesEnd::name`, a slice of the tag
/// itself; it is named by [`end_tag_name`].
#[verifier::external_body]
fn end_name(e: &BytesEnd) -> (r: Vec<u8>)
    ensures
        r@ == end_tag_name(*e),
{
    e.name().as_ref().to_vec()
}

/// What `BytesText::into_inner` gives for a text event: its raw bytes.
pub uninterp spec fn text_raw(e: BytesText) -> Seq<u8>;

/// The raw bytes of a text event: `BytesText::into_inner`; they are named
/// by [`text_raw`].
#[verifier::external_body]
fn text_bytes(e: BytesText) -> (r: Vec<u8>)
    ensures
        r@ == text_raw(e),
{
    e.into_inner().into_owned()
}

/// What `BytesCData::into_inner` gives for a CDATA section: its content.
pub uninterp spec fn cdata_raw(e: BytesCData) -> Seq<u8>;

/// The raw bytes of a CDATA section: `BytesCData::into_inner`; they are
/// named by [`cdata_raw`].
#[verifier::external_body]
fn cdata_bytes(e: BytesCData) -> (r: Vec<u8>)
    ensures
        r@ == cdata_raw(e),
{
    e.into_inner().into_owned()
}

proof fn lemma_attr_views_push(s: Seq<AttrItem>, a: AttrItem)
    ensures
        attr_views(s.push(a)) == attr_views(s) + seq![attr_view(a)],
{
    assert(attr_views(s.push(a)) =~= attr_views(s) + seq![attr_view(a)]);
}

proof fn lemma_views_push(s: Seq<XmlEvent>, e: XmlEvent)
    ensures
        views(s.push(e)) == views(s) + seq![event_view(e)],
{
    assert(views(s.push(e)) =~= views(s) + seq![event_view(e)]);
}

/// Reads all attributes of a start tag, in order.
fn read_attributes(e: &BytesStart) -> (r: Vec<AttrItem>)
    ensures
        attr_views(r@) == tag_attributes(*e),
{
    let mut it = start_attributes(e);
    let mut out: Vec<AttrItem> = Vec::new();
    assert(attr_views(out@) =~= Seq::empty());
    assert(Seq::<AttrView>::empty() + attrs_pending(it) =~= attrs_pending(it));
    loop
        invariant
            attr_views(out@) + attrs_pending(it) == tag_attributes(*e),
        decreases attrs_pending(it).len(),
    {
        let ghost before = attrs_pending(it);
        match next_attribute(&mut it) {
            Some(a) => {
                proof {
                    lemma_attr_views_push(out@, a);
                    assert(before =~= seq![before[0]] + before.drop_first());
                    assert(attr_views(out@) + seq![attr_view(a)] + attrs_pending(it) =~= attr_views(out@) + before);
                }
                out.push(a);
            },
            None => {
                assert(attr_views(out@) + before =~= attr_views(out@));
                return out;
            },
        }
    }
}

/// Converts a raw event into an [`XmlEvent`]; `None` for the events the
/// grammar does not read.
fn convert(raw: RawEvent) -> (r: Option<XmlEvent>)
    ensures
        token_event(raw_view(raw)) == (match r {
            Some(ev) => Some(event_view(ev)),
            None => None::<EventView>,
        }),
        raw matches RawEvent::Failed(e) ==> r == Some(XmlEvent::Failed(e)),
{
    match raw {
        RawEvent::Start(e) => {
            let name = start_name(&e);
            let attrs = read_attributes(&e);
            Some(XmlEvent::Open { name, attrs })
        },
        RawEvent::Empty(e) => {
            let name = start_name(&e);
            let attrs = read_attributes(&e);
            Some(XmlEvent::Empty { name, attrs })
        },
        RawEvent::End(e) => Some(XmlEvent::Close { name: end_name(&e) }),
        RawEvent::Text(e) => Some(XmlEvent::Text { raw: text_bytes(e) }),
        RawEvent::CData(e) => Some(XmlEvent::CData { raw: cdata_bytes(e) }),
        RawEvent::Eof => Some(XmlEvent::Eof),
        RawEvent::Other => None,
        RawEvent::Failed(e) => Some(XmlEvent::Failed(e)),
    }
}

/// Whether an event ends the stream.
pub open spec fn is_final(e: XmlEvent) -> bool {
    e is Eof || e is Failed
}

/// One step of reading: the events read so far, followed by what the
/// pending tokens become, give what the whole run becomes; when the first
/// pending token is read, this still holds.
proof fn lemma_read_step(out: Seq<XmlEvent>, before: Seq<TokenView>, whole: Seq<EventView>, got: Option<XmlEvent>)
    requires
        before.len() > 0,
        views(out) + token_events(before) == whole,
        token_event(before[0]) == (match got {
            Some(ev) => Some(event_view(ev)),
            None => None::<EventView>,
        }),
    ensures
        match got {
            Some(ev) => views(out.push(ev)) + token_events(before.drop_first()) == whole,
            None => views(out) + token_events(before.drop_first()) == whole,
        },
{
    match got {
        Some(ev) => {
            lemma_views_push(out, ev);
            assert(views(out) + seq![event_view(ev)] + token_events(before.drop_first())
                =~= views(out) + (seq![event_view(ev)] + token_events(before.drop_first())));
        },
        None => {},
    }
}

/// The events of `xml` as `quick_xml::Reader` yields them, up to and
/// including the first `Eof` or `Failed` event, with comments, processing
/// instructions, the declaration and the DOCTYPE left out.
pub fn plain_events(xml: &str) -> (r: Vec<XmlEvent>)
    ensures
        views(r@) == plain_doc(xml@),
        r@.len() > 0,
        is_final(r@.last()),
        forall|k: int| 0 <= k < r@.len() - 1 ==> !is_final(#[trigger] r@[k]),
{
    let mut reader = plain_reader(xml);
    let mut out: Vec<XmlEvent> = Vec::new();
    assert(views(out@) + token_events(plain_pending(reader)) =~= token_events(plain_pending(reader)));
    loop
        invariant
            token_run(plain_pending(reader)),
            views(out@) + token_events(plain_pending(reader)) == plain_doc(xml@),
            forall|k: int| 0 <= k < out@.len() ==> !is_final(#[trigger] out@[k]),
        decreases plain_pending(reader).len(),
    {
        let ghost before = plain_pending(reader);
        let raw = next_plain(&mut reader);
        let got = convert(raw);
        proof {
            lemma_read_step(out@, before, plain_doc(xml@), got);
            if !is_final_token(before[0]) {
                assert(before.len() > 1);
                assert(token_run(before.drop_first())) by {
                    assert forall|k: int| 0 <= k < before.len() - 2 implies !is_final_token(
                        #[trigger] before.drop_first()[k],
                    ) by {
                        assert(before.drop_first()[k] == before[k + 1]);
                    }
                }
            } else {
                assert(before.len() == 1);
                assert(before.drop_first() =~= Seq::<TokenView>::empty());
            }
        }
        match got {
            Some(e) => {
                let stop = matches!(e, XmlEvent::Eof | XmlEvent::Failed(_));
                out.push(e);
                if stop {
                    assert(views(out@) + Seq::<EventView>::empty() =~= views(out@));
                    return out;
                }
            },
            None => {},
        }
    }
}

/// The events of `xml` as `quick_xml::NsReader` yields them, up to and
/// including the first `Eof` or `Failed` event, with comments, processing
/// instructions, the declaration and the DOCTYPE left out.
pub fn ns_events(xml: &str) -> (r: Vec<XmlEvent>)
    ensures
        views(r@) == ns_doc(xml@),
        r@.len() > 0,
        is_final(r@.last()),
        forall|k: int| 0 <= k < r@.len() - 1 ==> !is_final(#[trigger] r@[k]),
{
    let mut reader = ns_reader(xml);
    let mut out: Vec<XmlEvent> = Vec::new();
    assert(views(out@) + token_events(ns_pending(reader)) =~= token_events(ns_pending(reader)));
    loop
        invariant
            token_run(ns_pending(reader)),
            views(out@) + token_events(ns_pending(reader)) == ns_doc(xml@),
            forall|k: int| 0 <= k < out@.len() ==> !is_final(#[trigger] out@[k]),
        decreases ns_pending(reader).len(),
    {
        let ghost before = ns_pending(reader);
        let raw = next_ns(&mut reader);
        let got = convert(raw);
        proof {
            lemma_read_step(out@, before, ns_doc(xml@), got);
            if !is_final_token(before[0]) {
                assert(before.len() > 1);
                assert(token_run(before.drop_first())) by {
                    assert forall|k: int| 0 <= k < before.len() - 2 implies !is_final_token(
                        #[trigger] before.drop_first()[k],
                    ) by {
                        assert(before.drop_first()[k] == before[k + 1]);
                    }
                }
            } else {
                assert(before.len() == 1);
                assert(before.drop_first() =~= Seq::<TokenView>::empty());
            }
        }
        match got {
            Some(e) => {
                let stop = matches!(e, XmlEvent::Eof | XmlEvent::Failed(_));
                out.push(e);
                if stop {
                    assert(views(out@) + Seq::<EventView>::empty() =~= views(out@));
                    return out;
                }
            },
            None => {},
        }
    }
}

} // verus!
