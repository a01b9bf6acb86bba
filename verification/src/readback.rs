//! What the writer writes reads back as what was written, and passes
//! strict mode.
//!
//! The writer ([`crate::emit`]) lays a value out as text; a tokenizer turns
//! that text into events; the reader ([`crate::xmlmap`]) maps the events
//! back onto a value. This module describes the events that spell a written
//! value, element by element in the writer's layout, and proves that the
//! reader maps such events back to the value that was written, and that
//! strict mode ([`crate::strict`]) accepts them.
//!
//! An element spells a value when it is named as the writer names it,
//! without a prefix, when its attributes are, in the writer's order, exactly
//! the attributes the writer writes, each of the written key, with the
//! escaped value as its raw bytes and reading back as the written value, and
//! when its content is, field by field, the child elements the writer
//! writes. A value is written so that it reads back when none of its typed
//! values is an `Other` that wraps one of the DTD's own spellings; it passes
//! strict mode when none of them is an `Other` at all.

use vstd::prelude::*;
use vstd::utf8::*;

use crate::document::{content_end, elem_end, kids_from, well_placed};
use crate::events::{is_start, tag_attrs, AttrView, EventView};
use crate::strict::{allowed_value, bad_attribute_from, closed_rule, known_names, strict_from};
use crate::text::{
    decoded_unescaped, local_part, prefix_part, trim_end_spec, trim_start_spec, utf8_text,
    xml_escaped,
};
use crate::xmlmap::{
    attr_value, attrs_clean, elem_tag, element_text, hits, item_value, items_clean, joined, key_is,
    key_text, lead_trimmed, named, pieces, tag_is, tail_trimmed, text_of, FromXml,
};
use crate::yorn::yes_no_text;

verus! {

broadcast use {vstd::utf8::encode_utf8_decode_utf8, vstd::utf8::encode_utf8_valid_utf8};

// ---------------------------------------------------------------------------
// Attributes
// ---------------------------------------------------------------------------

/// Whether an attribute is the one written for key `k` and value `v`: of
/// name `k`, unprefixed and not a namespace binding, with the escaped value
/// as its raw bytes, which read back as `v`.
pub open spec fn item_spells(item: AttrView, k: Seq<char>, v: Seq<char>) -> bool {
    match item {
        AttrView::Pair { key, value } => {
            &&& !crate::xmlmap::is_ns_binding(key)
            &&& prefix_part(key) is None
            &&& local_part(key) == encode_utf8(k)
            &&& value == encode_utf8(xml_escaped(v))
            &&& decoded_unescaped(value) == Some(v)
        },
        AttrView::Malformed => false,
    }
}

/// Whether `items` are the attributes written for `slots`: one per slot that
/// holds a value, in slot order. A slot is a key and the value written for
/// it, if any.
pub open spec fn attrs_spell(items: Seq<AttrView>, slots: Seq<(Seq<char>, Option<Seq<char>>)>) -> bool
    decreases slots.len(),
{
    if slots.len() == 0 {
        items.len() == 0
    } else {
        match slots.last().1 {
            Some(v) => {
                &&& items.len() > 0
                &&& item_spells(items.last(), slots.last().0, v)
                &&& attrs_spell(items.drop_last(), slots.drop_last())
            },
            None => attrs_spell(items, slots.drop_last()),
        }
    }
}

/// The value written for the slot keyed `k`.
pub open spec fn slot_value(slots: Seq<(Seq<char>, Option<Seq<char>>)>, k: Seq<char>) -> Option<
    Seq<char>,
>
    decreases slots.len(),
{
    if slots.len() == 0 {
        None
    } else if slots.last().0 == k {
        slots.last().1
    } else {
        slot_value(slots.drop_last(), k)
    }
}

/// The keys of the slots are pairwise distinct.
pub open spec fn keys_distinct(slots: Seq<(Seq<char>, Option<Seq<char>>)>) -> bool {
    forall|a: int, b: int| 0 <= a < b < slots.len() ==> slots[a].0 != slots[b].0
}

/// No slot keyed `k` holds a value for `k`.
proof fn lemma_slot_absent(slots: Seq<(Seq<char>, Option<Seq<char>>)>, k: Seq<char>)
    requires
        forall|j: int| 0 <= j < slots.len() ==> slots[j].0 != k,
    ensures
        slot_value(slots, k) is None,
    decreases slots.len(),
{
    if slots.len() > 0 {
        lemma_slot_absent(slots.drop_last(), k);
    }
}

/// The attributes of name `k` among those written for `slots`: none when
/// no value was written for `k`, else the one carrying it.
proof fn lemma_attrs_hits(
    items: Seq<AttrView>,
    slots: Seq<(Seq<char>, Option<Seq<char>>)>,
    k: Seq<char>,
)
    requires
        attrs_spell(items, slots),
        keys_distinct(slots),
    ensures
        attrs_clean(items),
        hits(items, k).len() == 0 <==> slot_value(slots, k) is None,
        slot_value(slots, k) matches Some(v) ==> {
            &&& hits(items, k).len() == 1
            &&& 0 <= hits(items, k)[0] < items.len()
            &&& decoded_unescaped(item_value(items[hits(items, k)[0]])) == Some(v)
        },
    decreases slots.len(),
{
    if slots.len() == 0 {
        return;
    }
    let init = slots.drop_last();
    let kl = slots.last().0;
    assert(keys_distinct(init));
    match slots.last().1 {
        None => {
            lemma_attrs_hits(items, init, k);
            if kl == k {
                lemma_slot_absent(init, k);
            }
        },
        Some(v) => {
            let rest = items.drop_last();
            lemma_attrs_hits(rest, init, k);
            let last = items.last();
            if let AttrView::Pair { key, value } = last {
                assert(key_text(key) == Some(kl));
                if key_is(last, k) {
                    assert(encode_utf8(kl) == encode_utf8(k));
                    assert(decode_utf8(encode_utf8(kl)) == kl);
                    assert(kl == k);
                    lemma_slot_absent(init, k);
                } else {
                    assert(kl != k);
                }
            }
            assert forall|j: int| 0 <= j < items.len() implies (#[trigger] items[j] matches AttrView::Pair {
                key,
                ..
            } && key_text(key) is Some) by {
                if j < rest.len() {
                    assert(items[j] == rest[j]);
                }
            }
        },
    }
}

/// With distinct keys, the value for the key of slot `j` is slot `j`'s.
proof fn lemma_slot_value_at(slots: Seq<(Seq<char>, Option<Seq<char>>)>, j: int)
    requires
        keys_distinct(slots),
        0 <= j < slots.len(),
    ensures
        slot_value(slots, slots[j].0) == slots[j].1,
    decreases slots.len(),
{
    if j < slots.len() - 1 {
        let init = slots.drop_last();
        assert(keys_distinct(init));
        assert(init[j] == slots[j]);
        lemma_slot_value_at(init, j);
    }
}

/// The attributes written for `slots` read back as the slots' values: the
/// attribute keyed as slot `j` gives the value written for that slot, or
/// nothing when none was written.
pub proof fn lemma_attrs_read_back(
    items: Seq<AttrView>,
    slots: Seq<(Seq<char>, Option<Seq<char>>)>,
    j: int,
)
    requires
        attrs_spell(items, slots),
        keys_distinct(slots),
        0 <= j < slots.len(),
    ensures
        attrs_clean(items),
        attr_value(items, slots[j].0) == Ok::<Option<Seq<char>>, ()>(slots[j].1),
{
    lemma_attrs_hits(items, slots, slots[j].0);
    lemma_slot_value_at(slots, j);
}

/// The slot of a required attribute.
pub open spec fn req_slot(k: Seq<char>, v: Seq<char>) -> (Seq<char>, Option<Seq<char>>) {
    (k, Some(v))
}

/// The slot of an optional attribute.
pub open spec fn opt_slot(k: Seq<char>, v: Option<String>) -> (Seq<char>, Option<Seq<char>>) {
    (k, text_of(v))
}

/// The slot of a `(yes | no)` attribute of a `bool` field: written only
/// when set.
pub open spec fn flag_slot(k: Seq<char>, b: bool) -> (Seq<char>, Option<Seq<char>>) {
    (k, if b { Some(yes_no_text(true)) } else { None })
}

/// The slot of a `(yes | no)` attribute of an `Option<bool>` field.
pub open spec fn flag_opt_slot(k: Seq<char>, b: Option<bool>) -> (Seq<char>, Option<Seq<char>>) {
    (
        k,
        match b {
            Some(v) => Some(yes_no_text(v)),
            None => None,
        },
    )
}

/// The attribute text written for one slot: nothing when it holds no value.
pub open spec fn slot_text(slot: (Seq<char>, Option<Seq<char>>)) -> Seq<char> {
    match slot.1 {
        Some(v) => crate::emit::attr_text(slot.0, v),
        None => Seq::empty(),
    }
}

/// The attribute text written for a run of slots, in order.
pub open spec fn slots_text(slots: Seq<(Seq<char>, Option<Seq<char>>)>) -> Seq<char>
    decreases slots.len(),
{
    if slots.len() == 0 {
        Seq::empty()
    } else {
        slots_text(slots.drop_last()) + slot_text(slots.last())
    }
}

/// Whether `text` is an element named `tag` whose start tag carries exactly
/// the attributes written for `slots`: `<`, the name and those attributes,
/// then the end of the start tag.
pub open spec fn written_with_attributes(
    text: Seq<char>,
    tag: Seq<char>,
    slots: Seq<(Seq<char>, Option<Seq<char>>)>,
) -> bool {
    let start = "<"@ + tag + slots_text(slots);
    &&& start.is_prefix_of(text)
    &&& text.len() > start.len()
    &&& (text[start.len() as int] == '>' || text[start.len() as int] == '/')
}

/// One more slot adds its attribute text at the end.
pub proof fn lemma_slots_text_step(slots: Seq<(Seq<char>, Option<Seq<char>>)>, j: int)
    requires
        0 <= j < slots.len(),
    ensures
        slots_text(slots.take(j + 1)) == slots_text(slots.take(j)) + slot_text(slots[j]),
{
    assert(slots.take(j + 1).drop_last() =~= slots.take(j));
}

/// An element written with the attribute text of `slots` carries exactly
/// those attributes.
pub proof fn lemma_element_attributes(
    tag: Seq<char>,
    attrs: Seq<char>,
    body: Seq<char>,
    slots: Seq<(Seq<char>, Option<Seq<char>>)>,
)
    requires
        slots_text(slots) == attrs,
    ensures
        written_with_attributes(crate::emit::element_xml(tag, attrs, body), tag, slots),
{
    let start = "<"@ + tag + attrs;
    let text = crate::emit::element_xml(tag, attrs, body);
    reveal_strlit("/>");
    reveal_strlit(">");
    if body.len() == 0 {
        assert(text =~= start + "/>"@);
    } else {
        assert(text =~= start + (">"@ + body + "</"@ + tag + ">"@));
    }
    assert(text.subrange(0, start.len() as int) =~= start);
}

// ---------------------------------------------------------------------------
// Elements
// ---------------------------------------------------------------------------

/// Number of events an element takes whose content takes `n` events: one
/// self-closing tag when the content is empty, else a start tag, the content
/// and an end tag.
pub open spec fn element_span(n: int) -> int {
    if n == 0 {
        1
    } else {
        n + 2
    }
}

/// Whether the events from `i` on spell the tags of an element named `tag`
/// with the attributes written for `slots` and a content of `n` events.
pub open spec fn element_spelled(
    evs: Seq<EventView>,
    i: int,
    tag: Seq<char>,
    slots: Seq<(Seq<char>, Option<Seq<char>>)>,
    n: int,
) -> bool {
    &&& 0 <= i
    &&& 0 <= n
    &&& i + element_span(n) <= evs.len()
    &&& if n == 0 {
        evs[i] matches EventView::Empty { name, attrs } && prefix_part(name) is None && local_part(
            name,
        ) == encode_utf8(tag) && attrs_spell(attrs, slots)
    } else {
        match evs[i] {
            EventView::Open { name, attrs } => {
                &&& prefix_part(name) is None
                &&& local_part(name) == encode_utf8(tag)
                &&& attrs_spell(attrs, slots)
                &&& evs[i + 1 + n] matches EventView::Close { name: m } && m == name
            },
            _ => false,
        }
    }
}

/// The text of an attribute as it stands in a start tag: a space, the key,
/// `="`, the raw value and a closing quote.
pub open spec fn attr_render(a: AttrView) -> Seq<char> {
    match a {
        AttrView::Pair { key, value } => " "@ + decode_utf8(key) + "=\""@ + decode_utf8(value)
            + "\""@,
        AttrView::Malformed => Seq::empty(),
    }
}

/// The text of a run of attributes, in order.
pub open spec fn attrs_render(attrs: Seq<AttrView>) -> Seq<char>
    decreases attrs.len(),
{
    if attrs.len() == 0 {
        Seq::empty()
    } else {
        attrs_render(attrs.drop_last()) + attr_render(attrs.last())
    }
}

/// The XML text of one event: a start tag, a self-closing tag, an end tag or
/// raw character data.
pub open spec fn event_text(e: EventView) -> Seq<char> {
    match e {
        EventView::Open { name, attrs } => "<"@ + decode_utf8(name) + attrs_render(attrs) + ">"@,
        EventView::Empty { name, attrs } => "<"@ + decode_utf8(name) + attrs_render(attrs) + "/>"@,
        EventView::Close { name } => "</"@ + decode_utf8(name) + ">"@,
        EventView::Text { raw } => decode_utf8(raw),
        EventView::CData { raw } => "<![CDATA["@ + decode_utf8(raw) + "]]>"@,
        _ => Seq::empty(),
    }
}

/// The XML text of a run of events, one after the other.
pub open spec fn events_text(evs: Seq<EventView>) -> Seq<char>
    decreases evs.len(),
{
    if evs.len() == 0 {
        Seq::empty()
    } else {
        events_text(evs.drop_last()) + event_text(evs.last())
    }
}

/// The text of adjacent runs of events is the text of the first followed by
/// that of the second.
pub proof fn lemma_events_text_split(evs: Seq<EventView>, a: int, b: int, c: int)
    requires
        0 <= a <= b <= c <= evs.len(),
    ensures
        events_text(evs.subrange(a, c)) == events_text(evs.subrange(a, b)) + events_text(
            evs.subrange(b, c),
        ),
    decreases c - b,
{
    if b == c {
        assert(evs.subrange(b, c) =~= Seq::<EventView>::empty());
        assert(events_text(evs.subrange(a, b)) + Seq::<char>::empty() =~= events_text(
            evs.subrange(a, b),
        ));
    } else {
        lemma_events_text_split(evs, a, b, c - 1);
        assert(evs.subrange(a, c).drop_last() =~= evs.subrange(a, c - 1));
        assert(evs.subrange(b, c).drop_last() =~= evs.subrange(b, c - 1));
        assert(evs.subrange(a, c).last() == evs.subrange(b, c).last());
        assert(events_text(evs.subrange(a, b)) + events_text(evs.subrange(b, c - 1)) + event_text(
            evs[c - 1],
        ) =~= events_text(evs.subrange(a, b)) + (events_text(evs.subrange(b, c - 1))
            + event_text(evs[c - 1])));
    }
}

/// The text of a single event.
pub proof fn lemma_events_text_one(evs: Seq<EventView>, i: int)
    requires
        0 <= i < evs.len(),
    ensures
        events_text(evs.subrange(i, i + 1)) == event_text(evs[i]),
{
    let one = evs.subrange(i, i + 1);
    assert(one.drop_last() =~= Seq::<EventView>::empty());
    assert(events_text(one.drop_last()) == Seq::<char>::empty());
    assert(one.last() == evs[i]);
    assert(Seq::<char>::empty() + event_text(evs[i]) =~= event_text(evs[i]));
}

/// An unprefixed name whose local part spells `t` is the text `t`.
proof fn lemma_plain_name(name: Seq<u8>, t: Seq<char>)
    requires
        prefix_part(name) is None,
        local_part(name) == encode_utf8(t),
    ensures
        decode_utf8(name) == t,
{
    encode_utf8_decode_utf8(t);
}

/// Attributes that spell the slots have the text written for the slots.
pub proof fn lemma_attrs_render(items: Seq<AttrView>, slots: Seq<(Seq<char>, Option<Seq<char>>)>)
    requires
        attrs_spell(items, slots),
    ensures
        attrs_render(items) == slots_text(slots),
    decreases slots.len(),
{
    if slots.len() == 0 {
        assert(items =~= Seq::<AttrView>::empty());
    } else {
        match slots.last().1 {
            Some(v) => {
                lemma_attrs_render(items.drop_last(), slots.drop_last());
                if let AttrView::Pair { key, value } = items.last() {
                    lemma_plain_name(key, slots.last().0);
                    encode_utf8_decode_utf8(xml_escaped(v));
                }
            },
            None => {
                lemma_attrs_render(items, slots.drop_last());
                assert(slots_text(slots.drop_last()) + Seq::<char>::empty() =~= slots_text(
                    slots.drop_last(),
                ));
            },
        }
    }
}

/// The events that spell an element have as their text the element written
/// with the slots' attributes and, as its content, the text of the events
/// between its tags.
pub proof fn lemma_element_text(
    evs: Seq<EventView>,
    i: int,
    tag: Seq<char>,
    slots: Seq<(Seq<char>, Option<Seq<char>>)>,
    n: int,
    body: Seq<char>,
)
    requires
        element_spelled(evs, i, tag, slots, n),
        n == 0 ==> body.len() == 0,
        n > 0 ==> body.len() > 0 && events_text(evs.subrange(i + 1, i + 1 + n)) == body,
    ensures
        crate::emit::element_xml(tag, slots_text(slots), body) == events_text(
            evs.subrange(i, i + element_span(n)),
        ),
        crate::emit::element_xml(tag, slots_text(slots), body).len() > 0,
{
    reveal_strlit("<");
    lemma_events_text_one(evs, i);
    if n == 0 {
        if let EventView::Empty { name, attrs } = evs[i] {
            lemma_plain_name(name, tag);
            lemma_attrs_render(attrs, slots);
        }
        assert(crate::emit::element_xml(tag, slots_text(slots), body) =~= event_text(evs[i]));
    } else {
        lemma_events_text_one(evs, i + 1 + n);
        lemma_events_text_split(evs, i, i + 1, i + 1 + n);
        lemma_events_text_split(evs, i, i + 1 + n, i + 2 + n);
        if let EventView::Open { name, attrs } = evs[i] {
            lemma_plain_name(name, tag);
            lemma_attrs_render(attrs, slots);
        }
        assert(crate::emit::element_xml(tag, slots_text(slots), body) =~= event_text(evs[i]) + body
            + event_text(evs[i + 1 + n]));
    }
}

/// A type whose written elements read back as the value written.
pub trait ReadsBack: FromXml {
    /// Number of events the value takes when written.
    spec fn event_span(self) -> int;

    /// Whether the events from `i` on spell the value written as an element
    /// named `tag`.
    spec fn spelled(self, evs: Seq<EventView>, i: int, tag: Seq<char>) -> bool;

    /// Whether the value is written so that it reads back: none of its typed
    /// values is an `Other` that wraps one of the DTD's own spellings.
    spec fn writable(self) -> bool;

    /// The events that spell a writable value read back as that value.
    proof fn lemma_reads_back(self, evs: Seq<EventView>, i: int, tag: Seq<char>)
        requires
            self.spelled(evs, i, tag),
            self.writable(),
        ensures
            self.event_span() >= 1,
            i + self.event_span() <= evs.len(),
            elem_end(evs, i) == Some(i + self.event_span()),
            tag_is(evs, i, tag),
            Self::xml_ok(evs, i),
            self.xml_rel(evs, i),
    ;
}

/// Number of events a sequence of values takes when written.
#[verifier::opaque]
pub open spec fn many_span<T: ReadsBack>(items: Seq<T>) -> int
    decreases items.len(),
{
    if items.len() == 0 {
        0
    } else {
        items[0].event_span() + many_span(items.drop_first())
    }
}

/// Whether the events from `p` on spell a sequence of values, each written
/// as an element named `tag`, one after the other.
#[verifier::opaque]
pub open spec fn many_spelled<T: ReadsBack>(
    items: Seq<T>,
    evs: Seq<EventView>,
    p: int,
    tag: Seq<char>,
) -> bool
    decreases items.len(),
{
    items.len() == 0 || (items[0].spelled(evs, p, tag) && many_spelled(
        items.drop_first(),
        evs,
        p + items[0].event_span(),
        tag,
    ))
}

/// A type whose written text is the text of the events that spell it.
pub trait WritesText: ReadsBack + crate::emit::ToXml {
    /// What is written for the value, as an element named `tag`, is the text
    /// of the events that spell it, and is never empty.
    proof fn lemma_written_text(self, evs: Seq<EventView>, i: int, tag: Seq<char>)
        requires
            self.spelled(evs, i, tag),
        ensures
            0 <= i,
            self.event_span() >= 1,
            i + self.event_span() <= evs.len(),
            self.xml_text(tag).len() > 0,
            self.xml_text(tag) == events_text(evs.subrange(i, i + self.event_span())),
    ;
}

/// The text of a sequence of elements starts with that of its first.
pub proof fn lemma_many_text_front<T: crate::emit::ToXml>(items: Seq<T>, tag: Seq<char>)
    requires
        items.len() > 0,
    ensures
        crate::emit::many_text(items, tag) == items[0].xml_text(tag) + crate::emit::many_text(
            items.drop_first(),
            tag,
        ),
    decreases items.len(),
{
    if items.len() == 1 {
        assert(items.drop_last() =~= Seq::<T>::empty());
        assert(items.drop_first() =~= Seq::<T>::empty());
        assert(Seq::<char>::empty() + items[0].xml_text(tag) =~= items[0].xml_text(tag)
            + Seq::<char>::empty());
    } else {
        lemma_many_text_front(items.drop_last(), tag);
        assert(items.drop_last().drop_first() =~= items.drop_first().drop_last());
        assert(items.drop_first().last() == items.last());
        let a = items[0].xml_text(tag);
        let b = crate::emit::many_text(items.drop_first().drop_last(), tag);
        let c = items.last().xml_text(tag);
        assert(a + b + c =~= a + (b + c));
    }
}

/// An optional element is written as a sequence of none or one element.
pub proof fn lemma_one_text<T: crate::emit::ToXml>(item: Option<T>, tag: Seq<char>)
    ensures
        crate::emit::one_text(item, tag) == crate::emit::many_text(opt_seq(item), tag),
{
    let s = opt_seq(item);
    if let Some(x) = item {
        assert(s.len() == 1 && s.last() == x);
        assert(s.drop_last() =~= Seq::<T>::empty());
        assert(crate::emit::many_text(s.drop_last(), tag) == Seq::<char>::empty());
        assert(Seq::<char>::empty() + x.xml_text(tag) =~= x.xml_text(tag));
    } else {
        assert(s.len() == 0);
    }
}

/// The text written for a sequence of values is the text of the events
/// that spell it.
pub proof fn lemma_many_text<T: WritesText>(items: Seq<T>, evs: Seq<EventView>, p: int, tag: Seq<char>)
    requires
        many_spelled(items, evs, p, tag),
        0 <= p,
    ensures
        items.len() == 0 ==> many_span(items) == 0 && crate::emit::many_text(items, tag).len() == 0,
        items.len() > 0 ==> many_span(items) >= 1 && crate::emit::many_text(items, tag).len() > 0
            && p + many_span(items) <= evs.len(),
        (items.len() > 0 || p <= evs.len()) ==> crate::emit::many_text(items, tag) == events_text(
            evs.subrange(p, p + many_span(items)),
        ),
    decreases items.len(),
{
    reveal(many_spelled);
    reveal(many_span);
    if items.len() == 0 {
        if p <= evs.len() {
            assert(evs.subrange(p, p) =~= Seq::<EventView>::empty());
        }
    } else {
        let q = p + items[0].event_span();
        items[0].lemma_written_text(evs, p, tag);
        lemma_many_text(items.drop_first(), evs, q, tag);
        lemma_many_text_front(items, tag);
        lemma_events_text_split(evs, p, q, p + many_span(items));
    }
}

/// Every value of a sequence is writable.
pub open spec fn all_writable<T: ReadsBack>(items: Seq<T>) -> bool {
    forall|k: int| 0 <= k < items.len() ==> (#[trigger] items[k]).writable()
}

/// Where the elements of a sequence written from `p` on start.
#[verifier::opaque]
pub open spec fn many_starts<T: ReadsBack>(items: Seq<T>, p: int) -> Seq<int>
    decreases items.len(),
{
    if items.len() == 0 {
        seq![]
    } else {
        seq![p] + many_starts(items.drop_first(), p + items[0].event_span())
    }
}

/// An optional value as a sequence of none or one value.
pub open spec fn opt_seq<T>(o: Option<T>) -> Seq<T> {
    match o {
        Some(x) => seq![x],
        None => seq![],
    }
}

/// The elements of a sequence written from `p` on read back as the values
/// written, and take the content from `p` to `p + many_span(items)`.
pub proof fn lemma_many_reads_back<T: ReadsBack>(
    items: Seq<T>,
    evs: Seq<EventView>,
    p: int,
    tag: Seq<char>,
)
    requires
        0 <= p,
        many_spelled(items, evs, p, tag),
        all_writable(items),
    ensures
        items.len() <= many_span(items),
        p + many_span(items) <= evs.len() || items.len() == 0,
        many_starts(items, p).len() == items.len(),
        kids_from(evs, p) == many_starts(items, p) + kids_from(evs, p + many_span(items)),
        forall|close: Seq<u8>|
            #![trigger content_end(evs, p, close)]
            content_end(evs, p, close) == content_end(evs, p + many_span(items), close),
        forall|k: int|
            0 <= k < items.len() ==> {
                let s = #[trigger] many_starts(items, p)[k];
                &&& p <= s
                &&& well_placed(evs, s)
                &&& tag_is(evs, s, tag)
                &&& T::xml_ok(evs, s)
                &&& items[k].xml_rel(evs, s)
            },
    decreases items.len(),
{
    reveal(many_span);
    reveal(many_spelled);
    reveal(many_starts);
    if items.len() == 0 {
        assert(many_starts(items, p) + kids_from(evs, p) =~= kids_from(evs, p));
        return;
    }
    let x = items[0];
    let rest = items.drop_first();
    let q = p + x.event_span();
    x.lemma_reads_back(evs, p, tag);
    assert(all_writable(rest)) by {
        assert forall|k: int| 0 <= k < rest.len() implies (#[trigger] rest[k]).writable() by {
            assert(rest[k] == items[k + 1]);
        }
    }
    lemma_many_reads_back(rest, evs, q, tag);
    assert(kids_from(evs, p) == seq![p] + kids_from(evs, q));
    assert(kids_from(evs, p) =~= many_starts(items, p) + kids_from(evs, p + many_span(items)));
    assert forall|close: Seq<u8>| #![trigger content_end(evs, p, close)]
        content_end(evs, p, close) == content_end(evs, p + many_span(items), close) by {
        assert(content_end(evs, p, close) == content_end(evs, q, close));
        assert(content_end(evs, q, close) == content_end(evs, q + many_span(rest), close));
    }
    assert forall|k: int| 0 <= k < items.len() implies {
        let s = #[trigger] many_starts(items, p)[k];
        &&& p <= s
        &&& well_placed(evs, s)
        &&& tag_is(evs, s, tag)
        &&& T::xml_ok(evs, s)
        &&& items[k].xml_rel(evs, s)
    } by {
        if k > 0 {
            assert(many_starts(items, p)[k] == many_starts(rest, q)[k - 1]);
            assert(items[k] == rest[k - 1]);
        }
    }
}

// ---------------------------------------------------------------------------
// Child elements by name
// ---------------------------------------------------------------------------

/// Every position of `s` holds a start tag of local name `tag`.
#[verifier::opaque]
pub open spec fn all_tagged(evs: Seq<EventView>, s: Seq<int>, tag: Seq<char>) -> bool {
    forall|k: int| 0 <= k < s.len() ==> tag_is(evs, #[trigger] s[k], tag)
}

/// Picking the children of one name commutes with concatenation, and a run
/// of children all of name `t` gives itself for `t` and nothing for any other
/// name.
pub proof fn lemma_named_append(evs: Seq<EventView>, a: Seq<int>, s: Seq<int>, t: Seq<char>)
    requires
        all_tagged(evs, s, t),
    ensures
        forall|u: Seq<char>|
            #![trigger named(evs, a + s, u)]
            named(evs, a + s, u) == named(evs, a, u) + (if u == t {
                s
            } else {
                seq![]
            }),
    decreases s.len(),
{
    reveal(all_tagged);
    if s.len() == 0 {
        assert(a + s =~= a);
        assert forall|u: Seq<char>| #![trigger named(evs, a + s, u)]
            named(evs, a + s, u) == named(evs, a, u) + (if u == t {
                s
            } else {
                seq![]
            }) by {
            assert(named(evs, a, u) + seq![] =~= named(evs, a, u));
            assert(named(evs, a, u) + s =~= named(evs, a, u));
        }
        return;
    }
    let init = s.drop_last();
    assert(all_tagged(evs, init, t)) by {
        assert forall|k: int| 0 <= k < init.len() implies tag_is(evs, #[trigger] init[k], t) by {
            assert(init[k] == s[k]);
        }
    }
    lemma_named_append(evs, a, init, t);
    assert((a + s).drop_last() =~= a + init);
    assert((a + s).last() == s.last());
    assert(tag_is(evs, s[s.len() - 1], t));
    assert forall|u: Seq<char>| #![trigger named(evs, a + s, u)]
        named(evs, a + s, u) == named(evs, a, u) + (if u == t {
            s
        } else {
            seq![]
        }) by {
        assert(named(evs, a + init, u) == named(evs, a, u) + (if u == t {
            init
        } else {
            seq![]
        }));
        if u == t {
            assert(named(evs, a + s, u) == named(evs, a + init, u).push(s.last()));
            assert(named(evs, a, u) + init.push(s.last()) =~= (named(evs, a, u) + init).push(
                s.last(),
            ));
            assert(init.push(s.last()) =~= s);
        } else {
            if tag_is(evs, s.last(), u) {
                lemma_tag_unique(evs, s.last(), t, u);
            }
            assert(named(evs, a + s, u) == named(evs, a + init, u));
        }
    }
}

/// Picking the children of name `u` from a run extended by children all of
/// name `t`: the run grows by them when `u` is `t`, and not otherwise.
pub proof fn lemma_named_extend(
    evs: Seq<EventView>,
    a: Seq<int>,
    s: Seq<int>,
    t: Seq<char>,
    u: Seq<char>,
)
    requires
        all_tagged(evs, s, t),
    ensures
        u == t ==> named(evs, a + s, u) == named(evs, a, u) + s,
        u != t ==> named(evs, a + s, u) == named(evs, a, u),
{
    lemma_named_append(evs, a, s, t);
    assert(named(evs, a, u) + Seq::<int>::empty() =~= named(evs, a, u));
}

/// Concatenation is associative.
pub proof fn lemma_seq_assoc(a: Seq<int>, b: Seq<int>, c: Seq<int>)
    ensures
        (a + b) + c == a + (b + c),
{
    assert((a + b) + c =~= a + (b + c));
}

/// A start tag has one local name.
pub proof fn lemma_tag_unique(evs: Seq<EventView>, p: int, t: Seq<char>, u: Seq<char>)
    requires
        tag_is(evs, p, t),
        tag_is(evs, p, u),
    ensures
        t == u,
{
    assert(decode_utf8(encode_utf8(t)) == t);
    assert(decode_utf8(encode_utf8(u)) == u);
}

/// The elements written for a sequence of values are start tags of the name
/// they were written with.
pub proof fn lemma_starts_tagged<T: ReadsBack>(
    items: Seq<T>,
    evs: Seq<EventView>,
    p: int,
    tag: Seq<char>,
)
    requires
        forall|k: int|
            0 <= k < items.len() ==> tag_is(evs, #[trigger] many_starts(items, p)[k], tag),
        many_starts(items, p).len() == items.len(),
    ensures
        all_tagged(evs, many_starts(items, p), tag),
{
    reveal(all_tagged);
    assert forall|k: int| 0 <= k < many_starts(items, p).len() implies tag_is(
        evs,
        #[trigger] many_starts(items, p)[k],
        tag,
    ) by {}
}

/// A start tag of local name `tag` holds a name that decodes.
pub proof fn lemma_tag_decodes(evs: Seq<EventView>, p: int, tag: Seq<char>)
    requires
        tag_is(evs, p, tag),
    ensures
        elem_tag(evs, p) == Some(tag),
{
}

/// The tags of an element that spells a value, with the content whose items
/// start at the positions `kids`: where the element ends and which children
/// it has.
pub proof fn lemma_element_tags(
    evs: Seq<EventView>,
    i: int,
    tag: Seq<char>,
    slots: Seq<(Seq<char>, Option<Seq<char>>)>,
    n: int,
    kids: Seq<int>,
)
    requires
        element_spelled(evs, i, tag, slots, n),
        n == 0 ==> kids.len() == 0,
        n > 0 ==> kids_from(evs, i + 1) == kids + kids_from(evs, i + 1 + n),
        n > 0 ==> forall|close: Seq<u8>|
            #![trigger content_end(evs, i + 1, close)]
            content_end(evs, i + 1, close) == content_end(evs, i + 1 + n, close),
    ensures
        elem_end(evs, i) == Some(i + element_span(n)),
        crate::document::children(evs, i) == kids,
        tag_is(evs, i, tag),
        well_placed(evs, i),
        attrs_spell(tag_attrs(evs[i]), slots),
{
    if n > 0 {
        if let EventView::Open { name, .. } = evs[i] {
            assert(content_end(evs, i + 1 + n, name) == Some(i + 2 + n));
            assert(content_end(evs, i + 1, name) == content_end(evs, i + 1 + n, name));
            assert(kids_from(evs, i + 1 + n) == Seq::<int>::empty());
            assert(kids + Seq::<int>::empty() =~= kids);
        }
    }
}

/// Every position of `s` holds a start tag whose local name decodes.
#[verifier::opaque]
pub open spec fn tags_decode(evs: Seq<EventView>, s: Seq<int>) -> bool {
    forall|k: int| 0 <= k < s.len() ==> is_start(evs[#[trigger] s[k]]) && elem_tag(evs, s[k]) is Some
}

/// Start tags of one local name have names that decode.
pub proof fn lemma_tagged_decode(evs: Seq<EventView>, s: Seq<int>, tag: Seq<char>)
    requires
        all_tagged(evs, s, tag),
    ensures
        tags_decode(evs, s),
{
    reveal(all_tagged);
    reveal(tags_decode);
    assert forall|k: int| 0 <= k < s.len() implies is_start(evs[#[trigger] s[k]]) && elem_tag(
        evs,
        s[k],
    ) is Some by {
        assert(tag_is(evs, s[k], tag));
    }
}

/// An empty run of children has names that decode.
pub proof fn lemma_decode_empty(evs: Seq<EventView>)
    ensures
        tags_decode(evs, seq![]),
{
    reveal(tags_decode);
}

/// Names that decode, in two runs of children.
pub proof fn lemma_decode_append(evs: Seq<EventView>, a: Seq<int>, b: Seq<int>)
    requires
        tags_decode(evs, a),
        tags_decode(evs, b),
    ensures
        tags_decode(evs, a + b),
{
    reveal(tags_decode);
    assert forall|k: int| 0 <= k < (a + b).len() implies is_start(evs[#[trigger] (a + b)[k]])
        && elem_tag(evs, (a + b)[k]) is Some by {
        if k < a.len() {
            assert((a + b)[k] == a[k]);
        } else {
            assert((a + b)[k] == b[k - a.len()]);
        }
    }
}

/// Children that are all start tags with names that decode are readable.
pub proof fn lemma_decode_clean(evs: Seq<EventView>, s: Seq<int>)
    requires
        tags_decode(evs, s),
    ensures
        items_clean(evs, s),
{
    reveal(tags_decode);
    assert forall|k: int| 0 <= k < s.len() implies match #[trigger] evs[s[k]] {
        EventView::Text { raw } => decoded_unescaped(raw) is Some,
        EventView::CData { raw } => utf8_text(raw) is Some,
        _ => elem_tag(evs, s[k]) is Some,
    } by {
        assert(is_start(evs[s[k]]));
    }
}

// ---------------------------------------------------------------------------
// Text
// ---------------------------------------------------------------------------

/// Whether raw text bytes are the escaped text `s`, carry no leading or
/// trailing XML whitespace and read back as `s`. The reader trims the raw
/// text of an element, so whitespace around a text is not part of what it
/// reads as.
pub open spec fn text_spells(raw: Seq<u8>, s: Seq<char>) -> bool {
    &&& raw == encode_utf8(xml_escaped(s))
    &&& trim_start_spec(raw) == raw
    &&& trim_end_spec(raw) == raw
    &&& decoded_unescaped(raw) == Some(s)
}

/// Number of events an element holding the text `s` takes: a self-closing
/// tag for an empty text, else a start tag, the text and an end tag.
pub open spec fn text_span(s: Seq<char>) -> int {
    if s.len() == 0 {
        1
    } else {
        3
    }
}

/// Whether the events from `i` on spell an element named `tag`, without
/// attributes, that holds the text `s`.
pub open spec fn text_element_spelled(evs: Seq<EventView>, i: int, tag: Seq<char>, s: Seq<char>) -> bool {
    &&& 0 <= i
    &&& i + text_span(s) <= evs.len()
    &&& if s.len() == 0 {
        evs[i] matches EventView::Empty { name, attrs } && prefix_part(name) is None && local_part(
            name,
        ) == encode_utf8(tag) && attrs.len() == 0
    } else {
        match evs[i] {
            EventView::Open { name, attrs } => {
                &&& prefix_part(name) is None
                &&& local_part(name) == encode_utf8(tag)
                &&& attrs.len() == 0
                &&& evs[i + 1] matches EventView::Text { raw } && raw.len() > 0 && text_spells(
                    raw,
                    s,
                )
                &&& evs[i + 2] matches EventView::Close { name: m } && m == name
            },
            _ => false,
        }
    }
}

/// An element that spells a text reads back as that text.
pub proof fn lemma_text_element(evs: Seq<EventView>, i: int, tag: Seq<char>, s: Seq<char>)
    requires
        text_element_spelled(evs, i, tag, s),
    ensures
        elem_end(evs, i) == Some(i + text_span(s)),
        tag_is(evs, i, tag),
        well_placed(evs, i),
        element_text(evs, i) == Some(s),
{
    if s.len() > 0 {
        if let EventView::Open { name, .. } = evs[i] {
            if let EventView::Text { raw } = evs[i + 1] {
                assert(content_end(evs, i + 2, name) == Some(i + 3));
                assert(content_end(evs, i + 1, name) == Some(i + 3));
                assert(kids_from(evs, i + 2) == Seq::<int>::empty());
                assert(kids_from(evs, i + 1) =~= seq![i + 1]);
                let ks = crate::document::children(evs, i);
                assert(ks =~= seq![i + 1]);
                let ps = pieces(evs, ks);
                assert(ps =~= seq![(true, raw)]);
                assert(lead_trimmed(ps) =~= seq![(true, raw)]) by {
                    assert(ps.drop_first() =~= Seq::<(bool, Seq<u8>)>::empty());
                }
                assert(tail_trimmed(lead_trimmed(ps)) =~= seq![(true, raw)]);
                let run = seq![(true, raw)];
                assert(run.drop_last() =~= Seq::<(bool, Seq<u8>)>::empty());
                assert(joined(run) == Some(Seq::<char>::empty() + s));
                assert(Seq::<char>::empty() + s =~= s);
            }
        }
    } else {
        assert(joined(Seq::<(bool, Seq<u8>)>::empty()) == Some(Seq::<char>::empty()));
        assert(pieces(evs, Seq::<int>::empty()) =~= Seq::<(bool, Seq<u8>)>::empty());
        assert(s =~= Seq::<char>::empty());
    }
}

/// Number of events a sequence of text elements takes.
pub open spec fn texts_span(ts: Seq<String>) -> int
    decreases ts.len(),
{
    if ts.len() == 0 {
        0
    } else {
        text_span(ts[0]@) + texts_span(ts.drop_first())
    }
}

/// Whether the events from `p` on spell text elements named `tag` holding
/// the texts `ts`, one after the other.
pub open spec fn texts_spelled(ts: Seq<String>, evs: Seq<EventView>, p: int, tag: Seq<char>) -> bool
    decreases ts.len(),
{
    ts.len() == 0 || (text_element_spelled(evs, p, tag, ts[0]@) && texts_spelled(
        ts.drop_first(),
        evs,
        p + text_span(ts[0]@),
        tag,
    ))
}

/// Where the text elements written from `p` on start.
pub open spec fn texts_starts(ts: Seq<String>, p: int) -> Seq<int>
    decreases ts.len(),
{
    if ts.len() == 0 {
        seq![]
    } else {
        seq![p] + texts_starts(ts.drop_first(), p + text_span(ts[0]@))
    }
}

/// Text elements written from `p` on read back as the texts written.
pub proof fn lemma_texts_read_back(ts: Seq<String>, evs: Seq<EventView>, p: int, tag: Seq<char>)
    requires
        0 <= p,
        texts_spelled(ts, evs, p, tag),
    ensures
        0 <= texts_span(ts),
        texts_starts(ts, p).len() == ts.len(),
        kids_from(evs, p) == texts_starts(ts, p) + kids_from(evs, p + texts_span(ts)),
        forall|close: Seq<u8>|
            #![trigger content_end(evs, p, close)]
            content_end(evs, p, close) == content_end(evs, p + texts_span(ts), close),
        all_tagged(evs, texts_starts(ts, p), tag),
        forall|k: int|
            0 <= k < ts.len() ==> element_text(evs, #[trigger] texts_starts(ts, p)[k]) == Some(
                ts[k]@,
            ),
    decreases ts.len(),
{
    reveal(all_tagged);
    if ts.len() == 0 {
        assert(texts_starts(ts, p) + kids_from(evs, p) =~= kids_from(evs, p));
        return;
    }
    let rest = ts.drop_first();
    let q = p + text_span(ts[0]@);
    lemma_text_element(evs, p, tag, ts[0]@);
    lemma_texts_read_back(rest, evs, q, tag);
    assert(kids_from(evs, p) =~= texts_starts(ts, p) + kids_from(evs, p + texts_span(ts)));
    assert forall|close: Seq<u8>| #![trigger content_end(evs, p, close)]
        content_end(evs, p, close) == content_end(evs, p + texts_span(ts), close) by {
        assert(content_end(evs, p, close) == content_end(evs, q, close));
    }
    assert forall|k: int| 0 <= k < texts_starts(ts, p).len() implies tag_is(
        evs,
        #[trigger] texts_starts(ts, p)[k],
        tag,
    ) by {
        if k > 0 {
            assert(texts_starts(ts, p)[k] == texts_starts(rest, q)[k - 1]);
        }
    }
    assert forall|k: int| 0 <= k < ts.len() implies element_text(
        evs,
        #[trigger] texts_starts(ts, p)[k],
    ) == Some(ts[k]@) by {
        if k > 0 {
            assert(texts_starts(ts, p)[k] == texts_starts(rest, q)[k - 1]);
            assert(ts[k] == rest[k - 1]);
        }
    }
}

// ---------------------------------------------------------------------------
// Strict mode
// ---------------------------------------------------------------------------

/// Whether an attribute, if strict mode checks it against the closed set
/// `allowed` for `attribute`, passes.
pub open spec fn attribute_passes(item: AttrView, attribute: Seq<char>, allowed: Seq<Seq<char>>) -> bool {
    match item {
        AttrView::Pair { key, value } => (prefix_part(key) is None && local_part(key)
            == encode_utf8(attribute)) ==> allowed_value(value, allowed),
        AttrView::Malformed => true,
    }
}

/// No attribute from the `k`-th on that strict mode checks against the
/// closed set `allowed` for `attribute` breaks it.
pub proof fn lemma_no_bad_attribute(
    items: Seq<AttrView>,
    k: int,
    attribute: Seq<char>,
    allowed: Seq<Seq<char>>,
)
    requires
        0 <= k,
        forall|m: int|
            k <= m < items.len() ==> attribute_passes(#[trigger] items[m], attribute, allowed),
    ensures
        bad_attribute_from(items, k, attribute, allowed) is None,
    decreases items.len() - k,
{
    if k < items.len() {
        lemma_no_bad_attribute(items, k + 1, attribute, allowed);
    }
}

/// Whether an attribute is the one written for a slot that holds a value.
pub open spec fn slot_spelled(item: AttrView, slot: (Seq<char>, Option<Seq<char>>)) -> bool {
    match slot.1 {
        Some(v) => item_spells(item, slot.0, v),
        None => false,
    }
}

/// Every attribute written for `slots` is the one written for some slot
/// that holds a value.
pub proof fn lemma_items_from_slots(items: Seq<AttrView>, slots: Seq<(Seq<char>, Option<Seq<char>>)>)
    requires
        attrs_spell(items, slots),
    ensures
        forall|m: int|
            0 <= m < items.len() ==> exists|j: int|
                0 <= j < slots.len() && slot_spelled(#[trigger] items[m], #[trigger] slots[j]),
    decreases slots.len(),
{
    if slots.len() == 0 {
        return;
    }
    let init = slots.drop_last();
    let last = slots.len() - 1;
    match slots.last().1 {
        None => {
            lemma_items_from_slots(items, init);
            assert forall|m: int| 0 <= m < items.len() implies exists|j: int|
                0 <= j < slots.len() && slot_spelled(#[trigger] items[m], #[trigger] slots[j]) by {
                let j = choose|j: int| 0 <= j < init.len() && slot_spelled(items[m], #[trigger] init[j]);
                assert(slots[j] == init[j]);
                assert(slot_spelled(items[m], slots[j]));
            }
        },
        Some(v) => {
            let rest = items.drop_last();
            lemma_items_from_slots(rest, init);
            assert forall|m: int| 0 <= m < items.len() implies exists|j: int|
                0 <= j < slots.len() && slot_spelled(#[trigger] items[m], #[trigger] slots[j]) by {
                if m < rest.len() {
                    assert(items[m] == rest[m]);
                    let j = choose|j: int| 0 <= j < init.len() && slot_spelled(rest[m], #[trigger] init[j]);
                    assert(slots[j] == init[j]);
                    assert(slot_spelled(items[m], slots[j]));
                } else {
                    assert(slot_spelled(items[m], slots[last]));
                }
            }
        },
    }
}

/// The attribute written for slot `j`, if any, is the only one of its name;
/// when its escaped value is in the closed set `allowed`, strict mode finds
/// no bad attribute of that name.
pub proof fn lemma_closed_attribute_passes(
    items: Seq<AttrView>,
    slots: Seq<(Seq<char>, Option<Seq<char>>)>,
    j: int,
    allowed: Seq<Seq<char>>,
)
    requires
        attrs_spell(items, slots),
        keys_distinct(slots),
        0 <= j < slots.len(),
        slots[j].1 matches Some(v) ==> allowed_value(encode_utf8(xml_escaped(v)), allowed),
    ensures
        bad_attribute_from(items, 0, slots[j].0, allowed) is None,
{
    lemma_items_from_slots(items, slots);
    let attribute = slots[j].0;
    assert forall|m: int| 0 <= m < items.len() implies attribute_passes(
        #[trigger] items[m],
        attribute,
        allowed,
    ) by {
        let w = choose|w: int| 0 <= w < slots.len() && slot_spelled(items[m], #[trigger] slots[w]);
        if let AttrView::Pair { key, value } = items[m] {
            if local_part(key) == encode_utf8(attribute) {
                assert(decode_utf8(encode_utf8(slots[w].0)) == slots[w].0);
                assert(decode_utf8(encode_utf8(attribute)) == attribute);
                assert(slots[w].0 == attribute);
                if w != j {
                    if w < j {
                        assert(slots[w].0 != slots[j].0);
                    } else {
                        assert(slots[j].0 != slots[w].0);
                    }
                }
            }
        }
    }
    lemma_no_bad_attribute(items, 0, attribute, allowed);
}

/// A text without the five characters the writer escapes is written as
/// itself.
pub proof fn lemma_plain_escaped(s: Seq<char>)
    requires
        forall|j: int|
            0 <= j < s.len() ==> #[trigger] s[j] != '<' && s[j] != '>' && s[j] != '&' && s[j]
                != '\'' && s[j] != '"',
    ensures
        xml_escaped(s) == s,
    decreases s.len(),
{
    if s.len() > 0 {
        lemma_plain_escaped(s.drop_last());
        assert(xml_escaped(s.drop_last()) + seq![s.last()] =~= s);
    }
}

/// The start tag of an element that spells a value, of a name strict mode
/// knows, passes strict mode when its closed-enumeration attribute, if the
/// element has one, does; its end tag passes in any case.
pub proof fn lemma_tags_pass_strict(
    evs: Seq<EventView>,
    i: int,
    tag: Seq<char>,
    slots: Seq<(Seq<char>, Option<Seq<char>>)>,
    n: int,
)
    requires
        element_spelled(evs, i, tag, slots, n),
        known_names().contains(tag),
        closed_rule(tag) matches Some((attribute, allowed)) ==> bad_attribute_from(
            tag_attrs(evs[i]),
            0,
            attribute,
            allowed,
        ) is None,
    ensures
        strict_from(evs, i) == strict_from(evs, i + 1),
        n > 0 ==> strict_from(evs, i + 1 + n) == strict_from(evs, i + element_span(n)),
{
    assert(decode_utf8(encode_utf8(tag)) == tag);
}

/// A type whose written elements pass strict mode when none of its typed
/// values is an `Other`.
pub trait StrictSafe: ReadsBack {
    /// The name the value is written with.
    spec fn element_name() -> Seq<char>;

    /// Whether none of the value's typed values is an `Other`.
    spec fn canonical(self) -> bool;

    /// The events that spell a canonical value pass strict mode.
    proof fn lemma_passes_strict(self, evs: Seq<EventView>, i: int)
        requires
            self.spelled(evs, i, Self::element_name()),
            self.canonical(),
        ensures
            self.event_span() >= 1,
            strict_from(evs, i) == strict_from(evs, i + self.event_span()),
    ;
}

/// Every value of a sequence is canonical.
pub open spec fn all_canonical<T: StrictSafe>(items: Seq<T>) -> bool {
    forall|k: int| 0 <= k < items.len() ==> (#[trigger] items[k]).canonical()
}

/// The elements written for a sequence of canonical values pass strict mode.
pub proof fn lemma_many_pass_strict<T: StrictSafe>(items: Seq<T>, evs: Seq<EventView>, p: int)
    requires
        0 <= p,
        many_spelled(items, evs, p, T::element_name()),
        all_canonical(items),
    ensures
        items.len() <= many_span(items),
        strict_from(evs, p) == strict_from(evs, p + many_span(items)),
    decreases items.len(),
{
    reveal(many_span);
    reveal(many_spelled);
    if items.len() > 0 {
        let rest = items.drop_first();
        items[0].lemma_passes_strict(evs, p);
        assert(all_canonical(rest)) by {
            assert forall|k: int| 0 <= k < rest.len() implies (#[trigger] rest[k]).canonical() by {
                assert(rest[k] == items[k + 1]);
            }
        }
        lemma_many_pass_strict(rest, evs, p + items[0].event_span());
    }
}

/// The text elements written from `p` on, of a name strict mode knows and
/// checks no attribute of, pass strict mode.
pub proof fn lemma_texts_pass_strict(ts: Seq<String>, evs: Seq<EventView>, p: int, tag: Seq<char>)
    requires
        0 <= p,
        texts_spelled(ts, evs, p, tag),
        known_names().contains(tag),
        closed_rule(tag) is None,
    ensures
        strict_from(evs, p) == strict_from(evs, p + texts_span(ts)),
    decreases ts.len(),
{
    if ts.len() > 0 {
        assert(decode_utf8(encode_utf8(tag)) == tag);
        if ts[0]@.len() > 0 {
            assert(strict_from(evs, p + 2) == strict_from(evs, p + 3));
            assert(strict_from(evs, p + 1) == strict_from(evs, p + 2));
        }
        assert(strict_from(evs, p) == strict_from(evs, p + 1));
        lemma_texts_pass_strict(ts.drop_first(), evs, p + text_span(ts[0]@), tag);
    }
}

} // verus!
