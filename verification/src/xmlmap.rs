//! How the elements of a document map onto the typed AST.
//!
//! Each AST type reads one element: its attributes by local name, its child
//! elements by local name (in document order, wherever they stand among
//! their siblings), and nothing else. Unknown attributes and unknown child
//! elements are passed over. An element that is read must have well-formed
//! attributes, child tags that decode as UTF-8, and text that unescapes.

use vstd::prelude::*;
use vstd::utf8::*;

use crate::document::{
    children, child_positions, ints, items_placed, lemma_children_placed, well_placed,
};
use crate::error::{custom_error, shape_error, Error};

use quick_xml::events::attributes::AttrError;
use crate::yorn::{de, de_opt, opt_text, yes_no, yes_no_opt};
use crate::events::{attr_view, attr_views, is_start, tag_attrs, tag_bytes, views, AttrItem, AttrView, EventView, XmlEvent};
use crate::text::{
    bytes_are_text, decode_text, decode_unescape, decoded_unescaped, local_name, local_part,
    slice_range, trim_end, trim_end_spec, trim_start, trim_start_spec, utf8_text,
};

verus! {

broadcast use {vstd::utf8::encode_utf8_decode_utf8, vstd::utf8::encode_utf8_valid_utf8};

// ---------------------------------------------------------------------------
// Tags
// ---------------------------------------------------------------------------

/// The decoded local name of the start tag at `p`.
pub open spec fn elem_tag(evs: Seq<EventView>, p: int) -> Option<Seq<char>> {
    utf8_text(local_part(tag_bytes(evs[p])))
}

/// Whether position `p` holds a start tag of local name `tag`.
pub open spec fn tag_is(evs: Seq<EventView>, p: int, tag: Seq<char>) -> bool {
    is_start(evs[p]) && local_part(tag_bytes(evs[p])) == encode_utf8(tag)
}

/// The positions among `ks` that hold start tags of local name `tag`.
pub open spec fn named(evs: Seq<EventView>, ks: Seq<int>, tag: Seq<char>) -> Seq<int>
    decreases ks.len(),
{
    if ks.len() == 0 {
        seq![]
    } else if tag_is(evs, ks.last(), tag) {
        named(evs, ks.drop_last(), tag).push(ks.last())
    } else {
        named(evs, ks.drop_last(), tag)
    }
}

/// The children picked by name are among the children, and of that name.
pub proof fn lemma_named_subset(evs: Seq<EventView>, ks: Seq<int>, tag: Seq<char>)
    ensures
        forall|j: int|
            0 <= j < named(evs, ks, tag).len() ==> ks.contains(#[trigger] named(evs, ks, tag)[j])
                && tag_is(evs, named(evs, ks, tag)[j], tag),
    decreases ks.len(),
{
    if ks.len() > 0 {
        lemma_named_subset(evs, ks.drop_last(), tag);
        let n = named(evs, ks, tag);
        let m = named(evs, ks.drop_last(), tag);
        assert forall|j: int| 0 <= j < n.len() implies ks.contains(#[trigger] n[j]) && tag_is(
            evs,
            n[j],
            tag,
        ) by {
            if j < m.len() {
                assert(ks.drop_last().contains(m[j]));
                let w = choose|w: int| 0 <= w < ks.drop_last().len() && ks.drop_last()[w] == m[j];
                assert(ks[w] == m[j]);
            } else {
                assert(ks[ks.len() - 1] == n[j]);
            }
        }
    }
}

/// The positions of the start tags of local name `tag` among `ks`.
pub fn named_positions(evs: &Vec<XmlEvent>, ks: &Vec<usize>, tag: &str) -> (r: Vec<usize>)
    requires
        forall|k: int| 0 <= k < ks@.len() ==> #[trigger] ks@[k] < views(evs@).len(),
    ensures
        ints(r@) == named(
            views(evs@),
            ints(ks@),
            tag@,
        ),
{
    let ghost all = ints(ks@);
    let mut out: Vec<usize> = Vec::new();
    let mut k: usize = 0;
    while k < ks.len()
        invariant
            all == ints(ks@),
            forall|j: int| 0 <= j < ks@.len() ==> #[trigger] ks@[j] < views(evs@).len(),
            0 <= k <= ks@.len(),
            ints(out@) == named(views(evs@), all.take(k as int), tag@),
        decreases ks.len() - k,
    {
        let p = ks[k];
        assert(all.take(k + 1).drop_last() =~= all.take(k as int));
        assert(all.take(k + 1).last() == p as int);
        let hit = match &evs[p] {
            XmlEvent::Open { name, .. } => bytes_are_text(local_name(name.as_slice()).as_slice(), tag),
            XmlEvent::Empty { name, .. } => bytes_are_text(local_name(name.as_slice()).as_slice(), tag),
            _ => false,
        };
        if hit {
            let ghost before = ints(out@);
            out.push(p);
            assert(ints(out@) =~= before.push(p as int));
        } else {
            assert(ints(out@) == named(views(evs@), all.take(k + 1), tag@));
        }
        k = k + 1;
    }
    assert(all.take(ks@.len() as int) =~= all);
    out
}

// ---------------------------------------------------------------------------
// Well-formedness of an element that is read
// ---------------------------------------------------------------------------

/// Whether a raw attribute key is a namespace binding (`xmlns` or
/// `xmlns:prefix`), which keeps its whole name as its key.
pub open spec fn is_ns_binding(key: Seq<u8>) -> bool {
    &&& key.len() >= 5
    &&& key.subrange(0, 5) == encode_utf8("xmlns"@)
    &&& (key.len() == 5 || key[5] == 0x3au8)
}

/// The decoded key of an attribute: the whole name of a namespace binding,
/// the local name of any other attribute.
pub open spec fn key_text(key: Seq<u8>) -> Option<Seq<char>> {
    if is_ns_binding(key) {
        utf8_text(key)
    } else {
        utf8_text(local_part(key))
    }
}

/// Every attribute was read without error and has a decodable key.
pub open spec fn attrs_clean(attrs: Seq<AttrView>) -> bool {
    forall|j: int|
        0 <= j < attrs.len() ==> (#[trigger] attrs[j] matches AttrView::Pair { key, .. } && key_text(
            key,
        ) is Some)
}

/// Every item of a content is readable: child tags decode as UTF-8, texts
/// decode and unescape, CDATA sections decode.
pub open spec fn items_clean(evs: Seq<EventView>, ks: Seq<int>) -> bool {
    forall|k: int|
        0 <= k < ks.len() ==> match #[trigger] evs[ks[k]] {
            EventView::Text { raw } => decoded_unescaped(raw) is Some,
            EventView::CData { raw } => utf8_text(raw) is Some,
            _ => elem_tag(evs, ks[k]) is Some,
        }
}

/// Whether the element at `i` can be read at all.
pub open spec fn node_ok(evs: Seq<EventView>, i: int) -> bool {
    &&& attrs_clean(tag_attrs(evs[i]))
    &&& items_clean(evs, children(evs, i))
}

fn is_binding(key: &[u8]) -> (r: bool)
    ensures
        r == is_ns_binding(key@),
{
    if key.len() < 5 {
        return false;
    }
    let head = slice_range(key, 0, 5);
    if !bytes_are_text(head.as_slice(), "xmlns") {
        return false;
    }
    key.len() == 5 || key[5] == 0x3au8
}

fn key_decodes(key: &[u8]) -> (r: bool)
    ensures
        r == key_text(key@) is Some,
{
    if is_binding(key) {
        decode_text(key).is_some()
    } else {
        decode_text(local_name(key).as_slice()).is_some()
    }
}

/// What `quick_xml::DeError::from` makes of an attribute error: an
/// `InvalidXml` error holding it.
pub uninterp spec fn attr_error(e: AttrError) -> quick_xml::DeError;

/// The deserialization error for an attribute the tokenizer could not read:
/// `quick_xml::DeError::from(AttrError)`, which wraps a copy of the error
/// as `InvalidXml(InvalidAttr(..))`; it is named by [`attr_error`].
#[verifier::external_body]
fn attr_failure(e: &AttrError) -> (r: quick_xml::DeError)
    ensures
        r == attr_error(*e),
{
    quick_xml::DeError::from(e.clone())
}

/// The text serde gives a field of a record: an attribute's field is its
/// name behind `@`.
pub open spec fn field_name(attr: bool, name: Seq<char>) -> Seq<char> {
    if attr {
        "@"@ + name
    } else {
        name
    }
}

/// The error serde reports for a field: `<what> field` and the field's
/// name in backquotes, such as ``missing field `@code` ``.
fn field_error(what: &str, attr: bool, name: &str) -> (r: Error)
    ensures
        r == Error::Xml(custom_error(what@ + " field `"@ + field_name(attr, name@) + "`"@)),
{
    let mut m = what.to_owned();
    m.append(" field `");
    if attr {
        m.append("@");
    }
    m.append(name);
    m.append("`");
    assert(m@ =~= what@ + " field `"@ + field_name(attr, name@) + "`"@);
    shape_error(m.as_str())
}

/// Checks that every attribute was read and has a key that is text. The
/// first attribute the tokenizer could not read is reported as the
/// deserializer reports it.
fn check_attrs(attrs: &Vec<AttrItem>) -> (r: Result<(), Error>)
    ensures
        r is Ok <==> attrs_clean(attr_views(attrs@)),
        r matches Err(e) ==> e is Xml,
{
    let mut j: usize = 0;
    while j < attrs.len()
        invariant
            0 <= j <= attr_views(attrs@).len(),
            forall|m: int|
                0 <= m < j ==> (#[trigger] attr_views(attrs@)[m] matches AttrView::Pair { key, .. }
                    && key_text(key) is Some),
        decreases attrs.len() - j,
    {
        assert(attr_views(attrs@)[j as int] == attr_view(attrs@[j as int]));
        match &attrs[j] {
            AttrItem::Pair { key, .. } => {
                if !key_decodes(key.as_slice()) {
                    return Err(shape_error("attribute name is not valid UTF-8"));
                }
            },
            AttrItem::Malformed(e) => return Err(Error::Xml(attr_failure(e))),
        }
        j = j + 1;
    }
    Ok(())
}

fn check_items(evs: &Vec<XmlEvent>, ks: &Vec<usize>) -> (r: bool)
    requires
        forall|k: int| 0 <= k < ks@.len() ==> #[trigger] ks@[k] < views(evs@).len(),
        items_placed(views(evs@), ints(ks@)),
    ensures
        r == items_clean(views(evs@), ints(ks@)),
{
    let ghost all = ints(ks@);
    let mut k: usize = 0;
    while k < ks.len()
        invariant
            all == ints(ks@),
            forall|j: int| 0 <= j < ks@.len() ==> #[trigger] ks@[j] < views(evs@).len(),
            items_placed(views(evs@), all),
            0 <= k <= ks@.len(),
            forall|j: int|
                0 <= j < k ==> match #[trigger] views(evs@)[all[j]] {
                    EventView::Text { raw } => decoded_unescaped(raw) is Some,
                    EventView::CData { raw } => utf8_text(raw) is Some,
                    _ => elem_tag(views(evs@), all[j]) is Some,
                },
        decreases ks.len() - k,
    {
        let p = ks[k];
        assert(all[k as int] == p as int);
        let ok = match &evs[p] {
            XmlEvent::Text { raw } => decode_unescape(raw.as_slice()).is_some(),
            XmlEvent::CData { raw } => decode_text(raw.as_slice()).is_some(),
            XmlEvent::Open { name, .. } => decode_text(local_name(name.as_slice()).as_slice()).is_some(),
            XmlEvent::Empty { name, .. } => decode_text(local_name(name.as_slice()).as_slice()).is_some(),
            _ => true,
        };
        if !ok {
            return false;
        }
        k = k + 1;
    }
    true
}

/// The items of a complete element, after checking that the element can be
/// read: its attributes, child tags and texts.
pub fn readable_children(evs: &Vec<XmlEvent>, i: usize) -> (r: Result<Vec<usize>, Error>)
    requires
        well_placed(views(evs@), i as int),
    ensures
        r is Ok <==> node_ok(views(evs@), i as int),
        r matches Ok(ks) ==> ints(ks@) == children(views(evs@), i as int),
        r matches Ok(ks) ==> kids_ready(views(evs@), ks@),
        r matches Err(e) ==> e is Xml,
{
    proof {
        lemma_children_placed(views(evs@), i as int);
    }
    let ks = child_positions(evs, i);
    proof {
        assert forall|k: int| 0 <= k < ks@.len() implies #[trigger] ks@[k] < views(evs@).len() by {
            assert(ints(ks@)[k] == ks@[k] as int);
        }
    }
    let attrs = match &evs[i] {
        XmlEvent::Open { attrs, .. } => attrs,
        XmlEvent::Empty { attrs, .. } => attrs,
        _ => {
            return Err(shape_error("expected a start tag"));
        },
    };
    if let Err(e) = check_attrs(attrs) {
        return Err(e);
    }
    if !check_items(evs, &ks) {
        return Err(shape_error("undecodable content"));
    }
    Ok(ks)
}

// ---------------------------------------------------------------------------
// Attributes
// ---------------------------------------------------------------------------

/// Whether an attribute is the one read for the field keyed `key`.
pub open spec fn key_is(item: AttrView, key: Seq<char>) -> bool {
    item matches AttrView::Pair { key: k, .. } && !is_ns_binding(k) && local_part(k)
        == encode_utf8(key)
}

/// The indices of the attributes read for the field keyed `key`.
pub open spec fn hits(attrs: Seq<AttrView>, key: Seq<char>) -> Seq<int>
    decreases attrs.len(),
{
    if attrs.len() == 0 {
        seq![]
    } else if key_is(attrs.last(), key) {
        hits(attrs.drop_last(), key).push(attrs.len() - 1)
    } else {
        hits(attrs.drop_last(), key)
    }
}

/// The attributes picked by key are within the attributes, and of that key.
pub proof fn lemma_hits_bounds(attrs: Seq<AttrView>, key: Seq<char>)
    ensures
        forall|j: int|
            0 <= j < hits(attrs, key).len() ==> 0 <= #[trigger] hits(attrs, key)[j] < attrs.len()
                && key_is(attrs[hits(attrs, key)[j]], key),
    decreases attrs.len(),
{
    if attrs.len() > 0 {
        lemma_hits_bounds(attrs.drop_last(), key);
        let h = hits(attrs, key);
        let g = hits(attrs.drop_last(), key);
        assert forall|j: int| 0 <= j < h.len() implies 0 <= #[trigger] h[j] < attrs.len() && key_is(
            attrs[h[j]],
            key,
        ) by {
            if j < g.len() {
                assert(h[j] == g[j]);
                assert(attrs.drop_last()[g[j]] == attrs[g[j]]);
            }
        }
    }
}

/// The raw value of an attribute.
pub open spec fn item_value(item: AttrView) -> Seq<u8> {
    match item {
        AttrView::Pair { value, .. } => value,
        AttrView::Malformed => Seq::empty(),
    }
}

/// The text an attribute gives the field keyed `key`: `Ok(None)` when the
/// attribute is absent; an error when it occurs twice or its value does not
/// decode and unescape.
pub open spec fn attr_value(attrs: Seq<AttrView>, key: Seq<char>) -> Result<Option<Seq<char>>, ()> {
    let h = hits(attrs, key);
    if h.len() == 0 {
        Ok(None)
    } else if h.len() > 1 {
        Err(())
    } else {
        match decoded_unescaped(item_value(attrs[h[0]])) {
            Some(t) => Ok(Some(t)),
            None => Err(()),
        }
    }
}

/// The text of an optional string field.
pub open spec fn text_of(o: Option<String>) -> Option<Seq<char>> {
    match o {
        Some(s) => Some(s@),
        None => None,
    }
}

fn key_matches(item: &AttrItem, key: &str) -> (r: bool)
    ensures
        r == key_is(attr_view(*item), key@),
{
    match item {
        AttrItem::Pair { key: k, .. } => !is_binding(k.as_slice()) && bytes_are_text(
            local_name(k.as_slice()).as_slice(),
            key,
        ),
        AttrItem::Malformed(_) => false,
    }
}

/// The text of the attribute keyed `key`: `None` when absent; an error when
/// it occurs twice or its value does not decode and unescape.
pub fn attribute(attrs: &Vec<AttrItem>, key: &str) -> (r: Result<Option<String>, Error>)
    ensures
        r is Ok <==> attr_value(attr_views(attrs@), key@) is Ok,
        r matches Ok(o) ==> attr_value(attr_views(attrs@), key@) == Ok::<Option<Seq<char>>, ()>(text_of(o)),
        r matches Err(e) ==> e is Xml,
{
    let mut found: Option<usize> = None;
    let mut twice = false;
    let mut j: usize = 0;
    while j < attrs.len()
        invariant
            0 <= j <= attr_views(attrs@).len(),
            hits(attr_views(attrs@).take(j as int), key@).len() == 0 <==> found is None,
            found matches Some(f) ==> hits(attr_views(attrs@).take(j as int), key@)[0] == f as int,
            twice <==> hits(attr_views(attrs@).take(j as int), key@).len() > 1,
        decreases attrs.len() - j,
    {
        proof {
            assert(attr_views(attrs@).take(j + 1).drop_last() =~= attr_views(attrs@).take(j as int));
            assert(attr_views(attrs@).take(j + 1).last() == attr_views(attrs@)[j as int]);
        }
        if key_matches(&attrs[j], key) {
            if found.is_some() {
                twice = true;
            } else {
                found = Some(j);
            }
        }
        j = j + 1;
    }
    assert(attr_views(attrs@).take(attr_views(attrs@).len() as int) =~= attr_views(attrs@));
    if twice {
        return Err(field_error("duplicate", true, key));
    }
    match found {
        None => Ok(None),
        Some(f) => {
            proof {
                lemma_hits_bounds(attr_views(attrs@), key@);
            }
            match &attrs[f] {
                AttrItem::Pair { value, .. } => match decode_unescape(value.as_slice()) {
                    Some(t) => Ok(Some(t)),
                    None => Err(shape_error("invalid attribute value")),
                },
                AttrItem::Malformed(e) => Err(Error::Xml(attr_failure(e))),
            }
        },
    }
}

/// The text of a required attribute keyed `key`.
pub fn required(attrs: &Vec<AttrItem>, key: &str) -> (r: Result<String, Error>)
    ensures
        r is Ok <==> attr_value(attr_views(attrs@), key@) matches Ok(Some(_)),
        r matches Ok(s) ==> attr_value(attr_views(attrs@), key@) == Ok::<Option<Seq<char>>, ()>(Some(s@)),
        r matches Err(e) ==> e is Xml,
        attr_value(attr_views(attrs@), key@) == Ok::<Option<Seq<char>>, ()>(None) ==> r
            == Err::<String, Error>(
            Error::Xml(custom_error("missing"@ + " field `"@ + field_name(true, key@) + "`"@)),
        ),
{
    match attribute(attrs, key) {
        Ok(Some(s)) => Ok(s),
        Ok(None) => Err(field_error("missing", true, key)),
        Err(e) => Err(e),
    }
}

/// The text of an optional attribute, `None` when absent or unreadable.
pub open spec fn opt_value(attrs: Seq<AttrView>, key: Seq<char>) -> Option<Seq<char>> {
    match attr_value(attrs, key) {
        Ok(o) => o,
        Err(_) => None,
    }
}

/// The text of a required attribute, `None` when absent or unreadable.
pub open spec fn req_value(attrs: Seq<AttrView>, key: Seq<char>) -> Option<Seq<char>> {
    match attr_value(attrs, key) {
        Ok(Some(t)) => Some(t),
        _ => None,
    }
}

/// The value a `(yes | no)` attribute gives a `bool` field.
pub open spec fn flag_value(attrs: Seq<AttrView>, key: Seq<char>) -> Result<bool, ()> {
    match attr_value(attrs, key) {
        Ok(v) => yes_no(v),
        Err(_) => Err(()),
    }
}

/// The value a `(yes | no)` attribute gives an `Option<bool>` field.
pub open spec fn flag_opt_value(attrs: Seq<AttrView>, key: Seq<char>) -> Result<Option<bool>, ()> {
    match attr_value(attrs, key) {
        Ok(v) => yes_no_opt(v),
        Err(_) => Err(()),
    }
}

/// A `bool` field read from a `(yes | no)` attribute is set exactly by the
/// text `yes`: `no` and an absent attribute leave it unset.
pub proof fn lemma_flag_field(attrs: Seq<AttrView>, key: Seq<char>, b: bool)
    requires
        flag_value(attrs, key) == Ok::<bool, ()>(b),
    ensures
        attr_value(attrs, key) == Ok::<Option<Seq<char>>, ()>(Some("yes"@)) ==> b,
        attr_value(attrs, key) == Ok::<Option<Seq<char>>, ()>(Some("no"@)) ==> !b,
        attr_value(attrs, key) == Ok::<Option<Seq<char>>, ()>(None) ==> !b,
{
    reveal_strlit("yes");
    reveal_strlit("no");
    assert("yes"@ != "no"@) by {
        assert("yes"@.len() != "no"@.len());
    }
}

/// An `Option<bool>` field read from a `(yes | no)` attribute is
/// `Some(true)` for `yes`, `Some(false)` for `no` and `None` when the
/// attribute is absent.
pub proof fn lemma_flag_opt_field(attrs: Seq<AttrView>, key: Seq<char>, b: Option<bool>)
    requires
        flag_opt_value(attrs, key) == Ok::<Option<bool>, ()>(b),
    ensures
        attr_value(attrs, key) == Ok::<Option<Seq<char>>, ()>(Some("yes"@)) ==> b == Some(true),
        attr_value(attrs, key) == Ok::<Option<Seq<char>>, ()>(Some("no"@)) ==> b == Some(false),
        attr_value(attrs, key) == Ok::<Option<Seq<char>>, ()>(None) ==> b is None,
{
    reveal_strlit("yes");
    reveal_strlit("no");
    assert("yes"@ != "no"@) by {
        assert("yes"@.len() != "no"@.len());
    }
}

/// A `(yes | no)` attribute with any text but `yes` or `no` cannot be read.
pub proof fn lemma_flag_refused(attrs: Seq<AttrView>, key: Seq<char>)
    ensures
        (attr_value(attrs, key) matches Ok(Some(t)) && t != "yes"@ && t != "no"@) ==> (flag_value(
            attrs,
            key,
        ) is Err && flag_opt_value(attrs, key) is Err),
{
}

fn as_str_opt(o: &Option<String>) -> (r: Option<&str>)
    ensures
        opt_text(r) == text_of(*o),
{
    match o {
        Some(s) => Some(s.as_str()),
        None => None,
    }
}

/// Reads a `(yes | no)` attribute into a `bool` field.
pub fn flag(attrs: &Vec<AttrItem>, key: &str) -> (r: Result<bool, Error>)
    ensures
        r is Ok <==> flag_value(attr_views(attrs@), key@) is Ok,
        r matches Ok(b) ==> flag_value(attr_views(attrs@), key@) == Ok::<bool, ()>(b),
        r matches Err(e) ==> e is Xml,
{
    match attribute(attrs, key) {
        Ok(v) => de(as_str_opt(&v)),
        Err(e) => Err(e),
    }
}

/// Reads a `(yes | no)` attribute into an `Option<bool>` field.
pub fn flag_opt(attrs: &Vec<AttrItem>, key: &str) -> (r: Result<Option<bool>, Error>)
    ensures
        r is Ok <==> flag_opt_value(attr_views(attrs@), key@) is Ok,
        r matches Ok(b) ==> flag_opt_value(attr_views(attrs@), key@) == Ok::<Option<bool>, ()>(b),
        r matches Err(e) ==> e is Xml,
{
    match attribute(attrs, key) {
        Ok(v) => de_opt(as_str_opt(&v)),
        Err(e) => Err(e),
    }
}

/// The attributes of the start tag at `i`.
pub fn attrs_at(evs: &Vec<XmlEvent>, i: usize) -> (r: &Vec<AttrItem>)
    requires
        0 <= i < views(evs@).len(),
        is_start(views(evs@)[i as int]),
    ensures
        attr_views(r@) == tag_attrs(views(evs@)[i as int]),
{
    match &evs[i] {
        XmlEvent::Open { attrs, .. } => attrs,
        XmlEvent::Empty { attrs, .. } => attrs,
        _ => vstd::pervasive::unreached(),
    }
}

// ---------------------------------------------------------------------------
// Child elements
// ---------------------------------------------------------------------------

/// A type read from one element.
pub trait FromXml: Sized {
    /// Whether the element at `i` reads as a value of this type.
    spec fn xml_ok(evs: Seq<EventView>, i: int) -> bool;

    /// Whether `self` is the value the element at `i` reads as.
    spec fn xml_rel(self, evs: Seq<EventView>, i: int) -> bool;

    /// Reads the element at `i`.
    fn from_xml(evs: &Vec<XmlEvent>, i: usize) -> (r: Result<Self, Error>)
        requires
            well_placed(views(evs@), i as int),
        ensures
            r is Ok <==> Self::xml_ok(views(evs@), i as int),
            r matches Ok(v) ==> v.xml_rel(views(evs@), i as int),
            r matches Err(e) ==> e is Xml,
    ;
}

/// A type whose reading is a function of the events: two values read from
/// the same element agree in every field.
pub trait ReadsUniquely: FromXml {
    /// Whether two values agree in every field.
    spec fn same(self, other: Self) -> bool;

    /// What an element reads as is unique: two values read from the element
    /// at `i` agree in every field.
    proof fn lemma_reads_uniquely(self, other: Self, evs: Seq<EventView>, i: int)
        requires
            self.xml_rel(evs, i),
            other.xml_rel(evs, i),
        ensures
            self.same(other),
    ;
}

/// Whether two sequences of values agree item by item.
pub open spec fn all_same<T: ReadsUniquely>(a: Seq<T>, b: Seq<T>) -> bool {
    &&& a.len() == b.len()
    &&& forall|k: int| 0 <= k < a.len() ==> (#[trigger] a[k]).same(b[k])
}

/// Whether two optional values are both absent or agree.
pub open spec fn opt_same<T: ReadsUniquely>(a: Option<T>, b: Option<T>) -> bool {
    match (a, b) {
        (None, None) => true,
        (Some(x), Some(y)) => x.same(y),
        _ => false,
    }
}

/// Two sequences read from the same children agree item by item.
pub proof fn lemma_many_unique<T: ReadsUniquely>(
    a: Vec<T>,
    b: Vec<T>,
    evs: Seq<EventView>,
    ks: Seq<int>,
    tag: Seq<char>,
)
    requires
        many_rel(a, evs, ks, tag),
        many_rel(b, evs, ks, tag),
    ensures
        all_same(a@, b@),
{
    let n = named(evs, ks, tag);
    assert forall|k: int| 0 <= k < a@.len() implies (#[trigger] a@[k]).same(b@[k]) by {
        a@[k].lemma_reads_uniquely(b@[k], evs, n[k]);
    }
}

/// Two optional values read from the same children agree.
pub proof fn lemma_one_unique<T: ReadsUniquely>(
    a: Option<T>,
    b: Option<T>,
    evs: Seq<EventView>,
    ks: Seq<int>,
    tag: Seq<char>,
)
    requires
        one_rel(a, evs, ks, tag),
        one_rel(b, evs, ks, tag),
    ensures
        opt_same(a, b),
{
    if let (Some(x), Some(y)) = (a, b) {
        x.lemma_reads_uniquely(y, evs, named(evs, ks, tag)[0]);
    }
}

/// Every element among `ps` reads as a `T`.
pub open spec fn all_read<T: FromXml>(evs: Seq<EventView>, ps: Seq<int>) -> bool {
    forall|k: int| 0 <= k < ps.len() ==> T::xml_ok(evs, #[trigger] ps[k])
}

/// `v` holds, in order, the values the elements among `ps` read as.
pub open spec fn read_as<T: FromXml>(v: Seq<T>, evs: Seq<EventView>, ps: Seq<int>) -> bool {
    &&& v.len() == ps.len()
    &&& forall|k: int| 0 <= k < ps.len() ==> (#[trigger] v[k]).xml_rel(evs, ps[k])
}

/// Whether the `tag` children among `ks` read as a `Vec<T>`.
pub open spec fn many_ok<T: FromXml>(evs: Seq<EventView>, ks: Seq<int>, tag: Seq<char>) -> bool {
    all_read::<T>(evs, named(evs, ks, tag))
}

/// Whether `v` is what the `tag` children among `ks` read as.
pub open spec fn many_rel<T: FromXml>(
    v: Vec<T>,
    evs: Seq<EventView>,
    ks: Seq<int>,
    tag: Seq<char>,
) -> bool {
    read_as(v@, evs, named(evs, ks, tag))
}

/// Whether the `tag` children among `ks` read as an `Option<T>`: none, or
/// exactly one that reads as a `T`.
pub open spec fn one_ok<T: FromXml>(evs: Seq<EventView>, ks: Seq<int>, tag: Seq<char>) -> bool {
    let n = named(evs, ks, tag);
    n.len() == 0 || (n.len() == 1 && T::xml_ok(evs, n[0]))
}

/// Whether `o` is what the `tag` children among `ks` read as.
pub open spec fn one_rel<T: FromXml>(
    o: Option<T>,
    evs: Seq<EventView>,
    ks: Seq<int>,
    tag: Seq<char>,
) -> bool {
    let n = named(evs, ks, tag);
    match o {
        None => n.len() == 0,
        Some(v) => n.len() == 1 && v.xml_rel(evs, n[0]),
    }
}

/// The positions of `ks` are complete items of the document.
pub open spec fn kids_ready(evs: Seq<EventView>, ks: Seq<usize>) -> bool {
    items_placed(evs, ints(ks))
}

/// The children picked by name from complete items are complete elements.
pub proof fn lemma_named_placed(evs: Seq<EventView>, ks: Seq<usize>, tag: Seq<char>)
    requires
        kids_ready(evs, ks),
    ensures
        forall|j: int|
            0 <= j < named(evs, ints(ks), tag).len() ==> well_placed(
                evs,
                #[trigger] named(evs, ints(ks), tag)[j],
            ),
{
    let all = ints(ks);
    lemma_named_subset(evs, all, tag);
    assert forall|j: int| 0 <= j < named(evs, all, tag).len() implies well_placed(
        evs,
        #[trigger] named(evs, all, tag)[j],
    ) by {
        let p = named(evs, all, tag)[j];
        assert(all.contains(p));
        let w = choose|w: int| 0 <= w < all.len() && all[w] == p;
        assert(0 <= all[w] < evs.len());
    }
}

/// Reads every `tag` child among `ks`, in document order.
pub fn many<T: FromXml>(evs: &Vec<XmlEvent>, ks: &Vec<usize>, tag: &str) -> (r: Result<
    Vec<T>,
    Error,
>)
    requires
        kids_ready(views(evs@), ks@),
    ensures
        r is Ok <==> many_ok::<T>(views(evs@), ints(ks@), tag@),
        r matches Ok(v) ==> many_rel(v, views(evs@), ints(ks@), tag@),
        r matches Err(e) ==> e is Xml,
{
    proof {
        lemma_named_placed(views(evs@), ks@, tag@);
        assert forall|k: int| 0 <= k < ks@.len() implies #[trigger] ks@[k] < views(evs@).len() by {
            assert(ints(ks@)[k] == ks@[k] as int);
        }
    }
    let ps = named_positions(evs, ks, tag);
    let ghost n = named(views(evs@), ints(ks@), tag@);
    let mut out: Vec<T> = Vec::new();
    let mut j: usize = 0;
    while j < ps.len()
        invariant
            ints(ps@) == n,
            n == named(views(evs@), ints(ks@), tag@),
            forall|m: int| 0 <= m < n.len() ==> well_placed(views(evs@), #[trigger] n[m]),
            0 <= j <= ps@.len(),
            out@.len() == j,
            forall|m: int| 0 <= m < j ==> T::xml_ok(views(evs@), #[trigger] n[m]),
            forall|m: int| 0 <= m < j ==> (#[trigger] out@[m]).xml_rel(views(evs@), n[m]),
        decreases ps.len() - j,
    {
        assert(n[j as int] == ps@[j as int] as int);
        match T::from_xml(evs, ps[j]) {
            Ok(v) => out.push(v),
            Err(e) => {
                assert(!T::xml_ok(views(evs@), n[j as int]));
                assert(!all_read::<T>(views(evs@), n));
                return Err(e);
            },
        }
        j = j + 1;
    }
    Ok(out)
}

/// Reads the `tag` child among `ks`, if there is one; more than one is an
/// error.
pub fn at_most_one<T: FromXml>(evs: &Vec<XmlEvent>, ks: &Vec<usize>, tag: &str) -> (r: Result<
    Option<T>,
    Error,
>)
    requires
        kids_ready(views(evs@), ks@),
    ensures
        r is Ok <==> one_ok::<T>(views(evs@), ints(ks@), tag@),
        r matches Ok(o) ==> one_rel(o, views(evs@), ints(ks@), tag@),
        r matches Err(e) ==> e is Xml,
{
    proof {
        lemma_named_placed(views(evs@), ks@, tag@);
        assert forall|k: int| 0 <= k < ks@.len() implies #[trigger] ks@[k] < views(evs@).len() by {
            assert(ints(ks@)[k] == ks@[k] as int);
        }
    }
    let ps = named_positions(evs, ks, tag);
    let ghost n = named(views(evs@), ints(ks@), tag@);
    assert(ps@.len() == n.len());
    if ps.len() == 0 {
        Ok(None)
    } else if ps.len() > 1 {
        Err(field_error("duplicate", false, tag))
    } else {
        assert(n[0] == ps@[0] as int);
        match T::from_xml(evs, ps[0]) {
            Ok(v) => Ok(Some(v)),
            Err(e) => Err(e),
        }
    }
}

// ---------------------------------------------------------------------------
// Text content
// ---------------------------------------------------------------------------

/// A piece of character data: whether it is plain text (escaped) rather than
/// CDATA, and its raw bytes.
pub open spec fn piece_at(evs: Seq<EventView>, p: int) -> (bool, Seq<u8>) {
    match evs[p] {
        EventView::Text { raw } => (true, raw),
        EventView::CData { raw } => (false, raw),
        _ => (false, Seq::empty()),
    }
}

/// The pieces of character data at the positions `ks`.
pub open spec fn pieces(evs: Seq<EventView>, ks: Seq<int>) -> Seq<(bool, Seq<u8>)> {
    ks.map_values(|p: int| piece_at(evs, p))
}

/// Leading whitespace removal over a run of pieces, as quick-xml's
/// deserializer trims: leading text pieces lose their leading whitespace,
/// and those left empty are dropped, up to the first piece that keeps
/// something or is CDATA.
pub open spec fn lead_trimmed(ps: Seq<(bool, Seq<u8>)>) -> Seq<(bool, Seq<u8>)>
    decreases ps.len(),
{
    if ps.len() == 0 {
        ps
    } else if ps[0].0 {
        let t = trim_start_spec(ps[0].1);
        if t.len() == 0 {
            lead_trimmed(ps.drop_first())
        } else {
            seq![(true, t)] + ps.drop_first()
        }
    } else {
        ps
    }
}

/// Trailing whitespace removal: a final text piece loses its trailing
/// whitespace.
pub open spec fn tail_trimmed(ps: Seq<(bool, Seq<u8>)>) -> Seq<(bool, Seq<u8>)> {
    if ps.len() > 0 && ps.last().0 {
        ps.drop_last().push((true, trim_end_spec(ps.last().1)))
    } else {
        ps
    }
}

/// The decoded text of one piece.
pub open spec fn piece_text(p: (bool, Seq<u8>)) -> Option<Seq<char>> {
    if p.0 {
        decoded_unescaped(p.1)
    } else {
        utf8_text(p.1)
    }
}

/// The decoded texts of a run of pieces, concatenated.
pub open spec fn joined(ps: Seq<(bool, Seq<u8>)>) -> Option<Seq<char>>
    decreases ps.len(),
{
    if ps.len() == 0 {
        Some(seq![])
    } else {
        match (joined(ps.drop_last()), piece_text(ps.last())) {
            (Some(a), Some(b)) => Some(a + b),
            _ => None,
        }
    }
}

/// The text of an element that holds only character data: its pieces,
/// trimmed at both ends, decoded and concatenated. `None` when the element
/// holds a child element or a piece does not decode.
pub open spec fn element_text(evs: Seq<EventView>, i: int) -> Option<Seq<char>> {
    let ks = children(evs, i);
    if exists|k: int| 0 <= k < ks.len() && is_start(#[trigger] evs[ks[k]]) {
        None
    } else {
        joined(tail_trimmed(lead_trimmed(pieces(evs, ks))))
    }
}

/// A piece of character data, held while its run is assembled.
struct Piece {
    text: bool,
    raw: Vec<u8>,
}

spec fn piece_view(p: Piece) -> (bool, Seq<u8>) {
    (p.text, p.raw@)
}

spec fn pieces_view(v: Seq<Piece>) -> Seq<(bool, Seq<u8>)> {
    v.map_values(|p: Piece| piece_view(p))
}

fn decode_piece(p: &Piece) -> (r: Option<String>)
    ensures
        r is Some <==> piece_text(piece_view(*p)) is Some,
        r matches Some(s) ==> piece_text(piece_view(*p)) == Some(s@),
{
    if p.text {
        decode_unescape(p.raw.as_slice())
    } else {
        decode_text(p.raw.as_slice())
    }
}

fn copy_piece(p: &Piece) -> (r: Piece)
    ensures
        piece_view(r) == piece_view(*p),
{
    Piece { text: p.text, raw: slice_range(p.raw.as_slice(), 0, p.raw.len()) }
}

/// The pieces of character data at the positions `ks`, or `None` when one
/// of them is a child element.
fn collect_pieces(evs: &Vec<XmlEvent>, ks: &Vec<usize>) -> (r: Option<Vec<Piece>>)
    requires
        items_placed(views(evs@), ints(ks@)),
    ensures
        r is None <==> exists|k: int| 0 <= k < ks@.len() && is_start(#[trigger] views(evs@)[ints(ks@)[k]]),
        r matches Some(ps) ==> pieces_view(ps@) == pieces(views(evs@), ints(ks@)),
{
    let ghost all = ints(ks@);
    let mut ps: Vec<Piece> = Vec::new();
    let mut k: usize = 0;
    while k < ks.len()
        invariant
            all == ints(ks@),
            items_placed(views(evs@), all),
            0 <= k <= ks@.len(),
            forall|j: int| 0 <= j < k ==> !is_start(#[trigger] views(evs@)[all[j]]),
            pieces_view(ps@) == pieces(views(evs@), all.take(k as int)),
        decreases ks.len() - k,
    {
        assert(all[k as int] == ks@[k as int] as int);
        let p = ks[k];
        let piece = match &evs[p] {
            XmlEvent::Text { raw } => Piece { text: true, raw: slice_range(raw.as_slice(), 0, raw.len()) },
            XmlEvent::CData { raw } => Piece { text: false, raw: slice_range(raw.as_slice(), 0, raw.len()) },
            _ => {
                assert(is_start(views(evs@)[all[k as int]]));
                return None;
            },
        };
        assert(piece_view(piece) == piece_at(views(evs@), p as int));
        let ghost before = ps@;
        ps.push(piece);
        assert(pieces_view(ps@) =~= pieces_view(before).push(piece_at(views(evs@), all[k as int])));
        assert(pieces(views(evs@), all.take(k + 1)) =~= pieces(views(evs@), all.take(k as int)).push(piece_at(views(evs@), all[k as int])));
        k = k + 1;
    }
    assert(all.take(ks@.len() as int) =~= all);
    Some(ps)
}

/// Leading-whitespace removal skips the pieces it leaves empty.
proof fn lemma_lead_skip(run: Seq<(bool, Seq<u8>)>, i: int)
    requires
        0 <= i < run.len(),
    ensures
        run.skip(i)[0] == run[i],
        run.skip(i).drop_first() == run.skip(i + 1),
        run.skip(i).len() > 0,
{
    assert(run.skip(i).drop_first() =~= run.skip(i + 1));
}

/// The run `ps` trimmed at both ends.
fn trim_run(ps: &Vec<Piece>) -> (r: Vec<Piece>)
    ensures
        pieces_view(r@) == tail_trimmed(lead_trimmed(pieces_view(ps@))),
{
    let ghost run = pieces_view(ps@);
    let mut lead: usize = 0;
    let mut trimmed: Vec<Piece> = Vec::new();
    assert(run.skip(0) =~= run);
    while lead < ps.len()
        invariant_except_break
            run == pieces_view(ps@),
            0 <= lead <= ps@.len(),
            trimmed@.len() == 0,
            lead_trimmed(run) == lead_trimmed(run.skip(lead as int)),
        ensures
            run == pieces_view(ps@),
            0 <= lead <= ps@.len(),
            pieces_view(trimmed@) + run.skip(lead as int) == lead_trimmed(run),
        decreases ps.len() - lead,
    {
        proof {
            lemma_lead_skip(run, lead as int);
        }
        if !ps[lead].text {
            assert(pieces_view(trimmed@) =~= seq![]);
            break;
        }
        let t = trim_start(ps[lead].raw.as_slice());
        if t.len() == 0 {
            lead = lead + 1;
        } else {
            trimmed.push(Piece { text: true, raw: t });
            lead = lead + 1;
            assert(pieces_view(trimmed@) =~= seq![(true, t@)]);
            break;
        }
    }
    proof {
        if lead == ps@.len() && trimmed@.len() == 0 {
            assert(run.skip(lead as int) =~= seq![]);
            assert(pieces_view(trimmed@) =~= seq![]);
        }
    }
    let mut m = lead;
    while m < ps.len()
        invariant
            run == pieces_view(ps@),
            0 <= m <= ps@.len(),
            pieces_view(trimmed@) + run.skip(m as int) == lead_trimmed(run),
        decreases ps.len() - m,
    {
        proof {
            lemma_lead_skip(run, m as int);
        }
        let copy = copy_piece(&ps[m]);
        let ghost before = pieces_view(trimmed@);
        trimmed.push(copy);
        assert(pieces_view(trimmed@) =~= before.push(run[m as int]));
        assert(before + run.skip(m as int) =~= before.push(run[m as int]) + run.skip(m + 1));
        m = m + 1;
    }
    assert(run.skip(ps@.len() as int) =~= seq![]);
    assert(pieces_view(trimmed@) =~= lead_trimmed(run));
    let n = trimmed.len();
    if n > 0 && trimmed[n - 1].text {
        let last = trim_end(trimmed[n - 1].raw.as_slice());
        let ghost before = pieces_view(trimmed@);
        trimmed.set(n - 1, Piece { text: true, raw: last });
        assert(pieces_view(trimmed@) =~= tail_trimmed(before));
    }
    trimmed
}

/// The decoded texts of a run, concatenated.
fn join_run(ps: &Vec<Piece>) -> (r: Option<String>)
    ensures
        r is Some <==> joined(pieces_view(ps@)) is Some,
        r matches Some(s) ==> joined(pieces_view(ps@)) == Some(s@),
{
    let ghost run = pieces_view(ps@);
    let mut out = String::new();
    let mut j: usize = 0;
    while j < ps.len()
        invariant
            run == pieces_view(ps@),
            0 <= j <= ps@.len(),
            joined(run.take(j as int)) == Some(out@),
        decreases ps.len() - j,
    {
        assert(run.take(j + 1).drop_last() =~= run.take(j as int));
        assert(run.take(j + 1).last() == run[j as int]);
        match decode_piece(&ps[j]) {
            Some(s) => {
                out.append(s.as_str());
            },
            None => {
                proof {
                    lemma_joined_prefix_none(run, j + 1);
                }
                return None;
            },
        }
        j = j + 1;
    }
    assert(run.take(run.len() as int) =~= run);
    Some(out)
}

/// The text of an element that holds only character data.
pub fn text_content(evs: &Vec<XmlEvent>, i: usize) -> (r: Option<String>)
    requires
        well_placed(views(evs@), i as int),
    ensures
        r is Some <==> element_text(views(evs@), i as int) is Some,
        r matches Some(s) ==> element_text(views(evs@), i as int) == Some(s@),
{
    proof {
        lemma_children_placed(views(evs@), i as int);
    }
    let ks = child_positions(evs, i);
    match collect_pieces(evs, &ks) {
        Some(ps) => {
            let run = trim_run(&ps);
            join_run(&run)
        },
        None => None,
    }
}

/// A run whose prefix does not decode does not decode.
proof fn lemma_joined_prefix_none(ps: Seq<(bool, Seq<u8>)>, n: int)
    requires
        0 <= n <= ps.len(),
        joined(ps.take(n)) is None,
    ensures
        joined(ps) is None,
    decreases ps.len() - n,
{
    if n < ps.len() {
        assert(ps.take(n + 1).drop_last() =~= ps.take(n));
        lemma_joined_prefix_none(ps, n + 1);
    } else {
        assert(ps.take(n) =~= ps);
    }
}

} // verus!
