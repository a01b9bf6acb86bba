//! Strict-mode pre-validation pass for [`crate::Dictionary::from_str_strict`]
//! and friends.
//!
//! The lenient parser silently drops unknown XML child elements, so a
//! permissive parse cannot tell a real-world sdef apart from one that uses
//! elements this crate does not model. Strict mode walks the event stream
//! once and rejects unknown element names, `<xi:include>` directives, and
//! out-of-range values of the eight closed-enumeration attributes declared
//! by the DTD.

use vstd::prelude::*;
use vstd::utf8::*;

use crate::error::Error;
use crate::events::{attr_views, is_start, tag_attrs, tag_bytes, plain_doc, plain_events, views, AttrItem, AttrView, EventView, XmlEvent};
use crate::text::{
    bytes_are_text, decode_text, local_name, local_part, name_prefix, prefix_part, same_text,
};

use quick_xml::Error as ReadError;

verus! {

/// The element names accepted by strict mode, sorted: every element type
/// defined by `/System/Library/DTDs/sdef.dtd` at the modelled release.
pub open spec fn known_names() -> Seq<Seq<char>> {
    seq![
        "access-group"@, "accessor"@, "class"@, "class-extension"@, "cocoa"@,
        "command"@, "contents"@, "dictionary"@, "direct-parameter"@, "documentation"@,
        "element"@, "enumeration"@, "enumerator"@, "event"@, "html"@,
        "parameter"@, "property"@, "record-type"@, "responds-to"@, "result"@,
        "suite"@, "synonym"@, "type"@, "value-type"@, "xref"@,
    ]
}

/// Every element name accepted by strict mode, sorted.
pub fn known_elements() -> (r: Vec<&'static str>)
    ensures
        r@.len() == known_names().len(),
        forall|k: int| 0 <= k < r@.len() ==> (#[trigger] r@[k])@ == known_names()[k],
{
    let v: Vec<&'static str> = vec![
        "access-group", "accessor", "class", "class-extension", "cocoa",
        "command", "contents", "dictionary", "direct-parameter", "documentation",
        "element", "enumeration", "enumerator", "event", "html",
        "parameter", "property", "record-type", "responds-to", "result",
        "suite", "synonym", "type", "value-type", "xref",
    ];
    assert(v@.len() == known_names().len());
    v
}

/// Whether strict mode accepts an element of this local name.
pub fn is_known_element(name: &str) -> (r: bool)
    ensures
        r == known_names().contains(name@),
{
    let names = known_elements();
    let mut k: usize = 0;
    while k < names.len()
        invariant
            names@.len() == known_names().len(),
            forall|j: int| 0 <= j < names@.len() ==> (#[trigger] names@[j])@ == known_names()[j],
            0 <= k <= names@.len(),
            forall|j: int| 0 <= j < k ==> known_names()[j] != name@,
        decreases names.len() - k,
    {
        if same_text(names[k], name) {
            assert(known_names()[k as int] == name@);
            return true;
        }
        k = k + 1;
    }
    proof {
        if known_names().contains(name@) {
            let j = choose|j: int| 0 <= j < known_names().len() && known_names()[j] == name@;
            assert(known_names()[j] == name@);
        }
    }
    false
}

/// The `(r | w | rw)` value set.
pub open spec fn rw_values() -> Seq<Seq<char>> {
    seq!["r"@, "w"@, "rw"@]
}

/// The closed-enumeration attribute that the DTD declares on an element,
/// with its allowed values.
pub open spec fn closed_rule(element: Seq<char>) -> Option<(Seq<char>, Seq<Seq<char>>)> {
    if element == "accessor"@ {
        Some(("style"@, seq!["index"@, "name"@, "id"@, "range"@, "relative"@, "test"@]))
    } else if element == "access-group"@ {
        Some(("access"@, rw_values()))
    } else if element == "cocoa"@ {
        Some(("boolean-value"@, seq!["YES"@, "NO"@]))
    } else if element == "contents"@ {
        Some(("access"@, rw_values()))
    } else if element == "direct-parameter"@ {
        Some(("requires-access"@, rw_values()))
    } else if element == "element"@ {
        Some(("access"@, rw_values()))
    } else if element == "parameter"@ {
        Some(("requires-access"@, rw_values()))
    } else if element == "property"@ {
        Some(("access"@, rw_values()))
    } else {
        None
    }
}

/// The closed-enumeration constraint of an element, if the DTD declares one.
pub struct ClosedRule {
    /// The constrained attribute's local name.
    pub attribute: &'static str,
    /// The values the DTD allows.
    pub allowed: Vec<&'static str>,
}

/// Whether an executable rule holds the attribute and values of a rule.
pub open spec fn rule_matches(r: ClosedRule, spec_rule: (Seq<char>, Seq<Seq<char>>)) -> bool {
    &&& r.attribute@ == spec_rule.0
    &&& r.allowed@.len() == spec_rule.1.len()
    &&& forall|k: int| 0 <= k < r.allowed@.len() ==> (#[trigger] r.allowed@[k])@ == spec_rule.1[k]
}

fn rw_rule(attribute: &'static str) -> (r: ClosedRule)
    ensures
        r.attribute == attribute,
        r.allowed@.len() == rw_values().len(),
        forall|k: int| 0 <= k < r.allowed@.len() ==> (#[trigger] r.allowed@[k])@ == rw_values()[k],
{
    ClosedRule { attribute, allowed: vec!["r", "w", "rw"] }
}

/// The closed-enumeration constraint that applies to an element.
pub fn closed_rule_for(element: &str) -> (r: Option<ClosedRule>)
    ensures
        r is None <==> closed_rule(element@) is None,
        r matches Some(c) ==> rule_matches(c, closed_rule(element@)->Some_0),
{
    if same_text(element, "accessor") {
        Some(ClosedRule {
            attribute: "style",
            allowed: vec!["index", "name", "id", "range", "relative", "test"],
        })
    } else if same_text(element, "access-group") {
        Some(rw_rule("access"))
    } else if same_text(element, "cocoa") {
        Some(ClosedRule { attribute: "boolean-value", allowed: vec!["YES", "NO"] })
    } else if same_text(element, "contents") {
        Some(rw_rule("access"))
    } else if same_text(element, "direct-parameter") {
        Some(rw_rule("requires-access"))
    } else if same_text(element, "element") {
        Some(rw_rule("access"))
    } else if same_text(element, "parameter") {
        Some(rw_rule("requires-access"))
    } else if same_text(element, "property") {
        Some(rw_rule("access"))
    } else {
        None
    }
}

/// Whether raw attribute bytes spell one of the allowed values.
pub open spec fn allowed_value(value: Seq<u8>, allowed: Seq<Seq<char>>) -> bool {
    exists|k: int| 0 <= k < allowed.len() && value == encode_utf8(#[trigger] allowed[k])
}

fn is_allowed(value: &[u8], allowed: &Vec<&'static str>) -> (r: bool)
    ensures
        r == allowed_value(value@, allowed@.map_values(|s: &'static str| s@)),
{
    let ghost spec_allowed = allowed@.map_values(|s: &'static str| s@);
    let mut k: usize = 0;
    while k < allowed.len()
        invariant
            spec_allowed == allowed@.map_values(|s: &'static str| s@),
            0 <= k <= allowed@.len(),
            forall|j: int| 0 <= j < k ==> value@ != encode_utf8(#[trigger] spec_allowed[j]),
        decreases allowed.len() - k,
    {
        if bytes_are_text(value, allowed[k]) {
            assert(value@ == encode_utf8(spec_allowed[k as int]));
            return true;
        }
        k = k + 1;
    }
    false
}

/// What strict mode concludes about a document.
pub enum Verdict {
    /// Only modelled constructs.
    Pass,
    /// An element whose local name is not modelled.
    Unknown(Seq<char>),
    /// An element whose local name is not valid UTF-8.
    UndecodableName(Seq<u8>),
    /// An `xi:` element.
    XInclude,
    /// A closed-enumeration attribute outside its value set.
    BadValue { element: Seq<char>, attribute: Seq<char>, value: Seq<u8> },
    /// The tokenizer rejected the document.
    Broken,
}

/// The first attribute among `attrs[k..]` that breaks a closed-enumeration
/// rule: unprefixed, of the rule's local name, with a raw value outside the
/// allowed set. Malformed attributes are passed over.
pub open spec fn bad_attribute_from(
    attrs: Seq<AttrView>,
    k: int,
    attribute: Seq<char>,
    allowed: Seq<Seq<char>>,
) -> Option<Seq<u8>>
    decreases attrs.len() - k,
{
    if 0 <= k < attrs.len() {
        match attrs[k] {
            AttrView::Pair { key, value } => {
                if prefix_part(key) is None && local_part(key) == encode_utf8(attribute)
                    && !allowed_value(value, allowed) {
                    Some(value)
                } else {
                    bad_attribute_from(attrs, k + 1, attribute, allowed)
                }
            },
            AttrView::Malformed => bad_attribute_from(attrs, k + 1, attribute, allowed),
        }
    } else {
        None
    }
}

/// Strict mode's judgement of one start tag, if it rejects the tag.
pub open spec fn tag_verdict(name: Seq<u8>, attrs: Seq<AttrView>) -> Option<Verdict> {
    let local = local_part(name);
    if !valid_utf8(local) {
        Some(Verdict::UndecodableName(local))
    } else if prefix_part(name) == Some(encode_utf8("xi"@)) {
        Some(Verdict::XInclude)
    } else if !known_names().contains(decode_utf8(local)) {
        Some(Verdict::Unknown(decode_utf8(local)))
    } else {
        match closed_rule(decode_utf8(local)) {
            Some((attribute, allowed)) => match bad_attribute_from(attrs, 0, attribute, allowed) {
                Some(value) => Some(
                    Verdict::BadValue { element: decode_utf8(local), attribute, value },
                ),
                None => None,
            },
            None => None,
        }
    }
}

/// Strict mode's judgement of the events from position `k` on: the first
/// rejected start tag, a tokenizer failure, or a pass at end of input.
pub open spec fn strict_from(evs: Seq<EventView>, k: int) -> Verdict
    decreases evs.len() - k,
{
    if 0 <= k < evs.len() {
        match evs[k] {
            EventView::Open { name, attrs } => match tag_verdict(name, attrs) {
                Some(v) => v,
                None => strict_from(evs, k + 1),
            },
            EventView::Empty { name, attrs } => match tag_verdict(name, attrs) {
                Some(v) => v,
                None => strict_from(evs, k + 1),
            },
            EventView::Eof => Verdict::Pass,
            EventView::Failed => Verdict::Broken,
            _ => strict_from(evs, k + 1),
        }
    } else {
        Verdict::Pass
    }
}

/// What strict mode says of one start tag, whatever its attributes: an
/// `xi:` prefix is refused as an inclusion, else a local name outside the
/// modelled element names is refused as unknown, and a tag with neither
/// problem is refused only for a closed-enumeration value.
pub proof fn lemma_tag_verdict_names(name: Seq<u8>, attrs: Seq<AttrView>)
    requires
        valid_utf8(local_part(name)),
    ensures
        prefix_part(name) == Some(encode_utf8("xi"@)) ==> tag_verdict(name, attrs) == Some(
            Verdict::XInclude,
        ),
        prefix_part(name) != Some(encode_utf8("xi"@)) && !known_names().contains(
            decode_utf8(local_part(name)),
        ) ==> tag_verdict(name, attrs) == Some(Verdict::Unknown(decode_utf8(local_part(name)))),
        prefix_part(name) != Some(encode_utf8("xi"@)) && known_names().contains(
            decode_utf8(local_part(name)),
        ) ==> (tag_verdict(name, attrs) is None || tag_verdict(name, attrs) is Some
            && tag_verdict(name, attrs)->Some_0 is BadValue),
{
}

/// A known element whose closed-enumeration attribute, unprefixed, holds a
/// value outside the DTD's set is refused with that element, attribute and
/// value, where no earlier such attribute is out of range.
pub proof fn lemma_tag_verdict_bad_value(name: Seq<u8>, attrs: Seq<AttrView>, k: int)
    requires
        valid_utf8(local_part(name)),
        prefix_part(name) != Some(encode_utf8("xi"@)),
        known_names().contains(decode_utf8(local_part(name))),
        closed_rule(decode_utf8(local_part(name))) is Some,
        0 <= k < attrs.len(),
        attrs[k] matches AttrView::Pair { key, value } && prefix_part(key) is None && local_part(key)
            == encode_utf8(closed_rule(decode_utf8(local_part(name)))->Some_0.0) && !allowed_value(
            value,
            closed_rule(decode_utf8(local_part(name)))->Some_0.1,
        ),
        forall|j: int|
            0 <= j < k ==> !(#[trigger] attrs[j] matches AttrView::Pair { key, value } && prefix_part(
                key,
            ) is None && local_part(key) == encode_utf8(
                closed_rule(decode_utf8(local_part(name)))->Some_0.0,
            ) && !allowed_value(value, closed_rule(decode_utf8(local_part(name)))->Some_0.1)),
    ensures
        tag_verdict(name, attrs) == Some(
            Verdict::BadValue {
                element: decode_utf8(local_part(name)),
                attribute: closed_rule(decode_utf8(local_part(name)))->Some_0.0,
                value: crate::xmlmap::item_value(attrs[k]),
            },
        ),
{
    let rule = closed_rule(decode_utf8(local_part(name)))->Some_0;
    lemma_bad_attribute_first(attrs, 0, k, rule.0, rule.1);
}

/// The first out-of-range attribute is the one reported.
proof fn lemma_bad_attribute_first(
    attrs: Seq<AttrView>,
    p: int,
    k: int,
    attribute: Seq<char>,
    allowed: Seq<Seq<char>>,
)
    requires
        0 <= p <= k < attrs.len(),
        attrs[k] matches AttrView::Pair { key, value } && prefix_part(key) is None && local_part(key)
            == encode_utf8(attribute) && !allowed_value(value, allowed),
        forall|j: int|
            0 <= j < k ==> !(#[trigger] attrs[j] matches AttrView::Pair { key, value } && prefix_part(
                key,
            ) is None && local_part(key) == encode_utf8(attribute) && !allowed_value(value, allowed)),
    ensures
        bad_attribute_from(attrs, p, attribute, allowed) == Some(crate::xmlmap::item_value(attrs[k])),
    decreases k - p,
{
    if p < k {
        lemma_bad_attribute_first(attrs, p + 1, k, attribute, allowed);
    }
}

/// Whether an event ends a run: the end of input or a tokenizer failure.
pub open spec fn ends_run(e: EventView) -> bool {
    e is Eof || e is Failed
}

/// Whether the first `k` events hold no end of the run and no start tag,
/// with content or self-closing, that strict mode objects to.
pub open spec fn accepted_before(evs: Seq<EventView>, k: int) -> bool {
    forall|j: int|
        0 <= j < k ==> !ends_run(#[trigger] evs[j]) && (is_start(evs[j]) ==> tag_verdict(
            tag_bytes(evs[j]),
            tag_attrs(evs[j]),
        ) is None)
}

/// Events that strict mode accepts are passed over.
proof fn lemma_strict_skips(evs: Seq<EventView>, p: int, k: int)
    requires
        0 <= p <= k <= evs.len(),
        accepted_before(evs, k),
    ensures
        strict_from(evs, p) == strict_from(evs, k),
    decreases k - p,
{
    if p < k {
        assert(!ends_run(evs[p]));
        lemma_strict_skips(evs, p + 1, k);
    }
}

/// Strict mode rejects the first start tag it objects to, whether the tag
/// has content or closes itself: where every event before it is accepted
/// and none ends the run, the document fails with that tag's verdict.
pub proof fn lemma_strict_rejects_first_bad_tag(evs: Seq<EventView>, k: int)
    requires
        0 <= k < evs.len(),
        accepted_before(evs, k),
        is_start(evs[k]),
        tag_verdict(tag_bytes(evs[k]), tag_attrs(evs[k])) is Some,
    ensures
        strict_from(evs, 0) == tag_verdict(tag_bytes(evs[k]), tag_attrs(evs[k]))->Some_0,
        !(strict_from(evs, 0) is Pass),
{
    lemma_strict_skips(evs, 0, k);
}

/// Strict mode passes a document whose start tags, up to the end of input,
/// are all accepted.
pub proof fn lemma_strict_passes(evs: Seq<EventView>, k: int)
    requires
        0 <= k <= evs.len(),
        accepted_before(evs, k),
        k == evs.len() || evs[k] is Eof,
    ensures
        strict_from(evs, 0) is Pass,
{
    lemma_strict_skips(evs, 0, k);
}

/// A tokenizer failure before any rejected start tag fails strict mode as
/// broken input.
pub proof fn lemma_strict_fails_on_broken_input(evs: Seq<EventView>, k: int)
    requires
        0 <= k < evs.len(),
        accepted_before(evs, k),
        evs[k] is Failed,
    ensures
        strict_from(evs, 0) is Broken,
{
    lemma_strict_skips(evs, 0, k);
}

/// What `String::from_utf8_lossy` returns for a byte sequence.
pub uninterp spec fn utf8_lossy(bytes: Seq<u8>) -> Seq<char>;

/// The text `String::from_utf8_lossy` gives a byte sequence: the decoded
/// text where the bytes are valid UTF-8.
pub open spec fn lossy_decoded(bytes: Seq<u8>) -> Seq<char> {
    if valid_utf8(bytes) {
        decode_utf8(bytes)
    } else {
        utf8_lossy(bytes)
    }
}

/// `String::from_utf8_lossy`: the bytes as text, with each invalid sequence
/// replaced by U+FFFD. Its documentation promises the input unchanged when
/// it is valid UTF-8.
#[verifier::external_body]
fn lossy_text(bytes: &[u8]) -> (r: String)
    ensures
        r@ == utf8_lossy(bytes@),
        valid_utf8(bytes@) ==> r@ == decode_utf8(bytes@),
{
    String::from_utf8_lossy(bytes).into_owned()
}

/// What `format!("{:?}", bytes)` renders for a byte slice.
pub uninterp spec fn debug_bytes(bytes: Seq<u8>) -> Seq<char>;

/// The `Debug` rendering of a byte slice, such as `[255, 1]`.
#[verifier::external_body]
fn debug_text(bytes: &[u8]) -> (r: String)
    ensures
        r@ == debug_bytes(bytes@),
{
    format!("{:?}", bytes)
}

/// The error strict mode reports for a tokenizer failure:
/// `quick_xml::DeError::Custom` holding the failure's `Display` text.
#[verifier::external_body]
fn strict_read_failure(e: &ReadError) -> (r: quick_xml::DeError) {
    quick_xml::DeError::Custom(e.to_string())
}

/// Whether a validation result is the one a verdict calls for.
pub open spec fn verdict_result(r: Result<(), Error>, v: Verdict) -> bool {
    match v {
        Verdict::Pass => r is Ok,
        Verdict::Unknown(n) => r matches Err(Error::UnknownElement { name }) && name@ == n,
        Verdict::UndecodableName(b) => r matches Err(Error::UnknownElement { name })
            && name@ == debug_bytes(b),
        Verdict::XInclude => r matches Err(Error::XIncludeUnsupported),
        Verdict::BadValue { element: e, attribute: a, value: v } => r matches Err(
            Error::UnknownAttributeValue { element, attribute, value },
        ) && element@ == e && attribute@ == a && value@ == lossy_decoded(v),
        Verdict::Broken => r matches Err(Error::Xml(_)),
    }
}

fn check_attributes(element: &str, attrs: &Vec<AttrItem>, rule: &ClosedRule) -> (r: Result<
    (),
    Error,
>)
    ensures
        bad_attribute_from(attr_views(attrs@), 0, rule.attribute@, rule.allowed@.map_values(|s: &'static str| s@)) matches Some(v)
            ==> verdict_result(
            r,
            Verdict::BadValue { element: element@, attribute: rule.attribute@, value: v },
        ),
        bad_attribute_from(attr_views(attrs@), 0, rule.attribute@, rule.allowed@.map_values(|s: &'static str| s@)) is None
            ==> r is Ok,
{
    let ghost allowed = rule.allowed@.map_values(|s: &'static str| s@);
    let mut k: usize = 0;
    while k < attrs.len()
        invariant
            allowed == rule.allowed@.map_values(|s: &'static str| s@),
            0 <= k <= attr_views(attrs@).len(),
            bad_attribute_from(attr_views(attrs@), 0, rule.attribute@, allowed) == bad_attribute_from(
                attr_views(attrs@),
                k as int,
                rule.attribute@,
                allowed,
            ),
        decreases attrs.len() - k,
    {
        match &attrs[k] {
            AttrItem::Pair { key, value } => {
                let prefix = name_prefix(key.as_slice());
                let local = local_name(key.as_slice());
                if prefix.is_none() && bytes_are_text(local.as_slice(), rule.attribute)
                    && !is_allowed(value.as_slice(), &rule.allowed) {
                    return Err(
                        Error::UnknownAttributeValue {
                            element: element.to_owned(),
                            attribute: rule.attribute.to_owned(),
                            value: lossy_text(value.as_slice()),
                        },
                    );
                }
            },
            AttrItem::Malformed(_) => {},
        }
        k = k + 1;
    }
    Ok(())
}

/// Strict mode's judgement of one start tag.
fn check_tag(name: &Vec<u8>, attrs: &Vec<AttrItem>) -> (r: Result<(), Error>)
    ensures
        tag_verdict(name@, attr_views(attrs@)) matches Some(v) ==> verdict_result(r, v),
        tag_verdict(name@, attr_views(attrs@)) is None ==> r is Ok,
{
    let local = local_name(name.as_slice());
    let text = match decode_text(local.as_slice()) {
        Some(t) => t,
        None => return Err(Error::UnknownElement { name: debug_text(local.as_slice()) }),
    };
    match name_prefix(name.as_slice()) {
        Some(p) => {
            if bytes_are_text(p.as_slice(), "xi") {
                return Err(Error::XIncludeUnsupported);
            }
        },
        None => {},
    }
    if !is_known_element(text.as_str()) {
        return Err(Error::UnknownElement { name: text });
    }
    match closed_rule_for(text.as_str()) {
        Some(rule) => {
            proof {
                assert(rule.allowed@.map_values(|s: &'static str| s@) =~= closed_rule(
                    text@,
                )->Some_0.1);
            }
            check_attributes(text.as_str(), attrs, &rule)
        },
        None => Ok(()),
    }
}

/// Walks the events of a document, rejecting unknown element names,
/// `xi:include` directives, and out-of-range values for the closed-enum
/// attributes. The result is the one [`strict_from`] calls for.
pub fn check_events(evs: &Vec<XmlEvent>) -> (r: Result<(), Error>)
    ensures
        verdict_result(r, strict_from(views(evs@), 0)),
{
    let mut k: usize = 0;
    while k < evs.len()
        invariant
            0 <= k <= views(evs@).len(),
            strict_from(views(evs@), 0) == strict_from(views(evs@), k as int),
        decreases evs.len() - k,
    {
        match &evs[k] {
            XmlEvent::Open { name, attrs } => {
                let r = check_tag(name, attrs);
                if r.is_err() {
                    return r;
                }
            },
            XmlEvent::Empty { name, attrs } => {
                let r = check_tag(name, attrs);
                if r.is_err() {
                    return r;
                }
            },
            XmlEvent::Eof => return Ok(()),
            XmlEvent::Failed(e) => return Err(Error::Xml(strict_read_failure(e))),
            _ => {},
        }
        k = k + 1;
    }
    Ok(())
}

/// Walks `xml` once, rejecting unknown element names, `xi:include`
/// directives, and out-of-range values for the closed-enum attributes.
/// Returns `Ok(())` for documents that hold only modelled constructs. The
/// result is what [`check_events`] concludes about the events quick-xml's
/// `Reader` reads from `xml`, [`plain_doc`]`(xml)`.
pub fn validate_strict(xml: &str) -> (r: Result<(), Error>)
    ensures
        verdict_result(r, strict_from(plain_doc(xml@), 0)),
{
    let evs = plain_events(xml);
    check_events(&evs)
}

} // verus!
