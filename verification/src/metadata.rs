//! Cross-cutting metadata elements: `<cocoa>`, `<access-group>`, `<synonym>`,
//! `<documentation>` (and its `<html>` children), `<xref>`.
//!
//! Also home to the closed-enum types [`Access`] (for `@access` and
//! `@requires-access`) and [`CocoaBooleanValue`] (for
//! `<cocoa boolean-value="...">`). Each typed enum mirrors the DTD's
//! allowed-value set, with an `Other(String)` escape hatch for forward
//! compatibility against future Apple additions.

use vstd::prelude::*;

use crate::document::{ints, well_placed};
use crate::error::{shape_error, Error};
use crate::events::{attr_views, tag_attrs, views, AttrItem, EventView, XmlEvent};
use crate::text::same_text;
use crate::xmlmap::{
    elem_tag, at_most_one, attr_value, attribute, attrs_at, element_text, flag, flag_value, named, named_positions,
    node_ok, one_ok, one_rel, opt_value, readable_children, req_value, required, text_content,
    text_of, FromXml,
};
use crate::document::children;
use crate::emit::{
    attr_text, element_xml, flag_attr_text, one_text, opt_attr_text, push_attr, push_flag_attr,
    push_opt_attr, write_element, write_one, write_text_element, ToXml,
};
use crate::readback::{
    all_canonical, lemma_closed_attribute_passes, lemma_many_pass_strict, lemma_tags_pass_strict,
    lemma_texts_pass_strict, StrictSafe, lemma_plain_escaped, all_writable, element_span, element_spelled, flag_slot, keys_distinct, lemma_attrs_read_back,
    lemma_element_tags, lemma_many_reads_back, lemma_named_append, lemma_starts_tagged,
    lemma_decode_clean, lemma_tag_decodes, lemma_tagged_decode, lemma_texts_read_back, many_span,
    many_spelled, many_starts, opt_seq, opt_slot, req_slot, texts_spelled, texts_span,
    texts_starts, ReadsBack,
};
use crate::strict::{allowed_value, closed_rule, known_names, rw_values};
use crate::text::{decoded_unescaped, utf8_text, xml_escaped};
use vstd::utf8::encode_utf8;
use crate::yorn::lemma_flag_reads_back;

verus! {

/// The closed set of `<... access="...">` and `<... requires-access="...">`
/// values declared by the sdef DTD: `(r | w | rw)`.
///
/// Unknown values read as [`Access::Other`] in lenient mode.
#[derive(Debug, Clone, Hash, PartialEq, Eq)]
#[non_exhaustive]
pub enum Access {
    /// `access="r"` — read-only.
    Read,
    /// `access="w"` — write-only.
    Write,
    /// `access="rw"` — read/write.
    ReadWrite,
    /// Unrecognised value, preserved verbatim for lenient parsing.
    Other(String),
}

impl Access {
    /// The canonical DTD string of a variant, or the wrapped value.
    pub open spec fn dtd_text(self) -> Seq<char> {
        match self {
            Access::Read => "r"@,
            Access::Write => "w"@,
            Access::ReadWrite => "rw"@,
            Access::Other(s) => s@,
        }
    }

    /// Whether a text is one of the DTD's values.
    pub open spec fn is_canonical(t: Seq<char>) -> bool {
        t == "r"@ || t == "w"@ || t == "rw"@
    }

    /// Whether `self` is what the attribute text `t` reads as.
    pub open spec fn reads_as(self, t: Seq<char>) -> bool {
        &&& self.dtd_text() == t
        &&& (self is Other <==> !Self::is_canonical(t))
    }

    /// Returns the canonical DTD string for this variant, or the wrapped
    /// value for [`Access::Other`].
    pub fn as_str(&self) -> (r: &str)
        ensures
            r@ == self.dtd_text(),
    {
        match self {
            Access::Read => "r",
            Access::Write => "w",
            Access::ReadWrite => "rw",
            Access::Other(s) => s.as_str(),
        }
    }

    /// Reads an attribute text; unknown values map to [`Access::Other`].
    pub fn from_dtd(s: &str) -> (r: Access)
        ensures
            r.reads_as(s@),
    {
        if same_text(s, "r") {
            Access::Read
        } else if same_text(s, "w") {
            Access::Write
        } else if same_text(s, "rw") {
            Access::ReadWrite
        } else {
            Access::Other(s.to_owned())
        }
    }
}

impl Access {
    /// Whether two values are the same: the same variant, and for
    /// [`Access::Other`] the same text.
    pub open spec fn same_as(self, other: Access) -> bool {
        match (self, other) {
            (Access::Other(x), Access::Other(y)) => x@ == y@,
            _ => self == other,
        }
    }
}

/// The text a value is written with reads back as the same value, for every
/// value but an [`Access::Other`] wrapping one of the DTD's own spellings,
/// which reads back as that spelling's variant.
pub proof fn lemma_access_text_reads_back(a: Access, b: Access)
    requires
        !(a is Other && Access::is_canonical(a.dtd_text())),
        b.reads_as(a.dtd_text()),
    ensures
        b.same_as(a),
{
    reveal_strlit("r");
    assert("r"@.len() == 1 && "r"@[0] == 'r');
    reveal_strlit("w");
    assert("w"@.len() == 1 && "w"@[0] == 'w');
    reveal_strlit("rw");
    assert("rw"@.len() == 2 && "rw"@[0] == 'r');
}

impl std::str::FromStr for Access {
    type Err = std::convert::Infallible;

    /// Infallible: unknown values map to [`Access::Other`].
    fn from_str(s: &str) -> (r: Result<Self, Self::Err>)
        ensures
            r matches Ok(v) && v.reads_as(s@),
    {
        Ok(Access::from_dtd(s))
    }
}

/// The closed set of `<cocoa boolean-value="...">` values: `(YES | NO)`.
///
/// Note the capital-case spelling — distinct from the lowercase `yorn`
/// entity used by `@hidden`, `@optional`, and friends.
#[derive(Debug, Clone, Hash, PartialEq, Eq)]
#[non_exhaustive]
pub enum CocoaBooleanValue {
    /// `boolean-value="YES"`.
    Yes,
    /// `boolean-value="NO"`.
    No,
    /// Unrecognised value, preserved verbatim for lenient parsing.
    Other(String),
}

impl CocoaBooleanValue {
    /// The canonical DTD string of a variant, or the wrapped value.
    pub open spec fn dtd_text(self) -> Seq<char> {
        match self {
            CocoaBooleanValue::Yes => "YES"@,
            CocoaBooleanValue::No => "NO"@,
            CocoaBooleanValue::Other(s) => s@,
        }
    }

    /// Whether a text is one of the DTD's values.
    pub open spec fn is_canonical(t: Seq<char>) -> bool {
        t == "YES"@ || t == "NO"@
    }

    /// Whether `self` is what the attribute text `t` reads as.
    pub open spec fn reads_as(self, t: Seq<char>) -> bool {
        &&& self.dtd_text() == t
        &&& (self is Other <==> !Self::is_canonical(t))
    }

    /// Returns the canonical DTD string for this variant, or the wrapped
    /// value for [`CocoaBooleanValue::Other`].
    pub fn as_str(&self) -> (r: &str)
        ensures
            r@ == self.dtd_text(),
    {
        match self {
            CocoaBooleanValue::Yes => "YES",
            CocoaBooleanValue::No => "NO",
            CocoaBooleanValue::Other(s) => s.as_str(),
        }
    }

    /// Reads an attribute text; unknown values map to
    /// [`CocoaBooleanValue::Other`].
    pub fn from_dtd(s: &str) -> (r: CocoaBooleanValue)
        ensures
            r.reads_as(s@),
    {
        if same_text(s, "YES") {
            CocoaBooleanValue::Yes
        } else if same_text(s, "NO") {
            CocoaBooleanValue::No
        } else {
            CocoaBooleanValue::Other(s.to_owned())
        }
    }
}

impl CocoaBooleanValue {
    /// Whether two values are the same: the same variant, and for
    /// [`CocoaBooleanValue::Other`] the same text.
    pub open spec fn same_as(self, other: CocoaBooleanValue) -> bool {
        match (self, other) {
            (CocoaBooleanValue::Other(x), CocoaBooleanValue::Other(y)) => x@ == y@,
            _ => self == other,
        }
    }
}

/// The text a value is written with reads back as the same value, for every
/// value but a [`CocoaBooleanValue::Other`] wrapping `YES` or `NO`, which
/// reads back as that spelling's variant.
pub proof fn lemma_boolean_value_text_reads_back(a: CocoaBooleanValue, b: CocoaBooleanValue)
    requires
        !(a is Other && CocoaBooleanValue::is_canonical(a.dtd_text())),
        b.reads_as(a.dtd_text()),
    ensures
        b.same_as(a),
{
    reveal_strlit("YES");
    assert("YES"@.len() == 3 && "YES"@[0] == 'Y');
    reveal_strlit("NO");
    assert("NO"@.len() == 2 && "NO"@[0] == 'N');
}

impl std::str::FromStr for CocoaBooleanValue {
    type Err = std::convert::Infallible;

    /// Infallible: unknown values map to [`CocoaBooleanValue::Other`].
    fn from_str(s: &str) -> (r: Result<Self, Self::Err>)
        ensures
            r matches Ok(v) && v.reads_as(s@),
    {
        Ok(CocoaBooleanValue::from_dtd(s))
    }
}

/// Whether an optional `access` field is what an optional attribute text
/// reads as.
pub open spec fn access_rel(a: Option<Access>, t: Option<Seq<char>>) -> bool {
    match (a, t) {
        (None, None) => true,
        (Some(a), Some(t)) => a.reads_as(t),
        _ => false,
    }
}

/// Whether two optional `(r | w | rw)` values are both absent or hold the
/// same value.
pub open spec fn access_same(a: Option<Access>, b: Option<Access>) -> bool {
    match (a, b) {
        (None, None) => true,
        (Some(x), Some(y)) => x.dtd_text() == y.dtd_text() && (x is Other <==> y is Other),
        _ => false,
    }
}

/// Reads an optional `(r | w | rw)` attribute.
pub fn access_attr(attrs: &Vec<AttrItem>, key: &str) -> (r: Result<Option<Access>, Error>)
    ensures
        r is Ok <==> attr_value(attr_views(attrs@), key@) is Ok,
        r matches Ok(a) ==> access_rel(a, opt_value(attr_views(attrs@), key@)),
        r matches Err(e) ==> e is Xml,
{
    match attribute(attrs, key) {
        Ok(Some(t)) => Ok(Some(Access::from_dtd(t.as_str()))),
        Ok(None) => Ok(None),
        Err(e) => Err(e),
    }
}

/// The text of an optional `(r | w | rw)` attribute: nothing when absent.
pub open spec fn access_attr_text(key: Seq<char>, value: Option<Access>) -> Seq<char> {
    match value {
        Some(a) => attr_text(key, a.dtd_text()),
        None => Seq::empty(),
    }
}

/// Appends an optional `(r | w | rw)` attribute, when present.
pub fn push_access_attr(out: &mut String, key: &str, value: &Option<Access>)
    ensures
        final(out)@ == old(out)@ + access_attr_text(key@, *value),
{
    match value {
        Some(a) => push_attr(out, key, a.as_str()),
        None => {
            assert(old(out)@ + Seq::<char>::empty() =~= old(out)@);
        },
    }
}

/// The text of an optional `boolean-value` attribute: nothing when absent.
pub open spec fn boolean_value_attr_text(key: Seq<char>, value: Option<CocoaBooleanValue>) -> Seq<char> {
    match value {
        Some(b) => attr_text(key, b.dtd_text()),
        None => Seq::empty(),
    }
}

/// Appends an optional `boolean-value` attribute, when present.
fn push_boolean_value_attr(out: &mut String, key: &str, value: &Option<CocoaBooleanValue>)
    ensures
        final(out)@ == old(out)@ + boolean_value_attr_text(key@, *value),
{
    match value {
        Some(b) => push_attr(out, key, b.as_str()),
        None => {
            assert(old(out)@ + Seq::<char>::empty() =~= old(out)@);
        },
    }
}

/// Implementation hint for Cocoa Scripting (the `<cocoa>` element).
///
/// All fields are optional — when omitted, Cocoa Scripting derives defaults
/// from the surrounding term.
#[derive(Debug, Clone, Default, Hash, PartialEq, Eq)]
#[non_exhaustive]
pub struct Cocoa {
    /// `name="..."` — legacy scriptSuite-compatibility attribute.
    pub name: Option<String>,
    /// `class="..."` — Objective-C class implementing this scripting term.
    pub class: Option<String>,
    /// `key="..."` — Key-Value-Coding key.
    pub key: Option<String>,
    /// `method="..."` — Objective-C selector.
    pub method: Option<String>,
    /// `insert-at-beginning="yes|no"`, `false` when absent.
    pub insert_at_beginning: bool,
    /// `boolean-value="YES|NO"`.
    pub boolean_value: Option<CocoaBooleanValue>,
    /// `string-value="..."` — arbitrary literal string value.
    pub string_value: Option<String>,
    /// `integer-value="..."` — literal integer value as written.
    pub integer_value: Option<String>,
}

/// Whether an optional boolean-value field is what an optional attribute
/// text reads as.
pub open spec fn boolean_value_rel(b: Option<CocoaBooleanValue>, t: Option<Seq<char>>) -> bool {
    match (b, t) {
        (None, None) => true,
        (Some(b), Some(t)) => b.reads_as(t),
        _ => false,
    }
}

/// Whether two optional `(YES | NO)` values are both absent or hold the
/// same value.
pub open spec fn boolean_value_same(a: Option<CocoaBooleanValue>, b: Option<CocoaBooleanValue>) -> bool {
    match (a, b) {
        (None, None) => true,
        (Some(x), Some(y)) => x.dtd_text() == y.dtd_text() && (x is Other <==> y is Other),
        _ => false,
    }
}

impl FromXml for Cocoa {
    open spec fn xml_ok(evs: Seq<EventView>, i: int) -> bool {
        let a = tag_attrs(evs[i]);
        &&& node_ok(evs, i)
        &&& attr_value(a, "name"@) is Ok
        &&& attr_value(a, "class"@) is Ok
        &&& attr_value(a, "key"@) is Ok
        &&& attr_value(a, "method"@) is Ok
        &&& flag_value(a, "insert-at-beginning"@) is Ok
        &&& attr_value(a, "boolean-value"@) is Ok
        &&& attr_value(a, "string-value"@) is Ok
        &&& attr_value(a, "integer-value"@) is Ok
    }

    open spec fn xml_rel(self, evs: Seq<EventView>, i: int) -> bool {
        let a = tag_attrs(evs[i]);
        &&& text_of(self.name) == opt_value(a, "name"@)
        &&& text_of(self.class) == opt_value(a, "class"@)
        &&& text_of(self.key) == opt_value(a, "key"@)
        &&& text_of(self.method) == opt_value(a, "method"@)
        &&& flag_value(a, "insert-at-beginning"@) == Ok::<bool, ()>(self.insert_at_beginning)
        &&& boolean_value_rel(self.boolean_value, opt_value(a, "boolean-value"@))
        &&& text_of(self.string_value) == opt_value(a, "string-value"@)
        &&& text_of(self.integer_value) == opt_value(a, "integer-value"@)
    }

    fn from_xml(evs: &Vec<XmlEvent>, i: usize) -> (r: Result<Self, Error>) {
        readable_children(evs, i)?;
        let a = attrs_at(evs, i);
        let name = attribute(a, "name")?;
        let class = attribute(a, "class")?;
        let key = attribute(a, "key")?;
        let method = attribute(a, "method")?;
        let insert_at_beginning = flag(a, "insert-at-beginning")?;
        let boolean_value = match attribute(a, "boolean-value")? {
            Some(t) => Some(CocoaBooleanValue::from_dtd(t.as_str())),
            None => None,
        };
        let string_value = attribute(a, "string-value")?;
        let integer_value = attribute(a, "integer-value")?;
        Ok(Cocoa {
            name,
            class,
            key,
            method,
            insert_at_beginning,
            boolean_value,
            string_value,
            integer_value,
        })
    }
}

impl ToXml for Cocoa {
    open spec fn xml_text(self, tag: Seq<char>) -> Seq<char> {
        element_xml(
            tag,
            opt_attr_text("name"@, self.name) + opt_attr_text("class"@, self.class)
                + opt_attr_text("key"@, self.key) + opt_attr_text("method"@, self.method)
                + flag_attr_text("insert-at-beginning"@, self.insert_at_beginning)
                + boolean_value_attr_text("boolean-value"@, self.boolean_value)
                + opt_attr_text("string-value"@, self.string_value)
                + opt_attr_text("integer-value"@, self.integer_value),
            Seq::<char>::empty(),
        )
    }

    fn write_xml(&self, tag: &str, out: &mut String) {
        let mut attrs = String::new();
        push_opt_attr(&mut attrs, "name", &self.name);
        assert(attrs@ =~= opt_attr_text("name"@, self.name));
        push_opt_attr(&mut attrs, "class", &self.class);
        push_opt_attr(&mut attrs, "key", &self.key);
        push_opt_attr(&mut attrs, "method", &self.method);
        push_flag_attr(&mut attrs, "insert-at-beginning", self.insert_at_beginning);
        push_boolean_value_attr(&mut attrs, "boolean-value", &self.boolean_value);
        push_opt_attr(&mut attrs, "string-value", &self.string_value);
        push_opt_attr(&mut attrs, "integer-value", &self.integer_value);
        let body = String::new();
        write_element(out, tag, &attrs, &body);
    }
}

/// Sandbox entitlement: the `<access-group>` element (added in OS X 10.8).
///
/// Restricts which sandboxed apps may invoke this command (or access this
/// property/element) by matching the requesting app's identifier against
/// `identifier`. The wildcard `"*"` matches any caller.
#[derive(Debug, Clone, Default, Hash, PartialEq, Eq)]
#[non_exhaustive]
pub struct AccessGroup {
    /// `identifier="..."` — reverse-DNS-style sandbox identifier, or `"*"`.
    pub identifier: String,
    /// `access="r|w|rw"` — `None` means the attribute was omitted.
    pub access: Option<Access>,
}

impl FromXml for AccessGroup {
    open spec fn xml_ok(evs: Seq<EventView>, i: int) -> bool {
        let a = tag_attrs(evs[i]);
        &&& node_ok(evs, i)
        &&& req_value(a, "identifier"@) is Some
        &&& attr_value(a, "access"@) is Ok
    }

    open spec fn xml_rel(self, evs: Seq<EventView>, i: int) -> bool {
        let a = tag_attrs(evs[i]);
        &&& req_value(a, "identifier"@) == Some(self.identifier@)
        &&& access_rel(self.access, opt_value(a, "access"@))
    }

    fn from_xml(evs: &Vec<XmlEvent>, i: usize) -> (r: Result<Self, Error>) {
        readable_children(evs, i)?;
        let a = attrs_at(evs, i);
        let identifier = required(a, "identifier")?;
        let access = access_attr(a, "access")?;
        Ok(AccessGroup { identifier, access })
    }
}

impl ToXml for AccessGroup {
    open spec fn xml_text(self, tag: Seq<char>) -> Seq<char> {
        element_xml(
            tag,
            attr_text("identifier"@, self.identifier@) + access_attr_text("access"@, self.access),
            Seq::<char>::empty(),
        )
    }

    fn write_xml(&self, tag: &str, out: &mut String) {
        let mut attrs = String::new();
        push_attr(&mut attrs, "identifier", self.identifier.as_str());
        assert(attrs@ =~= attr_text("identifier"@, self.identifier@));
        push_access_attr(&mut attrs, "access", &self.access);
        let body = String::new();
        write_element(out, tag, &attrs, &body);
    }
}

/// An alternate scripting term or code: the `<synonym>` element.
#[derive(Debug, Clone, Default, Hash, PartialEq, Eq)]
#[non_exhaustive]
pub struct Synonym {
    /// `name="..."` — alternate scripting term.
    pub name: Option<String>,
    /// `code="..."` — alternate four-character OSType code.
    pub code: Option<String>,
    /// `hidden="yes|no"`, `false` when absent.
    pub hidden: bool,
    /// `plural="..."` — alternate plural form.
    pub plural: Option<String>,
    /// Optional `<cocoa>` implementation hint child.
    pub cocoa: Option<Cocoa>,
}

impl FromXml for Synonym {
    open spec fn xml_ok(evs: Seq<EventView>, i: int) -> bool {
        let a = tag_attrs(evs[i]);
        let ks = children(evs, i);
        &&& node_ok(evs, i)
        &&& attr_value(a, "name"@) is Ok
        &&& attr_value(a, "code"@) is Ok
        &&& flag_value(a, "hidden"@) is Ok
        &&& attr_value(a, "plural"@) is Ok
        &&& one_ok::<Cocoa>(evs, ks, "cocoa"@)
    }

    open spec fn xml_rel(self, evs: Seq<EventView>, i: int) -> bool {
        let a = tag_attrs(evs[i]);
        let ks = children(evs, i);
        &&& text_of(self.name) == opt_value(a, "name"@)
        &&& text_of(self.code) == opt_value(a, "code"@)
        &&& flag_value(a, "hidden"@) == Ok::<bool, ()>(self.hidden)
        &&& text_of(self.plural) == opt_value(a, "plural"@)
        &&& one_rel(self.cocoa, evs, ks, "cocoa"@)
    }

    fn from_xml(evs: &Vec<XmlEvent>, i: usize) -> (r: Result<Self, Error>) {
        let ks = readable_children(evs, i)?;
        let a = attrs_at(evs, i);
        let name = attribute(a, "name")?;
        let code = attribute(a, "code")?;
        let hidden = flag(a, "hidden")?;
        let plural = attribute(a, "plural")?;
        let cocoa = at_most_one::<Cocoa>(evs, &ks, "cocoa")?;
        Ok(Synonym { name, code, hidden, plural, cocoa })
    }
}

impl ToXml for Synonym {
    open spec fn xml_text(self, tag: Seq<char>) -> Seq<char> {
        element_xml(
            tag,
            opt_attr_text("name"@, self.name) + opt_attr_text("code"@, self.code)
                + flag_attr_text("hidden"@, self.hidden) + opt_attr_text("plural"@, self.plural),
            one_text(self.cocoa, "cocoa"@),
        )
    }

    fn write_xml(&self, tag: &str, out: &mut String) {
        let mut attrs = String::new();
        push_opt_attr(&mut attrs, "name", &self.name);
        assert(attrs@ =~= opt_attr_text("name"@, self.name));
        push_opt_attr(&mut attrs, "code", &self.code);
        push_flag_attr(&mut attrs, "hidden", self.hidden);
        push_opt_attr(&mut attrs, "plural", &self.plural);
        let mut body = String::new();
        write_one(&self.cocoa, "cocoa", &mut body);
        assert(body@ =~= one_text(self.cocoa, "cocoa"@));
        write_element(out, tag, &attrs, &body);
    }
}

/// Human-readable documentation block: the `<documentation>` element.
///
/// Each block holds one or more `<html>` snippets.
#[derive(Debug, Clone, Default, Hash, PartialEq, Eq)]
#[non_exhaustive]
pub struct Documentation {
    /// `<html>` text snippets: the decoded inner text of each `<html>`
    /// element, in document order.
    pub html: Vec<String>,
}

impl FromXml for Documentation {
    open spec fn xml_ok(evs: Seq<EventView>, i: int) -> bool {
        let n = named(evs, children(evs, i), "html"@);
        &&& node_ok(evs, i)
        &&& forall|k: int| 0 <= k < n.len() ==> element_text(evs, #[trigger] n[k]) is Some
    }

    open spec fn xml_rel(self, evs: Seq<EventView>, i: int) -> bool {
        let n = named(evs, children(evs, i), "html"@);
        &&& self.html@.len() == n.len()
        &&& forall|k: int|
            0 <= k < n.len() ==> element_text(evs, n[k]) == Some((#[trigger] self.html@[k])@)
    }

    fn from_xml(evs: &Vec<XmlEvent>, i: usize) -> (r: Result<Self, Error>) {
        let ks = readable_children(evs, i)?;
        proof {
            crate::xmlmap::lemma_named_placed(views(evs@), ks@, "html"@);
            assert forall|k: int| 0 <= k < ks@.len() implies #[trigger] ks@[k] < views(evs@).len() by {
                assert(ints(ks@)[k] == ks@[k] as int);
            }
        }
        let ps = named_positions(evs, &ks, "html");
        let ghost n = named(views(evs@), children(views(evs@), i as int), "html"@);
        let mut html: Vec<String> = Vec::new();
        let mut j: usize = 0;
        while j < ps.len()
            invariant
                ints(ps@) == n,
                n == named(views(evs@), children(views(evs@), i as int), "html"@),
                forall|m: int| 0 <= m < n.len() ==> well_placed(views(evs@), #[trigger] n[m]),
                0 <= j <= ps@.len(),
                html@.len() == j,
                forall|m: int| 0 <= m < j ==> element_text(views(evs@), n[m]) == Some((#[trigger] html@[m])@),
            decreases ps.len() - j,
        {
            assert(n[j as int] == ps@[j as int] as int);
            match text_content(evs, ps[j]) {
                Some(t) => html.push(t),
                None => {
                    assert(element_text(views(evs@), n[j as int]) is None);
                    return Err(shape_error("unexpected element inside <html>"));
                },
            }
            j = j + 1;
        }
        assert forall|k: int| 0 <= k < n.len() implies element_text(views(evs@), #[trigger] n[k]) is Some by {
            assert(element_text(views(evs@), n[k]) == Some(html@[k]@));
        }
        Ok(Documentation { html })
    }
}

/// The XML text of a run of `<html>` snippets, each escaped.
pub open spec fn html_text(html: Seq<String>) -> Seq<char>
    decreases html.len(),
{
    if html.len() == 0 {
        Seq::empty()
    } else {
        html_text(html.drop_last()) + element_xml(
            "html"@,
            Seq::empty(),
            xml_escaped(html.last()@),
        )
    }
}

impl ToXml for Documentation {
    open spec fn xml_text(self, tag: Seq<char>) -> Seq<char> {
        element_xml(tag, Seq::<char>::empty(), html_text(self.html@))
    }

    fn write_xml(&self, tag: &str, out: &mut String) {
        let mut body = String::new();
        let mut k: usize = 0;
        assert(self.html@.take(0) =~= Seq::<String>::empty());
        while k < self.html.len()
            invariant
                0 <= k <= self.html@.len(),
                body@ == html_text(self.html@.take(k as int)),
            decreases self.html.len() - k,
        {
            write_text_element(&mut body, "html", self.html[k].as_str());
            assert(self.html@.take(k + 1).drop_last() =~= self.html@.take(k as int));
            k = k + 1;
        }
        assert(self.html@.take(self.html@.len() as int) =~= self.html@);
        let attrs = String::new();
        write_element(out, tag, &attrs, &body);
    }
}

/// Cross-reference: the `<xref>` element (added in OS X 10.5).
#[derive(Debug, Clone, Default, Hash, PartialEq, Eq)]
#[non_exhaustive]
pub struct Xref {
    /// `target="..."` — name or id of the referenced element.
    pub target: String,
    /// `hidden="yes|no"`, `false` when absent.
    pub hidden: bool,
}

impl FromXml for Xref {
    open spec fn xml_ok(evs: Seq<EventView>, i: int) -> bool {
        let a = tag_attrs(evs[i]);
        &&& node_ok(evs, i)
        &&& req_value(a, "target"@) is Some
        &&& flag_value(a, "hidden"@) is Ok
    }

    open spec fn xml_rel(self, evs: Seq<EventView>, i: int) -> bool {
        let a = tag_attrs(evs[i]);
        &&& req_value(a, "target"@) == Some(self.target@)
        &&& flag_value(a, "hidden"@) == Ok::<bool, ()>(self.hidden)
    }

    fn from_xml(evs: &Vec<XmlEvent>, i: usize) -> (r: Result<Self, Error>) {
        readable_children(evs, i)?;
        let a = attrs_at(evs, i);
        let target = required(a, "target")?;
        let hidden = flag(a, "hidden")?;
        Ok(Xref { target, hidden })
    }
}

impl ToXml for Xref {
    open spec fn xml_text(self, tag: Seq<char>) -> Seq<char> {
        element_xml(
            tag,
            attr_text("target"@, self.target@) + flag_attr_text("hidden"@, self.hidden),
            Seq::<char>::empty(),
        )
    }

    fn write_xml(&self, tag: &str, out: &mut String) {
        let mut attrs = String::new();
        push_attr(&mut attrs, "target", self.target.as_str());
        assert(attrs@ =~= attr_text("target"@, self.target@));
        push_flag_attr(&mut attrs, "hidden", self.hidden);
        let body = String::new();
        write_element(out, tag, &attrs, &body);
    }
}

/// The attribute slots written for an [`Xref`].
pub open spec fn xref_slots(x: Xref) -> Seq<(Seq<char>, Option<Seq<char>>)> {
    seq![req_slot("target"@, x.target@), flag_slot("hidden"@, x.hidden)]
}

impl ReadsBack for Xref {
    open spec fn event_span(self) -> int {
        element_span(0)
    }

    open spec fn spelled(self, evs: Seq<EventView>, i: int, tag: Seq<char>) -> bool {
        element_spelled(evs, i, tag, xref_slots(self), 0)
    }

    open spec fn writable(self) -> bool {
        true
    }

    proof fn lemma_reads_back(self, evs: Seq<EventView>, i: int, tag: Seq<char>) {
        let slots = xref_slots(self);
        reveal_strlit("target");
        reveal_strlit("hidden");
        assert("target"@[0] != "hidden"@[0]);
        assert(keys_distinct(slots));
        let a = tag_attrs(evs[i]);
        lemma_attrs_read_back(a, slots, 0);
        lemma_attrs_read_back(a, slots, 1);
        lemma_flag_reads_back(self.hidden);
    }
}

/// The attribute slots written for a [`Cocoa`].
pub open spec fn cocoa_slots(c: Cocoa) -> Seq<(Seq<char>, Option<Seq<char>>)> {
    seq![
        opt_slot("name"@, c.name),
        opt_slot("class"@, c.class),
        opt_slot("key"@, c.key),
        opt_slot("method"@, c.method),
        flag_slot("insert-at-beginning"@, c.insert_at_beginning),
        (
            "boolean-value"@,
            match c.boolean_value {
                Some(b) => Some(b.dtd_text()),
                None => None,
            },
        ),
        opt_slot("string-value"@, c.string_value),
        opt_slot("integer-value"@, c.integer_value),
    ]
}

/// The attribute keys of a [`Cocoa`] are distinct.
proof fn lemma_cocoa_keys(c: Cocoa)
    ensures
        keys_distinct(cocoa_slots(c)),
{
    reveal_strlit("boolean-value");
    reveal_strlit("class");
    reveal_strlit("insert-at-beginning");
    reveal_strlit("integer-value");
    reveal_strlit("key");
    reveal_strlit("method");
    reveal_strlit("name");
    reveal_strlit("string-value");
    assert("name"@.len() != "class"@.len());
    assert("name"@.len() != "key"@.len());
    assert("name"@.len() != "method"@.len());
    assert("name"@.len() != "insert-at-beginning"@.len());
    assert("name"@.len() != "boolean-value"@.len());
    assert("name"@.len() != "string-value"@.len());
    assert("name"@.len() != "integer-value"@.len());
    assert("class"@.len() != "key"@.len());
    assert("class"@.len() != "method"@.len());
    assert("class"@.len() != "insert-at-beginning"@.len());
    assert("class"@.len() != "boolean-value"@.len());
    assert("class"@.len() != "string-value"@.len());
    assert("class"@.len() != "integer-value"@.len());
    assert("key"@.len() != "method"@.len());
    assert("key"@.len() != "insert-at-beginning"@.len());
    assert("key"@.len() != "boolean-value"@.len());
    assert("key"@.len() != "string-value"@.len());
    assert("key"@.len() != "integer-value"@.len());
    assert("method"@.len() != "insert-at-beginning"@.len());
    assert("method"@.len() != "boolean-value"@.len());
    assert("method"@.len() != "string-value"@.len());
    assert("method"@.len() != "integer-value"@.len());
    assert("insert-at-beginning"@.len() != "boolean-value"@.len());
    assert("insert-at-beginning"@.len() != "string-value"@.len());
    assert("insert-at-beginning"@.len() != "integer-value"@.len());
    assert("boolean-value"@.len() != "string-value"@.len());
    assert("boolean-value"@[0] != "integer-value"@[0]);
    assert("string-value"@.len() != "integer-value"@.len());
}

impl ReadsBack for Cocoa {
    open spec fn event_span(self) -> int {
        element_span(0)
    }

    open spec fn spelled(self, evs: Seq<EventView>, i: int, tag: Seq<char>) -> bool {
        element_spelled(evs, i, tag, cocoa_slots(self), 0)
    }

    open spec fn writable(self) -> bool {
        match self.boolean_value {
            Some(b) => !(b is Other && CocoaBooleanValue::is_canonical(b.dtd_text())),
            None => true,
        }
    }

    proof fn lemma_reads_back(self, evs: Seq<EventView>, i: int, tag: Seq<char>) {
        let slots = cocoa_slots(self);
        lemma_cocoa_keys(self);
        lemma_element_tags(evs, i, tag, slots, 0, seq![]);
        let a = tag_attrs(evs[i]);
        lemma_attrs_read_back(a, slots, 0);
        lemma_attrs_read_back(a, slots, 1);
        lemma_attrs_read_back(a, slots, 2);
        lemma_attrs_read_back(a, slots, 3);
        lemma_attrs_read_back(a, slots, 4);
        lemma_attrs_read_back(a, slots, 5);
        lemma_attrs_read_back(a, slots, 6);
        lemma_attrs_read_back(a, slots, 7);
        lemma_flag_reads_back(self.insert_at_beginning);
        if let Some(b) = self.boolean_value {
            match b {
                CocoaBooleanValue::Other(_) => {},
                _ => {
                    reveal_strlit("YES");
                    reveal_strlit("NO");
                },
            }
        }
    }
}

/// The attribute slots written for a [`Synonym`].
pub open spec fn synonym_slots(x: Synonym) -> Seq<(Seq<char>, Option<Seq<char>>)> {
    seq![
        opt_slot("name"@, x.name),
        opt_slot("code"@, x.code),
        flag_slot("hidden"@, x.hidden),
        opt_slot("plural"@, x.plural),
    ]
}

/// The attribute keys of a [`Synonym`] are distinct.
proof fn lemma_synonym_keys(x: Synonym)
    ensures
        keys_distinct(synonym_slots(x)),
{
    reveal_strlit("code");
    reveal_strlit("hidden");
    reveal_strlit("name");
    reveal_strlit("plural");
    assert("name"@[0] != "code"@[0]);
    assert("name"@.len() != "hidden"@.len());
    assert("name"@.len() != "plural"@.len());
    assert("code"@.len() != "hidden"@.len());
    assert("code"@.len() != "plural"@.len());
    assert("hidden"@[0] != "plural"@[0]);
}

impl ReadsBack for Synonym {
    open spec fn event_span(self) -> int {
        element_span(many_span(opt_seq(self.cocoa)))
    }

    open spec fn spelled(self, evs: Seq<EventView>, i: int, tag: Seq<char>) -> bool {
        &&& element_spelled(evs, i, tag, synonym_slots(self), many_span(opt_seq(self.cocoa)))
        &&& many_spelled(opt_seq(self.cocoa), evs, i + 1, "cocoa"@)
    }

    open spec fn writable(self) -> bool {
        all_writable(opt_seq(self.cocoa))
    }

    proof fn lemma_reads_back(self, evs: Seq<EventView>, i: int, tag: Seq<char>) {
        let slots = synonym_slots(self);
        lemma_synonym_keys(self);
        let g0 = opt_seq(self.cocoa);
        let p0 = i + 1;
        lemma_many_reads_back(g0, evs, p0, "cocoa"@);
        let s0 = many_starts(g0, p0);
        let n = many_span(g0);
        lemma_element_tags(evs, i, tag, slots, n, s0);
        lemma_starts_tagged(g0, evs, p0, "cocoa"@);
        lemma_named_append(evs, seq![], s0, "cocoa"@);
        assert(seq![] + s0 =~= s0);
        assert(named(evs, s0, "cocoa"@) =~= s0);
        let a = tag_attrs(evs[i]);
        lemma_attrs_read_back(a, slots, 0);
        lemma_attrs_read_back(a, slots, 1);
        lemma_attrs_read_back(a, slots, 2);
        lemma_attrs_read_back(a, slots, 3);
        lemma_flag_reads_back(self.hidden);
        assert forall|k: int| 0 <= k < s0.len() implies match #[trigger] evs[s0[k]] {
            EventView::Text { raw } => decoded_unescaped(raw) is Some,
            EventView::CData { raw } => utf8_text(raw) is Some,
            _ => elem_tag(evs, s0[k]) is Some,
        } by {
            lemma_tag_decodes(evs, s0[k], "cocoa"@);
        }
    }
}

/// The slot of an optional `(r | w | rw)` attribute.
pub open spec fn access_slot(k: Seq<char>, a: Option<Access>) -> (Seq<char>, Option<Seq<char>>) {
    (
        k,
        match a {
            Some(x) => Some(x.dtd_text()),
            None => None,
        },
    )
}

/// Whether an optional `(r | w | rw)` value is written so that it reads
/// back: it is not an `Other` that wraps one of the DTD's spellings.
pub open spec fn access_writable(a: Option<Access>) -> bool {
    match a {
        Some(x) => !(x is Other && Access::is_canonical(x.dtd_text())),
        None => true,
    }
}

/// The attribute slots written for an [`AccessGroup`].
pub open spec fn access_group_slots(g: AccessGroup) -> Seq<(Seq<char>, Option<Seq<char>>)> {
    seq![req_slot("identifier"@, g.identifier@), access_slot("access"@, g.access)]
}

impl ReadsBack for AccessGroup {
    open spec fn event_span(self) -> int {
        element_span(0)
    }

    open spec fn spelled(self, evs: Seq<EventView>, i: int, tag: Seq<char>) -> bool {
        element_spelled(evs, i, tag, access_group_slots(self), 0)
    }

    open spec fn writable(self) -> bool {
        access_writable(self.access)
    }

    proof fn lemma_reads_back(self, evs: Seq<EventView>, i: int, tag: Seq<char>) {
        let slots = access_group_slots(self);
        reveal_strlit("identifier");
        reveal_strlit("access");
        assert("identifier"@.len() != "access"@.len());
        assert(keys_distinct(slots));
        lemma_element_tags(evs, i, tag, slots, 0, seq![]);
        let a = tag_attrs(evs[i]);
        lemma_attrs_read_back(a, slots, 0);
        lemma_attrs_read_back(a, slots, 1);
    }
}

impl ReadsBack for Documentation {
    open spec fn event_span(self) -> int {
        element_span(texts_span(self.html@))
    }

    open spec fn spelled(self, evs: Seq<EventView>, i: int, tag: Seq<char>) -> bool {
        &&& element_spelled(evs, i, tag, seq![], texts_span(self.html@))
        &&& texts_spelled(self.html@, evs, i + 1, "html"@)
    }

    open spec fn writable(self) -> bool {
        true
    }

    proof fn lemma_reads_back(self, evs: Seq<EventView>, i: int, tag: Seq<char>) {
        let p0 = i + 1;
        lemma_texts_read_back(self.html@, evs, p0, "html"@);
        let s0 = texts_starts(self.html@, p0);
        let n = texts_span(self.html@);
        lemma_element_tags(evs, i, tag, seq![], n, s0);
        lemma_named_append(evs, seq![], s0, "html"@);
        assert(seq![] + s0 =~= s0);
        assert(named(evs, s0, "html"@) =~= s0);
        lemma_tagged_decode(evs, s0, "html"@);
        lemma_decode_clean(evs, s0);
    }
}

/// Whether an optional `(r | w | rw)` value is not an `Other`.
pub open spec fn access_canonical(a: Option<Access>) -> bool {
    match a {
        Some(x) => !(x is Other),
        None => true,
    }
}

/// A `(r | w | rw)` value that is not an `Other` is written as one of the
/// DTD's spellings.
pub proof fn lemma_access_allowed(a: Option<Access>)
    ensures
        match a {
            Some(x) => !(x is Other) ==> allowed_value(
                encode_utf8(xml_escaped(x.dtd_text())),
                rw_values(),
            ),
            None => true,
        },
{
    if let Some(x) = a {
        reveal_strlit("r");
        reveal_strlit("w");
        reveal_strlit("rw");
        match x {
            Access::Read => {
                lemma_plain_escaped("r"@);
                assert(rw_values()[0] == "r"@);
            },
            Access::Write => {
                lemma_plain_escaped("w"@);
                assert(rw_values()[1] == "w"@);
            },
            Access::ReadWrite => {
                lemma_plain_escaped("rw"@);
                assert(rw_values()[2] == "rw"@);
            },
            Access::Other(_) => {},
        }
    }
}

/// A `boolean-value` that is not an `Other` is written as `YES` or `NO`.
pub proof fn lemma_boolean_value_allowed(b: Option<CocoaBooleanValue>)
    ensures
        match b {
            Some(x) => !(x is Other) ==> allowed_value(
                encode_utf8(xml_escaped(x.dtd_text())),
                seq!["YES"@, "NO"@],
            ),
            None => true,
        },
{
    if let Some(x) = b {
        reveal_strlit("YES");
        reveal_strlit("NO");
        match x {
            CocoaBooleanValue::Yes => {
                lemma_plain_escaped("YES"@);
                assert(seq!["YES"@, "NO"@][0] == "YES"@);
            },
            CocoaBooleanValue::No => {
                lemma_plain_escaped("NO"@);
                assert(seq!["YES"@, "NO"@][1] == "NO"@);
            },
            CocoaBooleanValue::Other(_) => {},
        }
    }
}

/// Strict mode knows the name a [`Xref`] is written with, and checks none
/// of its attributes against a closed set.
proof fn lemma_xref_strict_name()
    ensures
        known_names().contains("xref"@),
        closed_rule("xref"@) is None,
{
    reveal_strlit("xref");
    reveal_strlit("accessor");
    assert("xref"@.len() != "accessor"@.len());
    reveal_strlit("access-group");
    assert("xref"@.len() != "access-group"@.len());
    reveal_strlit("cocoa");
    assert("xref"@.len() != "cocoa"@.len());
    reveal_strlit("contents");
    assert("xref"@.len() != "contents"@.len());
    reveal_strlit("direct-parameter");
    assert("xref"@.len() != "direct-parameter"@.len());
    reveal_strlit("element");
    assert("xref"@.len() != "element"@.len());
    reveal_strlit("parameter");
    assert("xref"@.len() != "parameter"@.len());
    reveal_strlit("property");
    assert("xref"@.len() != "property"@.len());
    assert(known_names()[24] == "xref"@);
}
/// Strict mode knows the name a [`Cocoa`] is written with, and checks its
/// `boolean-value` attribute against a closed set.
proof fn lemma_cocoa_strict_name()
    ensures
        known_names().contains("cocoa"@),
        closed_rule("cocoa"@) == Some(("boolean-value"@, seq!["YES"@, "NO"@])),
{
    reveal_strlit("cocoa");
    reveal_strlit("accessor");
    assert("cocoa"@.len() != "accessor"@.len());
    reveal_strlit("access-group");
    assert("cocoa"@.len() != "access-group"@.len());
    assert(known_names()[4] == "cocoa"@);
}
/// Strict mode knows the name a [`AccessGroup`] is written with, and checks its
/// `access` attribute against a closed set.
proof fn lemma_access_group_strict_name()
    ensures
        known_names().contains("access-group"@),
        closed_rule("access-group"@) == Some(("access"@, rw_values())),
{
    reveal_strlit("access-group");
    reveal_strlit("accessor");
    assert("access-group"@.len() != "accessor"@.len());
    assert(known_names()[0] == "access-group"@);
}
/// Strict mode knows the name a [`Synonym`] is written with, and checks none
/// of its attributes against a closed set.
proof fn lemma_synonym_strict_name()
    ensures
        known_names().contains("synonym"@),
        closed_rule("synonym"@) is None,
{
    reveal_strlit("synonym");
    reveal_strlit("accessor");
    assert("synonym"@.len() != "accessor"@.len());
    reveal_strlit("access-group");
    assert("synonym"@.len() != "access-group"@.len());
    reveal_strlit("cocoa");
    assert("synonym"@.len() != "cocoa"@.len());
    reveal_strlit("contents");
    assert("synonym"@.len() != "contents"@.len());
    reveal_strlit("direct-parameter");
    assert("synonym"@.len() != "direct-parameter"@.len());
    reveal_strlit("element");
    assert("synonym"@[0] != "element"@[0]);
    reveal_strlit("parameter");
    assert("synonym"@.len() != "parameter"@.len());
    reveal_strlit("property");
    assert("synonym"@.len() != "property"@.len());
    assert(known_names()[21] == "synonym"@);
}
/// Strict mode knows the name a [`Documentation`] is written with, and checks none
/// of its attributes against a closed set.
proof fn lemma_documentation_strict_name()
    ensures
        known_names().contains("documentation"@),
        closed_rule("documentation"@) is None,
{
    reveal_strlit("documentation");
    reveal_strlit("accessor");
    assert("documentation"@.len() != "accessor"@.len());
    reveal_strlit("access-group");
    assert("documentation"@.len() != "access-group"@.len());
    reveal_strlit("cocoa");
    assert("documentation"@.len() != "cocoa"@.len());
    reveal_strlit("contents");
    assert("documentation"@.len() != "contents"@.len());
    reveal_strlit("direct-parameter");
    assert("documentation"@.len() != "direct-parameter"@.len());
    reveal_strlit("element");
    assert("documentation"@.len() != "element"@.len());
    reveal_strlit("parameter");
    assert("documentation"@.len() != "parameter"@.len());
    reveal_strlit("property");
    assert("documentation"@.len() != "property"@.len());
    assert(known_names()[9] == "documentation"@);
}
/// Strict mode knows the name an `<html>` snippet is written with, and checks none
/// of its attributes against a closed set.
proof fn lemma_html_strict_name()
    ensures
        known_names().contains("html"@),
        closed_rule("html"@) is None,
{
    reveal_strlit("html");
    reveal_strlit("accessor");
    assert("html"@.len() != "accessor"@.len());
    reveal_strlit("access-group");
    assert("html"@.len() != "access-group"@.len());
    reveal_strlit("cocoa");
    assert("html"@.len() != "cocoa"@.len());
    reveal_strlit("contents");
    assert("html"@.len() != "contents"@.len());
    reveal_strlit("direct-parameter");
    assert("html"@.len() != "direct-parameter"@.len());
    reveal_strlit("element");
    assert("html"@.len() != "element"@.len());
    reveal_strlit("parameter");
    assert("html"@.len() != "parameter"@.len());
    reveal_strlit("property");
    assert("html"@.len() != "property"@.len());
    assert(known_names()[14] == "html"@);
}
impl StrictSafe for Xref {
    open spec fn element_name() -> Seq<char> {
        "xref"@
    }

    open spec fn canonical(self) -> bool {
        true
    }

    proof fn lemma_passes_strict(self, evs: Seq<EventView>, i: int) {
        lemma_xref_strict_name();
        lemma_tags_pass_strict(evs, i, "xref"@, xref_slots(self), 0);
    }
}

impl StrictSafe for Cocoa {
    open spec fn element_name() -> Seq<char> {
        "cocoa"@
    }

    open spec fn canonical(self) -> bool {
        match self.boolean_value {
            Some(b) => !(b is Other),
            None => true,
        }
    }

    proof fn lemma_passes_strict(self, evs: Seq<EventView>, i: int) {
        let slots = cocoa_slots(self);
        lemma_cocoa_keys(self);
        lemma_cocoa_strict_name();
        lemma_boolean_value_allowed(self.boolean_value);
        lemma_closed_attribute_passes(tag_attrs(evs[i]), slots, 5, seq!["YES"@, "NO"@]);
        lemma_tags_pass_strict(evs, i, "cocoa"@, slots, 0);
    }
}

impl StrictSafe for AccessGroup {
    open spec fn element_name() -> Seq<char> {
        "access-group"@
    }

    open spec fn canonical(self) -> bool {
        access_canonical(self.access)
    }

    proof fn lemma_passes_strict(self, evs: Seq<EventView>, i: int) {
        let slots = access_group_slots(self);
        reveal_strlit("identifier");
        reveal_strlit("access");
        assert("identifier"@.len() != "access"@.len());
        assert(keys_distinct(slots));
        lemma_access_group_strict_name();
        lemma_access_allowed(self.access);
        lemma_closed_attribute_passes(tag_attrs(evs[i]), slots, 1, rw_values());
        lemma_tags_pass_strict(evs, i, "access-group"@, slots, 0);
    }
}

impl StrictSafe for Synonym {
    open spec fn element_name() -> Seq<char> {
        "synonym"@
    }

    open spec fn canonical(self) -> bool {
        all_canonical(opt_seq(self.cocoa))
    }

    proof fn lemma_passes_strict(self, evs: Seq<EventView>, i: int) {
        lemma_synonym_strict_name();
        let p0 = i + 1;
        lemma_many_pass_strict(opt_seq(self.cocoa), evs, p0);
        lemma_tags_pass_strict(
            evs,
            i,
            "synonym"@,
            synonym_slots(self),
            many_span(opt_seq(self.cocoa)),
        );
    }
}

impl StrictSafe for Documentation {
    open spec fn element_name() -> Seq<char> {
        "documentation"@
    }

    open spec fn canonical(self) -> bool {
        true
    }

    proof fn lemma_passes_strict(self, evs: Seq<EventView>, i: int) {
        lemma_documentation_strict_name();
        lemma_html_strict_name();
        lemma_texts_read_back(self.html@, evs, i + 1, "html"@);
        lemma_texts_pass_strict(self.html@, evs, i + 1, "html"@);
        lemma_tags_pass_strict(evs, i, "documentation"@, seq![], texts_span(self.html@));
    }
}

/// What the `(yes | no)` attributes of an element give the [`Cocoa`] read
/// from it: `yes` reads as set, `no` and an absent attribute as not set,
/// and any other text leaves the element unreadable.
pub proof fn lemma_cocoa_flags(x: Cocoa, evs: Seq<EventView>, i: int)
    requires
        x.xml_rel(evs, i),
    ensures
        crate::xmlmap::attr_value(tag_attrs(evs[i]), "insert-at-beginning"@) == Ok::<Option<Seq<char>>, ()>(Some("yes"@)) ==> x.insert_at_beginning,
        crate::xmlmap::attr_value(tag_attrs(evs[i]), "insert-at-beginning"@) == Ok::<Option<Seq<char>>, ()>(Some("no"@)) ==> !x.insert_at_beginning,
        crate::xmlmap::attr_value(tag_attrs(evs[i]), "insert-at-beginning"@) == Ok::<Option<Seq<char>>, ()>(None) ==> !x.insert_at_beginning,
        (crate::xmlmap::attr_value(tag_attrs(evs[i]), "insert-at-beginning"@) matches Ok(Some(t)) && t != "yes"@ && t != "no"@) ==> !Cocoa::xml_ok(evs, i),
{
    crate::xmlmap::lemma_flag_field(tag_attrs(evs[i]), "insert-at-beginning"@, x.insert_at_beginning);
    crate::xmlmap::lemma_flag_refused(tag_attrs(evs[i]), "insert-at-beginning"@);
}

/// What the `(yes | no)` attributes of an element give the [`Synonym`] read
/// from it: `yes` reads as set, `no` and an absent attribute as not set,
/// and any other text leaves the element unreadable.
pub proof fn lemma_synonym_flags(x: Synonym, evs: Seq<EventView>, i: int)
    requires
        x.xml_rel(evs, i),
    ensures
        crate::xmlmap::attr_value(tag_attrs(evs[i]), "hidden"@) == Ok::<Option<Seq<char>>, ()>(Some("yes"@)) ==> x.hidden,
        crate::xmlmap::attr_value(tag_attrs(evs[i]), "hidden"@) == Ok::<Option<Seq<char>>, ()>(Some("no"@)) ==> !x.hidden,
        crate::xmlmap::attr_value(tag_attrs(evs[i]), "hidden"@) == Ok::<Option<Seq<char>>, ()>(None) ==> !x.hidden,
        (crate::xmlmap::attr_value(tag_attrs(evs[i]), "hidden"@) matches Ok(Some(t)) && t != "yes"@ && t != "no"@) ==> !Synonym::xml_ok(evs, i),
{
    crate::xmlmap::lemma_flag_field(tag_attrs(evs[i]), "hidden"@, x.hidden);
    crate::xmlmap::lemma_flag_refused(tag_attrs(evs[i]), "hidden"@);
}

/// What the `(yes | no)` attributes of an element give the [`Xref`] read
/// from it: `yes` reads as set, `no` and an absent attribute as not set,
/// and any other text leaves the element unreadable.
pub proof fn lemma_xref_flags(x: Xref, evs: Seq<EventView>, i: int)
    requires
        x.xml_rel(evs, i),
    ensures
        crate::xmlmap::attr_value(tag_attrs(evs[i]), "hidden"@) == Ok::<Option<Seq<char>>, ()>(Some("yes"@)) ==> x.hidden,
        crate::xmlmap::attr_value(tag_attrs(evs[i]), "hidden"@) == Ok::<Option<Seq<char>>, ()>(Some("no"@)) ==> !x.hidden,
        crate::xmlmap::attr_value(tag_attrs(evs[i]), "hidden"@) == Ok::<Option<Seq<char>>, ()>(None) ==> !x.hidden,
        (crate::xmlmap::attr_value(tag_attrs(evs[i]), "hidden"@) matches Ok(Some(t)) && t != "yes"@ && t != "no"@) ==> !Xref::xml_ok(evs, i),
{
    crate::xmlmap::lemma_flag_field(tag_attrs(evs[i]), "hidden"@, x.hidden);
    crate::xmlmap::lemma_flag_refused(tag_attrs(evs[i]), "hidden"@);
}

/// The attribute text written for a [`Cocoa`] is that of its slots.
proof fn lemma_cocoa_attribute_text(x: Cocoa)
    ensures
        crate::readback::slots_text(cocoa_slots(x)) == opt_attr_text("name"@, x.name) + opt_attr_text("class"@, x.class) + opt_attr_text("key"@, x.key) + opt_attr_text("method"@, x.method) + flag_attr_text("insert-at-beginning"@, x.insert_at_beginning) + boolean_value_attr_text("boolean-value"@, x.boolean_value) + opt_attr_text("string-value"@, x.string_value) + opt_attr_text("integer-value"@, x.integer_value),
{
    let s = cocoa_slots(x);
    assert(s.len() == 8);
    crate::readback::lemma_slots_text_step(s, 0);
    assert(crate::readback::slot_text(s[0]) =~= opt_attr_text("name"@, x.name));
    crate::readback::lemma_slots_text_step(s, 1);
    assert(crate::readback::slot_text(s[1]) =~= opt_attr_text("class"@, x.class));
    crate::readback::lemma_slots_text_step(s, 2);
    assert(crate::readback::slot_text(s[2]) =~= opt_attr_text("key"@, x.key));
    crate::readback::lemma_slots_text_step(s, 3);
    assert(crate::readback::slot_text(s[3]) =~= opt_attr_text("method"@, x.method));
    crate::readback::lemma_slots_text_step(s, 4);
    assert(crate::readback::slot_text(s[4]) =~= flag_attr_text("insert-at-beginning"@, x.insert_at_beginning));
    crate::readback::lemma_slots_text_step(s, 5);
    assert(crate::readback::slot_text(s[5]) =~= boolean_value_attr_text("boolean-value"@, x.boolean_value));
    crate::readback::lemma_slots_text_step(s, 6);
    assert(crate::readback::slot_text(s[6]) =~= opt_attr_text("string-value"@, x.string_value));
    crate::readback::lemma_slots_text_step(s, 7);
    assert(crate::readback::slot_text(s[7]) =~= opt_attr_text("integer-value"@, x.integer_value));
    assert(s.take(0) =~= Seq::<(Seq<char>, Option<Seq<char>>)>::empty());
    assert(s.take(8) =~= s);
    assert(crate::readback::slots_text(s) =~= opt_attr_text("name"@, x.name) + opt_attr_text("class"@, x.class) + opt_attr_text("key"@, x.key) + opt_attr_text("method"@, x.method) + flag_attr_text("insert-at-beginning"@, x.insert_at_beginning) + boolean_value_attr_text("boolean-value"@, x.boolean_value) + opt_attr_text("string-value"@, x.string_value) + opt_attr_text("integer-value"@, x.integer_value));
}

/// The element written for a [`Cocoa`] carries exactly the attributes that
/// reading it back takes, [`cocoa_slots`]: one for each slot that holds a value, in
/// slot order.
pub proof fn lemma_cocoa_written_attributes(x: Cocoa, tag: Seq<char>)
    ensures
        crate::readback::written_with_attributes(x.xml_text(tag), tag, cocoa_slots(x)),
{
    lemma_cocoa_attribute_text(x);
    crate::readback::lemma_element_attributes(tag, opt_attr_text("name"@, x.name) + opt_attr_text("class"@, x.class) + opt_attr_text("key"@, x.key) + opt_attr_text("method"@, x.method) + flag_attr_text("insert-at-beginning"@, x.insert_at_beginning) + boolean_value_attr_text("boolean-value"@, x.boolean_value) + opt_attr_text("string-value"@, x.string_value) + opt_attr_text("integer-value"@, x.integer_value), Seq::<char>::empty(), cocoa_slots(x));
}

impl crate::readback::WritesText for Cocoa {
    proof fn lemma_written_text(self, evs: Seq<EventView>, i: int, tag: Seq<char>) {
        let slots = cocoa_slots(self);
        let n = 0;
        let p0 = i + 1;
        assert(p0 == i + 1 + n);
        lemma_cocoa_attribute_text(self);
        crate::readback::lemma_element_text(evs, i, tag, slots, n, Seq::<char>::empty());
    }
}

/// The attribute text written for a [`AccessGroup`] is that of its slots.
proof fn lemma_access_group_attribute_text(x: AccessGroup)
    ensures
        crate::readback::slots_text(access_group_slots(x)) == attr_text("identifier"@, x.identifier@) + access_attr_text("access"@, x.access),
{
    let s = access_group_slots(x);
    assert(s.len() == 2);
    crate::readback::lemma_slots_text_step(s, 0);
    assert(crate::readback::slot_text(s[0]) =~= attr_text("identifier"@, x.identifier@));
    crate::readback::lemma_slots_text_step(s, 1);
    assert(crate::readback::slot_text(s[1]) =~= access_attr_text("access"@, x.access));
    assert(s.take(0) =~= Seq::<(Seq<char>, Option<Seq<char>>)>::empty());
    assert(s.take(2) =~= s);
    assert(crate::readback::slots_text(s) =~= attr_text("identifier"@, x.identifier@) + access_attr_text("access"@, x.access));
}

/// The element written for a [`AccessGroup`] carries exactly the attributes that
/// reading it back takes, [`access_group_slots`]: one for each slot that holds a value, in
/// slot order.
pub proof fn lemma_access_group_written_attributes(x: AccessGroup, tag: Seq<char>)
    ensures
        crate::readback::written_with_attributes(x.xml_text(tag), tag, access_group_slots(x)),
{
    lemma_access_group_attribute_text(x);
    crate::readback::lemma_element_attributes(tag, attr_text("identifier"@, x.identifier@) + access_attr_text("access"@, x.access), Seq::<char>::empty(), access_group_slots(x));
}

impl crate::readback::WritesText for AccessGroup {
    proof fn lemma_written_text(self, evs: Seq<EventView>, i: int, tag: Seq<char>) {
        let slots = access_group_slots(self);
        let n = 0;
        let p0 = i + 1;
        assert(p0 == i + 1 + n);
        lemma_access_group_attribute_text(self);
        crate::readback::lemma_element_text(evs, i, tag, slots, n, Seq::<char>::empty());
    }
}

/// The attribute text written for a [`Synonym`] is that of its slots.
proof fn lemma_synonym_attribute_text(x: Synonym)
    ensures
        crate::readback::slots_text(synonym_slots(x)) == opt_attr_text("name"@, x.name) + opt_attr_text("code"@, x.code) + flag_attr_text("hidden"@, x.hidden) + opt_attr_text("plural"@, x.plural),
{
    let s = synonym_slots(x);
    assert(s.len() == 4);
    crate::readback::lemma_slots_text_step(s, 0);
    assert(crate::readback::slot_text(s[0]) =~= opt_attr_text("name"@, x.name));
    crate::readback::lemma_slots_text_step(s, 1);
    assert(crate::readback::slot_text(s[1]) =~= opt_attr_text("code"@, x.code));
    crate::readback::lemma_slots_text_step(s, 2);
    assert(crate::readback::slot_text(s[2]) =~= flag_attr_text("hidden"@, x.hidden));
    crate::readback::lemma_slots_text_step(s, 3);
    assert(crate::readback::slot_text(s[3]) =~= opt_attr_text("plural"@, x.plural));
    assert(s.take(0) =~= Seq::<(Seq<char>, Option<Seq<char>>)>::empty());
    assert(s.take(4) =~= s);
    assert(crate::readback::slots_text(s) =~= opt_attr_text("name"@, x.name) + opt_attr_text("code"@, x.code) + flag_attr_text("hidden"@, x.hidden) + opt_attr_text("plural"@, x.plural));
}

/// The element written for a [`Synonym`] carries exactly the attributes that
/// reading it back takes, [`synonym_slots`]: one for each slot that holds a value, in
/// slot order.
pub proof fn lemma_synonym_written_attributes(x: Synonym, tag: Seq<char>)
    ensures
        crate::readback::written_with_attributes(x.xml_text(tag), tag, synonym_slots(x)),
{
    lemma_synonym_attribute_text(x);
    crate::readback::lemma_element_attributes(tag, opt_attr_text("name"@, x.name) + opt_attr_text("code"@, x.code) + flag_attr_text("hidden"@, x.hidden) + opt_attr_text("plural"@, x.plural), one_text(x.cocoa, "cocoa"@), synonym_slots(x));
}

impl crate::readback::WritesText for Synonym {
    proof fn lemma_written_text(self, evs: Seq<EventView>, i: int, tag: Seq<char>) {
        let slots = synonym_slots(self);
        let n = many_span(opt_seq(self.cocoa));
        let p0 = i + 1;
        crate::readback::lemma_one_text(self.cocoa, "cocoa"@);
        crate::readback::lemma_many_text(opt_seq(self.cocoa), evs, p0, "cocoa"@);
        let p1 = p0 + many_span(opt_seq(self.cocoa));
        assert(p1 == i + 1 + n);
        lemma_synonym_attribute_text(self);
        crate::readback::lemma_element_text(evs, i, tag, slots, n, one_text(self.cocoa, "cocoa"@));
    }
}

/// The attribute text written for a [`Xref`] is that of its slots.
proof fn lemma_xref_attribute_text(x: Xref)
    ensures
        crate::readback::slots_text(xref_slots(x)) == attr_text("target"@, x.target@) + flag_attr_text("hidden"@, x.hidden),
{
    let s = xref_slots(x);
    assert(s.len() == 2);
    crate::readback::lemma_slots_text_step(s, 0);
    assert(crate::readback::slot_text(s[0]) =~= attr_text("target"@, x.target@));
    crate::readback::lemma_slots_text_step(s, 1);
    assert(crate::readback::slot_text(s[1]) =~= flag_attr_text("hidden"@, x.hidden));
    assert(s.take(0) =~= Seq::<(Seq<char>, Option<Seq<char>>)>::empty());
    assert(s.take(2) =~= s);
    assert(crate::readback::slots_text(s) =~= attr_text("target"@, x.target@) + flag_attr_text("hidden"@, x.hidden));
}

/// The element written for a [`Xref`] carries exactly the attributes that
/// reading it back takes, [`xref_slots`]: one for each slot that holds a value, in
/// slot order.
pub proof fn lemma_xref_written_attributes(x: Xref, tag: Seq<char>)
    ensures
        crate::readback::written_with_attributes(x.xml_text(tag), tag, xref_slots(x)),
{
    lemma_xref_attribute_text(x);
    crate::readback::lemma_element_attributes(tag, attr_text("target"@, x.target@) + flag_attr_text("hidden"@, x.hidden), Seq::<char>::empty(), xref_slots(x));
}

impl crate::readback::WritesText for Xref {
    proof fn lemma_written_text(self, evs: Seq<EventView>, i: int, tag: Seq<char>) {
        let slots = xref_slots(self);
        let n = 0;
        let p0 = i + 1;
        assert(p0 == i + 1 + n);
        lemma_xref_attribute_text(self);
        crate::readback::lemma_element_text(evs, i, tag, slots, n, Seq::<char>::empty());
    }
}

/// An element holding a text is written as the text of the events that
/// spell it.
proof fn lemma_text_element_text(evs: Seq<EventView>, p: int, tag: Seq<char>, t: Seq<char>)
    requires
        crate::readback::text_element_spelled(evs, p, tag, t),
    ensures
        p + crate::readback::text_span(t) <= evs.len(),
        element_xml(tag, Seq::empty(), xml_escaped(t)).len() > 0,
        element_xml(tag, Seq::empty(), xml_escaped(t)) == crate::readback::events_text(
            evs.subrange(p, p + crate::readback::text_span(t)),
        ),
{
    let none: Seq<(Seq<char>, Option<Seq<char>>)> = seq![];
    assert(crate::readback::slots_text(none) == Seq::<char>::empty());
    if t.len() == 0 {
        assert(xml_escaped(t) == Seq::<char>::empty());
        crate::readback::lemma_element_text(evs, p, tag, none, 0, xml_escaped(t));
    } else {
        if let EventView::Text { raw } = evs[p + 1] {
            vstd::utf8::encode_utf8_decode_utf8(xml_escaped(t));
            if xml_escaped(t).len() == 0 {
                assert(xml_escaped(t) =~= Seq::<char>::empty());
                assert(encode_utf8(Seq::<char>::empty()) == Seq::<u8>::empty());
            }
        }
        crate::readback::lemma_events_text_one(evs, p + 1);
        assert(p + 1 + 1 == p + 2);
        crate::readback::lemma_element_text(evs, p, tag, none, 1, xml_escaped(t));
    }
}

/// The `<html>` texts start with the first.
proof fn lemma_html_text_front(html: Seq<String>)
    requires
        html.len() > 0,
    ensures
        html_text(html) == element_xml("html"@, Seq::empty(), xml_escaped(html[0]@)) + html_text(
            html.drop_first(),
        ),
    decreases html.len(),
{
    if html.len() == 1 {
        assert(html.drop_last() =~= Seq::<String>::empty());
        assert(html.drop_first() =~= Seq::<String>::empty());
        let e = element_xml("html"@, Seq::empty(), xml_escaped(html[0]@));
        assert(Seq::<char>::empty() + e =~= e + Seq::<char>::empty());
    } else {
        lemma_html_text_front(html.drop_last());
        assert(html.drop_last().drop_first() =~= html.drop_first().drop_last());
        assert(html.drop_first().last() == html.last());
        let a = element_xml("html"@, Seq::empty(), xml_escaped(html[0]@));
        let b = html_text(html.drop_first().drop_last());
        let c = element_xml("html"@, Seq::empty(), xml_escaped(html.last()@));
        assert(a + b + c =~= a + (b + c));
    }
}

/// The `<html>` texts are written as the text of the events that spell
/// them.
proof fn lemma_html_texts_text(html: Seq<String>, evs: Seq<EventView>, p: int)
    requires
        texts_spelled(html, evs, p, "html"@),
        0 <= p,
    ensures
        html.len() == 0 ==> texts_span(html) == 0 && html_text(html).len() == 0,
        html.len() > 0 ==> texts_span(html) >= 1 && html_text(html).len() > 0 && p + texts_span(
            html,
        ) <= evs.len(),
        (html.len() > 0 || p <= evs.len()) ==> html_text(html) == crate::readback::events_text(
            evs.subrange(p, p + texts_span(html)),
        ),
    decreases html.len(),
{
    if html.len() == 0 {
        if p <= evs.len() {
            assert(evs.subrange(p, p) =~= Seq::<EventView>::empty());
        }
    } else {
        let q = p + crate::readback::text_span(html[0]@);
        lemma_text_element_text(evs, p, "html"@, html[0]@);
        lemma_html_texts_text(html.drop_first(), evs, q);
        lemma_html_text_front(html);
        crate::readback::lemma_events_text_split(evs, p, q, p + texts_span(html));
    }
}

impl crate::readback::WritesText for Documentation {
    proof fn lemma_written_text(self, evs: Seq<EventView>, i: int, tag: Seq<char>) {
        let none: Seq<(Seq<char>, Option<Seq<char>>)> = seq![];
        assert(crate::readback::slots_text(none) == Seq::<char>::empty());
        lemma_html_texts_text(self.html@, evs, i + 1);
        crate::readback::lemma_element_text(
            evs,
            i,
            tag,
            none,
            texts_span(self.html@),
            html_text(self.html@),
        );
    }
}

impl crate::xmlmap::ReadsUniquely for Cocoa {
    open spec fn same(self, other: Self) -> bool {
        &&& crate::xmlmap::text_of(self.name) == crate::xmlmap::text_of(other.name)
        &&& crate::xmlmap::text_of(self.class) == crate::xmlmap::text_of(other.class)
        &&& crate::xmlmap::text_of(self.key) == crate::xmlmap::text_of(other.key)
        &&& crate::xmlmap::text_of(self.method) == crate::xmlmap::text_of(other.method)
        &&& self.insert_at_beginning == other.insert_at_beginning
        &&& boolean_value_same(self.boolean_value, other.boolean_value)
        &&& crate::xmlmap::text_of(self.string_value) == crate::xmlmap::text_of(other.string_value)
        &&& crate::xmlmap::text_of(self.integer_value) == crate::xmlmap::text_of(other.integer_value)
    }

    proof fn lemma_reads_uniquely(self, other: Self, evs: Seq<EventView>, i: int) {

    }
}

impl crate::xmlmap::ReadsUniquely for AccessGroup {
    open spec fn same(self, other: Self) -> bool {
        &&& self.identifier@ == other.identifier@
        &&& crate::metadata::access_same(self.access, other.access)
    }

    proof fn lemma_reads_uniquely(self, other: Self, evs: Seq<EventView>, i: int) {

    }
}

impl crate::xmlmap::ReadsUniquely for Synonym {
    open spec fn same(self, other: Self) -> bool {
        &&& crate::xmlmap::text_of(self.name) == crate::xmlmap::text_of(other.name)
        &&& crate::xmlmap::text_of(self.code) == crate::xmlmap::text_of(other.code)
        &&& self.hidden == other.hidden
        &&& crate::xmlmap::text_of(self.plural) == crate::xmlmap::text_of(other.plural)
        &&& crate::xmlmap::opt_same(self.cocoa, other.cocoa)
    }

    proof fn lemma_reads_uniquely(self, other: Self, evs: Seq<EventView>, i: int) {
        let ks = crate::document::children(evs, i);
        crate::xmlmap::lemma_one_unique(self.cocoa, other.cocoa, evs, ks, "cocoa"@);
    }
}

impl crate::xmlmap::ReadsUniquely for Xref {
    open spec fn same(self, other: Self) -> bool {
        &&& self.target@ == other.target@
        &&& self.hidden == other.hidden
    }

    proof fn lemma_reads_uniquely(self, other: Self, evs: Seq<EventView>, i: int) {

    }
}

impl crate::xmlmap::ReadsUniquely for Documentation {
    open spec fn same(self, other: Self) -> bool {
        &&& self.html@.len() == other.html@.len()
        &&& forall|k: int| 0 <= k < self.html@.len() ==> (#[trigger] self.html@[k])@ == other.html@[k]@
    }

    proof fn lemma_reads_uniquely(self, other: Self, evs: Seq<EventView>, i: int) {
        let n = crate::xmlmap::named(evs, children(evs, i), "html"@);
        assert forall|k: int| 0 <= k < self.html@.len() implies (#[trigger] self.html@[k])@
            == other.html@[k]@ by {
            assert(element_text(evs, n[k]) == Some(self.html@[k]@));
            assert(element_text(evs, n[k]) == Some(other.html@[k]@));
        }
    }
}

} // verus!
