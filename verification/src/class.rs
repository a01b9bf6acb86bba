//! Class hierarchy AST nodes: [`Class`], [`ClassExtension`], and their
//! members ([`Contents`], [`Element`], [`Accessor`], [`RespondsTo`]).
//!
//! Modelled after `<class>`, `<class-extension>`, `<contents>`, `<element>`,
//! `<accessor>`, and `<responds-to>` from the sdef DTD. Class-level
//! [`crate::Property`] declarations live in [`crate::decl`] because
//! `<record-type>` shares the same property concept.

use vstd::prelude::*;

use crate::decl::Property;
use crate::document::children;
use crate::error::Error;
use crate::events::{tag_attrs, EventView, XmlEvent};
use crate::metadata::{
    access_attr, access_attr_text, access_canonical, access_rel, access_slot, access_writable,
    lemma_access_allowed, push_access_attr, Access, AccessGroup, Cocoa, Documentation, Synonym,
    Xref,
};
use crate::readback::lemma_plain_escaped;
use crate::strict::allowed_value;
use crate::text::{same_text, xml_escaped};
use vstd::utf8::encode_utf8;
use crate::typeref::TypeRef;
use crate::xmlmap::{
    at_most_one, attr_value, attribute, attrs_at, flag, flag_opt, flag_opt_value, flag_value,
    many, many_ok, many_rel, node_ok, one_ok, one_rel, opt_value, readable_children, req_value,
    required, text_of, FromXml,
};
use crate::emit::{
    attr_text, element_xml, flag_attr_text, flag_opt_attr_text, many_text, one_text,
    opt_attr_text, push_attr, push_flag_attr, push_flag_opt_attr, push_opt_attr, write_element,
    write_many, write_one, ToXml,
};
use crate::document::{content_end, kids_from};
use crate::readback::{
    all_writable, element_span, element_spelled, flag_opt_slot, flag_slot, keys_distinct,
    lemma_attrs_read_back, lemma_decode_append, lemma_decode_clean, lemma_decode_empty, lemma_element_tags,
    lemma_many_reads_back, lemma_named_extend, lemma_seq_assoc, lemma_starts_tagged, lemma_tagged_decode,
    many_span, many_spelled, many_starts, opt_seq, opt_slot, req_slot, tags_decode, ReadsBack,
};
use crate::xmlmap::named;
use crate::yorn::{lemma_flag_opt_reads_back, lemma_flag_reads_back};
use crate::readback::{
    all_canonical, lemma_closed_attribute_passes, lemma_many_pass_strict, lemma_tags_pass_strict,
    StrictSafe,
};
use crate::strict::{closed_rule, known_names, rw_values};

verus! {

/// The closed set of `<accessor style="…">` values declared by the sdef
/// DTD's `accessor-type` entity: `(index | name | id | range | relative |
/// test)`.
///
/// Unknown values read as [`AccessorStyle::Other`] in lenient mode.
#[derive(Debug, Clone, Hash, PartialEq, Eq)]
#[non_exhaustive]
pub enum AccessorStyle {
    /// `style="index"` — by 1-based ordinal.
    Index,
    /// `style="name"` — by `name` attribute.
    Name,
    /// `style="id"` — by `id` attribute.
    Id,
    /// `style="range"` — by inclusive range of two specifiers.
    Range,
    /// `style="relative"` — relative to another specifier.
    Relative,
    /// `style="test"` — by predicate (`every X where …`).
    Test,
    /// Unrecognised `style` value, preserved verbatim for lenient parsing.
    Other(String),
}

impl AccessorStyle {
    /// The canonical DTD string of a variant, or the wrapped value.
    pub open spec fn dtd_text(self) -> Seq<char> {
        match self {
            AccessorStyle::Index => "index"@,
            AccessorStyle::Name => "name"@,
            AccessorStyle::Id => "id"@,
            AccessorStyle::Range => "range"@,
            AccessorStyle::Relative => "relative"@,
            AccessorStyle::Test => "test"@,
            AccessorStyle::Other(s) => s@,
        }
    }

    /// Whether a text is one of the DTD's values.
    pub open spec fn is_canonical(t: Seq<char>) -> bool {
        t == "index"@ || t == "name"@ || t == "id"@ || t == "range"@ || t == "relative"@
            || t == "test"@
    }

    /// Whether `self` is what the attribute text `t` reads as.
    pub open spec fn reads_as(self, t: Seq<char>) -> bool {
        &&& self.dtd_text() == t
        &&& (self is Other <==> !Self::is_canonical(t))
    }

    /// Returns the canonical DTD string for this variant, or the wrapped
    /// value for [`AccessorStyle::Other`]. Mirrors the textual form the
    /// parser accepts.
    pub fn as_str(&self) -> (r: &str)
        ensures
            r@ == self.dtd_text(),
    {
        match self {
            AccessorStyle::Index => "index",
            AccessorStyle::Name => "name",
            AccessorStyle::Id => "id",
            AccessorStyle::Range => "range",
            AccessorStyle::Relative => "relative",
            AccessorStyle::Test => "test",
            AccessorStyle::Other(s) => s.as_str(),
        }
    }

    /// Reads an attribute text; unknown values map to
    /// [`AccessorStyle::Other`].
    pub fn from_dtd(s: &str) -> (r: AccessorStyle)
        ensures
            r.reads_as(s@),
    {
        if same_text(s, "index") {
            AccessorStyle::Index
        } else if same_text(s, "name") {
            AccessorStyle::Name
        } else if same_text(s, "id") {
            AccessorStyle::Id
        } else if same_text(s, "range") {
            AccessorStyle::Range
        } else if same_text(s, "relative") {
            AccessorStyle::Relative
        } else if same_text(s, "test") {
            AccessorStyle::Test
        } else {
            AccessorStyle::Other(s.to_owned())
        }
    }
}

impl AccessorStyle {
    /// Whether two values are the same: the same variant, and for
    /// [`AccessorStyle::Other`] the same text.
    pub open spec fn same_as(self, other: AccessorStyle) -> bool {
        match (self, other) {
            (AccessorStyle::Other(x), AccessorStyle::Other(y)) => x@ == y@,
            _ => self == other,
        }
    }
}

/// The text a style is written with reads back as the same style, for every
/// style but an [`AccessorStyle::Other`] wrapping one of the DTD's own
/// spellings, which reads back as that spelling's variant.
pub proof fn lemma_style_text_reads_back(a: AccessorStyle, b: AccessorStyle)
    requires
        !(a is Other && AccessorStyle::is_canonical(a.dtd_text())),
        b.reads_as(a.dtd_text()),
    ensures
        b.same_as(a),
{
    reveal_strlit("index");
    assert("index"@.len() == 5 && "index"@[0] == 'i');
    reveal_strlit("name");
    assert("name"@.len() == 4 && "name"@[0] == 'n');
    reveal_strlit("id");
    assert("id"@.len() == 2 && "id"@[0] == 'i');
    reveal_strlit("range");
    assert("range"@.len() == 5 && "range"@[0] == 'r');
    reveal_strlit("relative");
    assert("relative"@.len() == 8 && "relative"@[0] == 'r');
    reveal_strlit("test");
    assert("test"@.len() == 4 && "test"@[0] == 't');
}

/// A style that is not an `Other` is written as one of the DTD's
/// spellings.
pub proof fn lemma_style_allowed(s: AccessorStyle)
    ensures
        !(s is Other) ==> allowed_value(
            encode_utf8(xml_escaped(s.dtd_text())),
            seq!["index"@, "name"@, "id"@, "range"@, "relative"@, "test"@],
        ),
{
    let allowed = seq!["index"@, "name"@, "id"@, "range"@, "relative"@, "test"@];
    reveal_strlit("index");
    reveal_strlit("name");
    reveal_strlit("id");
    reveal_strlit("range");
    reveal_strlit("relative");
    reveal_strlit("test");
    match s {
        AccessorStyle::Index => {
            lemma_plain_escaped("index"@);
            assert(allowed[0] == "index"@);
        },
        AccessorStyle::Name => {
            lemma_plain_escaped("name"@);
            assert(allowed[1] == "name"@);
        },
        AccessorStyle::Id => {
            lemma_plain_escaped("id"@);
            assert(allowed[2] == "id"@);
        },
        AccessorStyle::Range => {
            lemma_plain_escaped("range"@);
            assert(allowed[3] == "range"@);
        },
        AccessorStyle::Relative => {
            lemma_plain_escaped("relative"@);
            assert(allowed[4] == "relative"@);
        },
        AccessorStyle::Test => {
            lemma_plain_escaped("test"@);
            assert(allowed[5] == "test"@);
        },
        AccessorStyle::Other(_) => {},
    }
}

impl std::str::FromStr for AccessorStyle {
    type Err = std::convert::Infallible;

    /// Infallible: unknown values map to [`AccessorStyle::Other`].
    fn from_str(s: &str) -> (r: Result<Self, Self::Err>)
        ensures
            r matches Ok(v) && v.reads_as(s@),
    {
        Ok(AccessorStyle::from_dtd(s))
    }
}

/// Whether two accessor styles hold the same value.
pub open spec fn style_same(a: AccessorStyle, b: AccessorStyle) -> bool {
    a.dtd_text() == b.dtd_text() && (a is Other <==> b is Other)
}

/// Whether a style field is what a required attribute text reads as.
pub open spec fn style_rel(s: AccessorStyle, t: Option<Seq<char>>) -> bool {
    match t {
        Some(t) => s.reads_as(t),
        None => false,
    }
}

/// A `<class>` declares a scriptable object type with properties, elements,
/// and the verbs it responds to.
///
/// The DTD permits the class-contents children in any order; each child is
/// read into its typed `Vec` field regardless of where it stands.
#[derive(Debug, Clone, Hash, PartialEq, Eq)]
#[non_exhaustive]
pub struct Class {
    /// Class name (`name="…"`).
    pub name: String,
    /// Four-character code (`code="…"`).
    pub code: String,
    /// `id="…"` — optional unique identifier.
    pub id: Option<String>,
    /// Optional plural form (`plural="…"`).
    pub plural: Option<String>,
    /// Optional parent class name (`inherits="…"`).
    pub inherits: Option<String>,
    /// Optional human description (`description="…"`).
    pub description: Option<String>,
    /// `hidden="yes"` flag, defaults to `false`.
    pub hidden: bool,
    /// Optional `<cocoa>` implementation hint child.
    pub cocoa: Option<Cocoa>,
    /// Zero or more `<access-group>` entitlement children.
    pub access_groups: Vec<AccessGroup>,
    /// `<type>` children (a value-type-style coercion target).
    pub types: Vec<TypeRef>,
    /// `<property>` children, in document order.
    pub properties: Vec<Property>,
    /// `<element>` children — to-many relationships, in document order.
    pub elements: Vec<Element>,
    /// `<contents>` children — the implied container.
    pub contents: Vec<Contents>,
    /// `<responds-to>` children declaring which verbs the class handles.
    pub responds_to: Vec<RespondsTo>,
    /// `<synonym>` children.
    pub synonyms: Vec<Synonym>,
    /// `<documentation>` children.
    pub documentation: Vec<Documentation>,
    /// `<xref>` children.
    pub xrefs: Vec<Xref>,
}

impl FromXml for Class {
    open spec fn xml_ok(evs: Seq<EventView>, i: int) -> bool {
        let a = tag_attrs(evs[i]);
        let ks = children(evs, i);
        &&& node_ok(evs, i)
        &&& req_value(a, "name"@) is Some
        &&& req_value(a, "code"@) is Some
        &&& attr_value(a, "id"@) is Ok
        &&& attr_value(a, "plural"@) is Ok
        &&& attr_value(a, "inherits"@) is Ok
        &&& attr_value(a, "description"@) is Ok
        &&& flag_value(a, "hidden"@) is Ok
        &&& one_ok::<Cocoa>(evs, ks, "cocoa"@)
        &&& many_ok::<AccessGroup>(evs, ks, "access-group"@)
        &&& many_ok::<TypeRef>(evs, ks, "type"@)
        &&& many_ok::<Property>(evs, ks, "property"@)
        &&& many_ok::<Element>(evs, ks, "element"@)
        &&& many_ok::<Contents>(evs, ks, "contents"@)
        &&& many_ok::<RespondsTo>(evs, ks, "responds-to"@)
        &&& many_ok::<Synonym>(evs, ks, "synonym"@)
        &&& many_ok::<Documentation>(evs, ks, "documentation"@)
        &&& many_ok::<Xref>(evs, ks, "xref"@)
    }

    open spec fn xml_rel(self, evs: Seq<EventView>, i: int) -> bool {
        let a = tag_attrs(evs[i]);
        let ks = children(evs, i);
        &&& req_value(a, "name"@) == Some(self.name@)
        &&& req_value(a, "code"@) == Some(self.code@)
        &&& text_of(self.id) == opt_value(a, "id"@)
        &&& text_of(self.plural) == opt_value(a, "plural"@)
        &&& text_of(self.inherits) == opt_value(a, "inherits"@)
        &&& text_of(self.description) == opt_value(a, "description"@)
        &&& flag_value(a, "hidden"@) == Ok::<bool, ()>(self.hidden)
        &&& one_rel(self.cocoa, evs, ks, "cocoa"@)
        &&& many_rel(self.access_groups, evs, ks, "access-group"@)
        &&& many_rel(self.types, evs, ks, "type"@)
        &&& many_rel(self.properties, evs, ks, "property"@)
        &&& many_rel(self.elements, evs, ks, "element"@)
        &&& many_rel(self.contents, evs, ks, "contents"@)
        &&& many_rel(self.responds_to, evs, ks, "responds-to"@)
        &&& many_rel(self.synonyms, evs, ks, "synonym"@)
        &&& many_rel(self.documentation, evs, ks, "documentation"@)
        &&& many_rel(self.xrefs, evs, ks, "xref"@)
    }

    fn from_xml(evs: &Vec<XmlEvent>, i: usize) -> (r: Result<Self, Error>) {
        let ks = readable_children(evs, i)?;
        let a = attrs_at(evs, i);
        let name = required(a, "name")?;
        let code = required(a, "code")?;
        let id = attribute(a, "id")?;
        let plural = attribute(a, "plural")?;
        let inherits = attribute(a, "inherits")?;
        let description = attribute(a, "description")?;
        let hidden = flag(a, "hidden")?;
        let cocoa = at_most_one::<Cocoa>(evs, &ks, "cocoa")?;
        let access_groups = many::<AccessGroup>(evs, &ks, "access-group")?;
        let types = many::<TypeRef>(evs, &ks, "type")?;
        let properties = many::<Property>(evs, &ks, "property")?;
        let elements = many::<Element>(evs, &ks, "element")?;
        let contents = many::<Contents>(evs, &ks, "contents")?;
        let responds_to = many::<RespondsTo>(evs, &ks, "responds-to")?;
        let synonyms = many::<Synonym>(evs, &ks, "synonym")?;
        let documentation = many::<Documentation>(evs, &ks, "documentation")?;
        let xrefs = many::<Xref>(evs, &ks, "xref")?;
        Ok(Class { name, code, id, plural, inherits, description, hidden, cocoa, access_groups, types, properties, elements, contents, responds_to, synonyms, documentation, xrefs })
    }
}

impl ToXml for Class {
    open spec fn xml_text(self, tag: Seq<char>) -> Seq<char> {
        element_xml(
            tag,
            attr_text("name"@, self.name@) +
                attr_text("code"@, self.code@) +
                opt_attr_text("id"@, self.id) +
                opt_attr_text("plural"@, self.plural) +
                opt_attr_text("inherits"@, self.inherits) +
                opt_attr_text("description"@, self.description) +
                flag_attr_text("hidden"@, self.hidden),
            one_text(self.cocoa, "cocoa"@) +
                many_text(self.access_groups@, "access-group"@) +
                many_text(self.types@, "type"@) +
                many_text(self.properties@, "property"@) +
                many_text(self.elements@, "element"@) +
                many_text(self.contents@, "contents"@) +
                many_text(self.responds_to@, "responds-to"@) +
                many_text(self.synonyms@, "synonym"@) +
                many_text(self.documentation@, "documentation"@) +
                many_text(self.xrefs@, "xref"@),
        )
    }

    fn write_xml(&self, tag: &str, out: &mut String) {
        let mut attrs = String::new();
        push_attr(&mut attrs, "name", self.name.as_str());
        assert(attrs@ =~= attr_text("name"@, self.name@));
        push_attr(&mut attrs, "code", self.code.as_str());
        push_opt_attr(&mut attrs, "id", &self.id);
        push_opt_attr(&mut attrs, "plural", &self.plural);
        push_opt_attr(&mut attrs, "inherits", &self.inherits);
        push_opt_attr(&mut attrs, "description", &self.description);
        push_flag_attr(&mut attrs, "hidden", self.hidden);
        let mut body = String::new();
        write_one(&self.cocoa, "cocoa", &mut body);
        assert(body@ =~= one_text(self.cocoa, "cocoa"@));
        write_many(&self.access_groups, "access-group", &mut body);
        write_many(&self.types, "type", &mut body);
        write_many(&self.properties, "property", &mut body);
        write_many(&self.elements, "element", &mut body);
        write_many(&self.contents, "contents", &mut body);
        write_many(&self.responds_to, "responds-to", &mut body);
        write_many(&self.synonyms, "synonym", &mut body);
        write_many(&self.documentation, "documentation", &mut body);
        write_many(&self.xrefs, "xref", &mut body);
        write_element(out, tag, &attrs, &body);
    }
}

/// The attribute slots written for a [`Class`].
pub open spec fn class_slots(x: Class) -> Seq<(Seq<char>, Option<Seq<char>>)> {
    seq![
        req_slot("name"@, x.name@),
        req_slot("code"@, x.code@),
        opt_slot("id"@, x.id),
        opt_slot("plural"@, x.plural),
        opt_slot("inherits"@, x.inherits),
        opt_slot("description"@, x.description),
        flag_slot("hidden"@, x.hidden),
    ]
}

/// The attribute keys of a [`Class`] are distinct, and so are the names of
/// its child elements.
proof fn lemma_class_names(x: Class)
    ensures
        keys_distinct(class_slots(x)),
        "cocoa"@ != "access-group"@,
        "cocoa"@ != "type"@,
        "cocoa"@ != "property"@,
        "cocoa"@ != "element"@,
        "cocoa"@ != "contents"@,
        "cocoa"@ != "responds-to"@,
        "cocoa"@ != "synonym"@,
        "cocoa"@ != "documentation"@,
        "cocoa"@ != "xref"@,
        "access-group"@ != "type"@,
        "access-group"@ != "property"@,
        "access-group"@ != "element"@,
        "access-group"@ != "contents"@,
        "access-group"@ != "responds-to"@,
        "access-group"@ != "synonym"@,
        "access-group"@ != "documentation"@,
        "access-group"@ != "xref"@,
        "type"@ != "property"@,
        "type"@ != "element"@,
        "type"@ != "contents"@,
        "type"@ != "responds-to"@,
        "type"@ != "synonym"@,
        "type"@ != "documentation"@,
        "type"@ != "xref"@,
        "property"@ != "element"@,
        "property"@ != "contents"@,
        "property"@ != "responds-to"@,
        "property"@ != "synonym"@,
        "property"@ != "documentation"@,
        "property"@ != "xref"@,
        "element"@ != "contents"@,
        "element"@ != "responds-to"@,
        "element"@ != "synonym"@,
        "element"@ != "documentation"@,
        "element"@ != "xref"@,
        "contents"@ != "responds-to"@,
        "contents"@ != "synonym"@,
        "contents"@ != "documentation"@,
        "contents"@ != "xref"@,
        "responds-to"@ != "synonym"@,
        "responds-to"@ != "documentation"@,
        "responds-to"@ != "xref"@,
        "synonym"@ != "documentation"@,
        "synonym"@ != "xref"@,
        "documentation"@ != "xref"@,
{
    reveal_strlit("code");
    reveal_strlit("description");
    reveal_strlit("hidden");
    reveal_strlit("id");
    reveal_strlit("inherits");
    reveal_strlit("name");
    reveal_strlit("plural");
    assert("name"@[0] != "code"@[0]);
    assert("name"@.len() != "id"@.len());
    assert("name"@.len() != "plural"@.len());
    assert("name"@.len() != "inherits"@.len());
    assert("name"@.len() != "description"@.len());
    assert("name"@.len() != "hidden"@.len());
    assert("code"@.len() != "id"@.len());
    assert("code"@.len() != "plural"@.len());
    assert("code"@.len() != "inherits"@.len());
    assert("code"@.len() != "description"@.len());
    assert("code"@.len() != "hidden"@.len());
    assert("id"@.len() != "plural"@.len());
    assert("id"@.len() != "inherits"@.len());
    assert("id"@.len() != "description"@.len());
    assert("id"@.len() != "hidden"@.len());
    assert("plural"@.len() != "inherits"@.len());
    assert("plural"@.len() != "description"@.len());
    assert("plural"@[0] != "hidden"@[0]);
    assert("inherits"@.len() != "description"@.len());
    assert("inherits"@.len() != "hidden"@.len());
    assert("description"@.len() != "hidden"@.len());
    reveal_strlit("access-group");
    reveal_strlit("cocoa");
    reveal_strlit("contents");
    reveal_strlit("documentation");
    reveal_strlit("element");
    reveal_strlit("property");
    reveal_strlit("responds-to");
    reveal_strlit("synonym");
    reveal_strlit("type");
    reveal_strlit("xref");
    assert("cocoa"@.len() != "access-group"@.len());
    assert("cocoa"@.len() != "type"@.len());
    assert("cocoa"@.len() != "property"@.len());
    assert("cocoa"@.len() != "element"@.len());
    assert("cocoa"@.len() != "contents"@.len());
    assert("cocoa"@.len() != "responds-to"@.len());
    assert("cocoa"@.len() != "synonym"@.len());
    assert("cocoa"@.len() != "documentation"@.len());
    assert("cocoa"@.len() != "xref"@.len());
    assert("access-group"@.len() != "type"@.len());
    assert("access-group"@.len() != "property"@.len());
    assert("access-group"@.len() != "element"@.len());
    assert("access-group"@.len() != "contents"@.len());
    assert("access-group"@.len() != "responds-to"@.len());
    assert("access-group"@.len() != "synonym"@.len());
    assert("access-group"@.len() != "documentation"@.len());
    assert("access-group"@.len() != "xref"@.len());
    assert("type"@.len() != "property"@.len());
    assert("type"@.len() != "element"@.len());
    assert("type"@.len() != "contents"@.len());
    assert("type"@.len() != "responds-to"@.len());
    assert("type"@.len() != "synonym"@.len());
    assert("type"@.len() != "documentation"@.len());
    assert("type"@[0] != "xref"@[0]);
    assert("property"@.len() != "element"@.len());
    assert("property"@[0] != "contents"@[0]);
    assert("property"@.len() != "responds-to"@.len());
    assert("property"@.len() != "synonym"@.len());
    assert("property"@.len() != "documentation"@.len());
    assert("property"@.len() != "xref"@.len());
    assert("element"@.len() != "contents"@.len());
    assert("element"@.len() != "responds-to"@.len());
    assert("element"@[0] != "synonym"@[0]);
    assert("element"@.len() != "documentation"@.len());
    assert("element"@.len() != "xref"@.len());
    assert("contents"@.len() != "responds-to"@.len());
    assert("contents"@.len() != "synonym"@.len());
    assert("contents"@.len() != "documentation"@.len());
    assert("contents"@.len() != "xref"@.len());
    assert("responds-to"@.len() != "synonym"@.len());
    assert("responds-to"@.len() != "documentation"@.len());
    assert("responds-to"@.len() != "xref"@.len());
    assert("synonym"@.len() != "documentation"@.len());
    assert("synonym"@.len() != "xref"@.len());
    assert("documentation"@.len() != "xref"@.len());
}

impl ReadsBack for Class {
    open spec fn event_span(self) -> int {
        element_span(many_span(opt_seq(self.cocoa)) + many_span(self.access_groups@) + many_span(self.types@) + many_span(self.properties@) + many_span(self.elements@) + many_span(self.contents@) + many_span(self.responds_to@) + many_span(self.synonyms@) + many_span(self.documentation@) + many_span(self.xrefs@))
    }

    open spec fn spelled(self, evs: Seq<EventView>, i: int, tag: Seq<char>) -> bool {
        &&& element_spelled(evs, i, tag, class_slots(self), many_span(opt_seq(self.cocoa)) + many_span(self.access_groups@) + many_span(self.types@) + many_span(self.properties@) + many_span(self.elements@) + many_span(self.contents@) + many_span(self.responds_to@) + many_span(self.synonyms@) + many_span(self.documentation@) + many_span(self.xrefs@))
        &&& many_spelled(opt_seq(self.cocoa), evs, i + 1, "cocoa"@)
        &&& many_spelled(self.access_groups@, evs, i + 1 + many_span(opt_seq(self.cocoa)), "access-group"@)
        &&& many_spelled(self.types@, evs, i + 1 + many_span(opt_seq(self.cocoa)) + many_span(self.access_groups@), "type"@)
        &&& many_spelled(self.properties@, evs, i + 1 + many_span(opt_seq(self.cocoa)) + many_span(self.access_groups@) + many_span(self.types@), "property"@)
        &&& many_spelled(self.elements@, evs, i + 1 + many_span(opt_seq(self.cocoa)) + many_span(self.access_groups@) + many_span(self.types@) + many_span(self.properties@), "element"@)
        &&& many_spelled(self.contents@, evs, i + 1 + many_span(opt_seq(self.cocoa)) + many_span(self.access_groups@) + many_span(self.types@) + many_span(self.properties@) + many_span(self.elements@), "contents"@)
        &&& many_spelled(self.responds_to@, evs, i + 1 + many_span(opt_seq(self.cocoa)) + many_span(self.access_groups@) + many_span(self.types@) + many_span(self.properties@) + many_span(self.elements@) + many_span(self.contents@), "responds-to"@)
        &&& many_spelled(self.synonyms@, evs, i + 1 + many_span(opt_seq(self.cocoa)) + many_span(self.access_groups@) + many_span(self.types@) + many_span(self.properties@) + many_span(self.elements@) + many_span(self.contents@) + many_span(self.responds_to@), "synonym"@)
        &&& many_spelled(self.documentation@, evs, i + 1 + many_span(opt_seq(self.cocoa)) + many_span(self.access_groups@) + many_span(self.types@) + many_span(self.properties@) + many_span(self.elements@) + many_span(self.contents@) + many_span(self.responds_to@) + many_span(self.synonyms@), "documentation"@)
        &&& many_spelled(self.xrefs@, evs, i + 1 + many_span(opt_seq(self.cocoa)) + many_span(self.access_groups@) + many_span(self.types@) + many_span(self.properties@) + many_span(self.elements@) + many_span(self.contents@) + many_span(self.responds_to@) + many_span(self.synonyms@) + many_span(self.documentation@), "xref"@)
    }

    open spec fn writable(self) -> bool {
        &&& all_writable(opt_seq(self.cocoa))
        &&& all_writable(self.access_groups@)
        &&& all_writable(self.types@)
        &&& all_writable(self.properties@)
        &&& all_writable(self.elements@)
        &&& all_writable(self.contents@)
        &&& all_writable(self.responds_to@)
        &&& all_writable(self.synonyms@)
        &&& all_writable(self.documentation@)
        &&& all_writable(self.xrefs@)
    }

    #[verifier::spinoff_prover]
    #[verifier::rlimit(100)]
    proof fn lemma_reads_back(self, evs: Seq<EventView>, i: int, tag: Seq<char>) {
        let slots = class_slots(self);
        lemma_class_names(self);
        let p0 = i + 1;
        let k0: Seq<int> = seq![];
        lemma_decode_empty(evs);
        assert(kids_from(evs, p0) =~= k0 + kids_from(evs, p0));
        let g0 = opt_seq(self.cocoa);
        lemma_many_reads_back(g0, evs, p0, "cocoa"@);
        let s0 = many_starts(g0, p0);
        let p1 = p0 + many_span(g0);
        let k1 = k0 + s0;
        lemma_seq_assoc(k0, s0, kids_from(evs, p1));
        lemma_starts_tagged(g0, evs, p0, "cocoa"@);
        lemma_tagged_decode(evs, s0, "cocoa"@);
        lemma_decode_append(evs, k0, s0);
        let g1 = self.access_groups@;
        lemma_many_reads_back(g1, evs, p1, "access-group"@);
        let s1 = many_starts(g1, p1);
        let p2 = p1 + many_span(g1);
        let k2 = k1 + s1;
        lemma_seq_assoc(k1, s1, kids_from(evs, p2));
        lemma_starts_tagged(g1, evs, p1, "access-group"@);
        lemma_tagged_decode(evs, s1, "access-group"@);
        lemma_decode_append(evs, k1, s1);
        let g2 = self.types@;
        lemma_many_reads_back(g2, evs, p2, "type"@);
        let s2 = many_starts(g2, p2);
        let p3 = p2 + many_span(g2);
        let k3 = k2 + s2;
        lemma_seq_assoc(k2, s2, kids_from(evs, p3));
        lemma_starts_tagged(g2, evs, p2, "type"@);
        lemma_tagged_decode(evs, s2, "type"@);
        lemma_decode_append(evs, k2, s2);
        let g3 = self.properties@;
        lemma_many_reads_back(g3, evs, p3, "property"@);
        let s3 = many_starts(g3, p3);
        let p4 = p3 + many_span(g3);
        let k4 = k3 + s3;
        lemma_seq_assoc(k3, s3, kids_from(evs, p4));
        lemma_starts_tagged(g3, evs, p3, "property"@);
        lemma_tagged_decode(evs, s3, "property"@);
        lemma_decode_append(evs, k3, s3);
        let g4 = self.elements@;
        lemma_many_reads_back(g4, evs, p4, "element"@);
        let s4 = many_starts(g4, p4);
        let p5 = p4 + many_span(g4);
        let k5 = k4 + s4;
        lemma_seq_assoc(k4, s4, kids_from(evs, p5));
        lemma_starts_tagged(g4, evs, p4, "element"@);
        lemma_tagged_decode(evs, s4, "element"@);
        lemma_decode_append(evs, k4, s4);
        let g5 = self.contents@;
        lemma_many_reads_back(g5, evs, p5, "contents"@);
        let s5 = many_starts(g5, p5);
        let p6 = p5 + many_span(g5);
        let k6 = k5 + s5;
        lemma_seq_assoc(k5, s5, kids_from(evs, p6));
        lemma_starts_tagged(g5, evs, p5, "contents"@);
        lemma_tagged_decode(evs, s5, "contents"@);
        lemma_decode_append(evs, k5, s5);
        let g6 = self.responds_to@;
        lemma_many_reads_back(g6, evs, p6, "responds-to"@);
        let s6 = many_starts(g6, p6);
        let p7 = p6 + many_span(g6);
        let k7 = k6 + s6;
        lemma_seq_assoc(k6, s6, kids_from(evs, p7));
        lemma_starts_tagged(g6, evs, p6, "responds-to"@);
        lemma_tagged_decode(evs, s6, "responds-to"@);
        lemma_decode_append(evs, k6, s6);
        let g7 = self.synonyms@;
        lemma_many_reads_back(g7, evs, p7, "synonym"@);
        let s7 = many_starts(g7, p7);
        let p8 = p7 + many_span(g7);
        let k8 = k7 + s7;
        lemma_seq_assoc(k7, s7, kids_from(evs, p8));
        lemma_starts_tagged(g7, evs, p7, "synonym"@);
        lemma_tagged_decode(evs, s7, "synonym"@);
        lemma_decode_append(evs, k7, s7);
        let g8 = self.documentation@;
        lemma_many_reads_back(g8, evs, p8, "documentation"@);
        let s8 = many_starts(g8, p8);
        let p9 = p8 + many_span(g8);
        let k9 = k8 + s8;
        lemma_seq_assoc(k8, s8, kids_from(evs, p9));
        lemma_starts_tagged(g8, evs, p8, "documentation"@);
        lemma_tagged_decode(evs, s8, "documentation"@);
        lemma_decode_append(evs, k8, s8);
        let g9 = self.xrefs@;
        lemma_many_reads_back(g9, evs, p9, "xref"@);
        let s9 = many_starts(g9, p9);
        let p10 = p9 + many_span(g9);
        let k10 = k9 + s9;
        lemma_seq_assoc(k9, s9, kids_from(evs, p10));
        lemma_starts_tagged(g9, evs, p9, "xref"@);
        lemma_tagged_decode(evs, s9, "xref"@);
        lemma_decode_append(evs, k9, s9);
        let n = p10 - p0;
        assert(forall|close: Seq<u8>| #![trigger content_end(evs, p0, close)] content_end(evs, p0, close) == content_end(evs, p0 + n, close));
        lemma_element_tags(evs, i, tag, slots, n, k10);
        lemma_named_extend(evs, k0, s0, "cocoa"@, "cocoa"@);
        lemma_named_extend(evs, k1, s1, "access-group"@, "cocoa"@);
        lemma_named_extend(evs, k2, s2, "type"@, "cocoa"@);
        lemma_named_extend(evs, k3, s3, "property"@, "cocoa"@);
        lemma_named_extend(evs, k4, s4, "element"@, "cocoa"@);
        lemma_named_extend(evs, k5, s5, "contents"@, "cocoa"@);
        lemma_named_extend(evs, k6, s6, "responds-to"@, "cocoa"@);
        lemma_named_extend(evs, k7, s7, "synonym"@, "cocoa"@);
        lemma_named_extend(evs, k8, s8, "documentation"@, "cocoa"@);
        lemma_named_extend(evs, k9, s9, "xref"@, "cocoa"@);
        assert(k0 + s0 =~= s0);
        lemma_named_extend(evs, k0, s0, "cocoa"@, "access-group"@);
        lemma_named_extend(evs, k1, s1, "access-group"@, "access-group"@);
        lemma_named_extend(evs, k2, s2, "type"@, "access-group"@);
        lemma_named_extend(evs, k3, s3, "property"@, "access-group"@);
        lemma_named_extend(evs, k4, s4, "element"@, "access-group"@);
        lemma_named_extend(evs, k5, s5, "contents"@, "access-group"@);
        lemma_named_extend(evs, k6, s6, "responds-to"@, "access-group"@);
        lemma_named_extend(evs, k7, s7, "synonym"@, "access-group"@);
        lemma_named_extend(evs, k8, s8, "documentation"@, "access-group"@);
        lemma_named_extend(evs, k9, s9, "xref"@, "access-group"@);
        assert(k0 + s1 =~= s1);
        lemma_named_extend(evs, k0, s0, "cocoa"@, "type"@);
        lemma_named_extend(evs, k1, s1, "access-group"@, "type"@);
        lemma_named_extend(evs, k2, s2, "type"@, "type"@);
        lemma_named_extend(evs, k3, s3, "property"@, "type"@);
        lemma_named_extend(evs, k4, s4, "element"@, "type"@);
        lemma_named_extend(evs, k5, s5, "contents"@, "type"@);
        lemma_named_extend(evs, k6, s6, "responds-to"@, "type"@);
        lemma_named_extend(evs, k7, s7, "synonym"@, "type"@);
        lemma_named_extend(evs, k8, s8, "documentation"@, "type"@);
        lemma_named_extend(evs, k9, s9, "xref"@, "type"@);
        assert(k0 + s2 =~= s2);
        lemma_named_extend(evs, k0, s0, "cocoa"@, "property"@);
        lemma_named_extend(evs, k1, s1, "access-group"@, "property"@);
        lemma_named_extend(evs, k2, s2, "type"@, "property"@);
        lemma_named_extend(evs, k3, s3, "property"@, "property"@);
        lemma_named_extend(evs, k4, s4, "element"@, "property"@);
        lemma_named_extend(evs, k5, s5, "contents"@, "property"@);
        lemma_named_extend(evs, k6, s6, "responds-to"@, "property"@);
        lemma_named_extend(evs, k7, s7, "synonym"@, "property"@);
        lemma_named_extend(evs, k8, s8, "documentation"@, "property"@);
        lemma_named_extend(evs, k9, s9, "xref"@, "property"@);
        assert(k0 + s3 =~= s3);
        lemma_named_extend(evs, k0, s0, "cocoa"@, "element"@);
        lemma_named_extend(evs, k1, s1, "access-group"@, "element"@);
        lemma_named_extend(evs, k2, s2, "type"@, "element"@);
        lemma_named_extend(evs, k3, s3, "property"@, "element"@);
        lemma_named_extend(evs, k4, s4, "element"@, "element"@);
        lemma_named_extend(evs, k5, s5, "contents"@, "element"@);
        lemma_named_extend(evs, k6, s6, "responds-to"@, "element"@);
        lemma_named_extend(evs, k7, s7, "synonym"@, "element"@);
        lemma_named_extend(evs, k8, s8, "documentation"@, "element"@);
        lemma_named_extend(evs, k9, s9, "xref"@, "element"@);
        assert(k0 + s4 =~= s4);
        lemma_named_extend(evs, k0, s0, "cocoa"@, "contents"@);
        lemma_named_extend(evs, k1, s1, "access-group"@, "contents"@);
        lemma_named_extend(evs, k2, s2, "type"@, "contents"@);
        lemma_named_extend(evs, k3, s3, "property"@, "contents"@);
        lemma_named_extend(evs, k4, s4, "element"@, "contents"@);
        lemma_named_extend(evs, k5, s5, "contents"@, "contents"@);
        lemma_named_extend(evs, k6, s6, "responds-to"@, "contents"@);
        lemma_named_extend(evs, k7, s7, "synonym"@, "contents"@);
        lemma_named_extend(evs, k8, s8, "documentation"@, "contents"@);
        lemma_named_extend(evs, k9, s9, "xref"@, "contents"@);
        assert(k0 + s5 =~= s5);
        lemma_named_extend(evs, k0, s0, "cocoa"@, "responds-to"@);
        lemma_named_extend(evs, k1, s1, "access-group"@, "responds-to"@);
        lemma_named_extend(evs, k2, s2, "type"@, "responds-to"@);
        lemma_named_extend(evs, k3, s3, "property"@, "responds-to"@);
        lemma_named_extend(evs, k4, s4, "element"@, "responds-to"@);
        lemma_named_extend(evs, k5, s5, "contents"@, "responds-to"@);
        lemma_named_extend(evs, k6, s6, "responds-to"@, "responds-to"@);
        lemma_named_extend(evs, k7, s7, "synonym"@, "responds-to"@);
        lemma_named_extend(evs, k8, s8, "documentation"@, "responds-to"@);
        lemma_named_extend(evs, k9, s9, "xref"@, "responds-to"@);
        assert(k0 + s6 =~= s6);
        lemma_named_extend(evs, k0, s0, "cocoa"@, "synonym"@);
        lemma_named_extend(evs, k1, s1, "access-group"@, "synonym"@);
        lemma_named_extend(evs, k2, s2, "type"@, "synonym"@);
        lemma_named_extend(evs, k3, s3, "property"@, "synonym"@);
        lemma_named_extend(evs, k4, s4, "element"@, "synonym"@);
        lemma_named_extend(evs, k5, s5, "contents"@, "synonym"@);
        lemma_named_extend(evs, k6, s6, "responds-to"@, "synonym"@);
        lemma_named_extend(evs, k7, s7, "synonym"@, "synonym"@);
        lemma_named_extend(evs, k8, s8, "documentation"@, "synonym"@);
        lemma_named_extend(evs, k9, s9, "xref"@, "synonym"@);
        assert(k0 + s7 =~= s7);
        lemma_named_extend(evs, k0, s0, "cocoa"@, "documentation"@);
        lemma_named_extend(evs, k1, s1, "access-group"@, "documentation"@);
        lemma_named_extend(evs, k2, s2, "type"@, "documentation"@);
        lemma_named_extend(evs, k3, s3, "property"@, "documentation"@);
        lemma_named_extend(evs, k4, s4, "element"@, "documentation"@);
        lemma_named_extend(evs, k5, s5, "contents"@, "documentation"@);
        lemma_named_extend(evs, k6, s6, "responds-to"@, "documentation"@);
        lemma_named_extend(evs, k7, s7, "synonym"@, "documentation"@);
        lemma_named_extend(evs, k8, s8, "documentation"@, "documentation"@);
        lemma_named_extend(evs, k9, s9, "xref"@, "documentation"@);
        assert(k0 + s8 =~= s8);
        lemma_named_extend(evs, k0, s0, "cocoa"@, "xref"@);
        lemma_named_extend(evs, k1, s1, "access-group"@, "xref"@);
        lemma_named_extend(evs, k2, s2, "type"@, "xref"@);
        lemma_named_extend(evs, k3, s3, "property"@, "xref"@);
        lemma_named_extend(evs, k4, s4, "element"@, "xref"@);
        lemma_named_extend(evs, k5, s5, "contents"@, "xref"@);
        lemma_named_extend(evs, k6, s6, "responds-to"@, "xref"@);
        lemma_named_extend(evs, k7, s7, "synonym"@, "xref"@);
        lemma_named_extend(evs, k8, s8, "documentation"@, "xref"@);
        lemma_named_extend(evs, k9, s9, "xref"@, "xref"@);
        assert(k0 + s9 =~= s9);
        lemma_decode_clean(evs, k10);
        let a = tag_attrs(evs[i]);
        lemma_attrs_read_back(a, slots, 0);
        lemma_attrs_read_back(a, slots, 1);
        lemma_attrs_read_back(a, slots, 2);
        lemma_attrs_read_back(a, slots, 3);
        lemma_attrs_read_back(a, slots, 4);
        lemma_attrs_read_back(a, slots, 5);
        lemma_attrs_read_back(a, slots, 6);
        lemma_flag_reads_back(self.hidden);
    }
}

/// Strict mode knows the name a [`Class`] is written with, and checks none
/// of its attributes against a closed set.
proof fn lemma_class_strict_name()
    ensures
        known_names().contains("class"@),
        closed_rule("class"@) is None,
{
    reveal_strlit("class");
    reveal_strlit("accessor");
    assert("class"@.len() != "accessor"@.len());
    reveal_strlit("access-group");
    assert("class"@.len() != "access-group"@.len());
    reveal_strlit("cocoa");
    assert("class"@[1] != "cocoa"@[1]);
    reveal_strlit("contents");
    assert("class"@.len() != "contents"@.len());
    reveal_strlit("direct-parameter");
    assert("class"@.len() != "direct-parameter"@.len());
    reveal_strlit("element");
    assert("class"@.len() != "element"@.len());
    reveal_strlit("parameter");
    assert("class"@.len() != "parameter"@.len());
    reveal_strlit("property");
    assert("class"@.len() != "property"@.len());
    assert(known_names()[2] == "class"@);
}

impl StrictSafe for Class {
    open spec fn element_name() -> Seq<char> {
        "class"@
    }

    open spec fn canonical(self) -> bool {
        &&& all_canonical(opt_seq(self.cocoa))
        &&& all_canonical(self.access_groups@)
        &&& all_canonical(self.types@)
        &&& all_canonical(self.properties@)
        &&& all_canonical(self.elements@)
        &&& all_canonical(self.contents@)
        &&& all_canonical(self.responds_to@)
        &&& all_canonical(self.synonyms@)
        &&& all_canonical(self.documentation@)
        &&& all_canonical(self.xrefs@)
    }

    proof fn lemma_passes_strict(self, evs: Seq<EventView>, i: int) {
        let slots = class_slots(self);
        lemma_class_names(self);
        lemma_class_strict_name();
        let p0 = i + 1;
        lemma_many_pass_strict(opt_seq(self.cocoa), evs, p0);
        let p1 = p0 + many_span(opt_seq(self.cocoa));
        lemma_many_pass_strict(self.access_groups@, evs, p1);
        let p2 = p1 + many_span(self.access_groups@);
        lemma_many_pass_strict(self.types@, evs, p2);
        let p3 = p2 + many_span(self.types@);
        lemma_many_pass_strict(self.properties@, evs, p3);
        let p4 = p3 + many_span(self.properties@);
        lemma_many_pass_strict(self.elements@, evs, p4);
        let p5 = p4 + many_span(self.elements@);
        lemma_many_pass_strict(self.contents@, evs, p5);
        let p6 = p5 + many_span(self.contents@);
        lemma_many_pass_strict(self.responds_to@, evs, p6);
        let p7 = p6 + many_span(self.responds_to@);
        lemma_many_pass_strict(self.synonyms@, evs, p7);
        let p8 = p7 + many_span(self.synonyms@);
        lemma_many_pass_strict(self.documentation@, evs, p8);
        let p9 = p8 + many_span(self.documentation@);
        lemma_many_pass_strict(self.xrefs@, evs, p9);
        let p10 = p9 + many_span(self.xrefs@);
        lemma_tags_pass_strict(evs, i, "class"@, slots, p10 - p0);
    }
}

/// A `<class-extension>` adds properties, elements, or `responds-to`
/// declarations to a class declared elsewhere.
#[derive(Debug, Clone, Hash, PartialEq, Eq)]
#[non_exhaustive]
pub struct ClassExtension {
    /// `extends="…"` — name of the class being extended (required).
    pub extends: String,
    /// `id="…"` — optional unique identifier.
    pub id: Option<String>,
    /// `title="…"` — display title for the extension (added in OS X 10.10).
    pub title: Option<String>,
    /// Optional human description (`description="…"`).
    pub description: Option<String>,
    /// `hidden="yes"` flag, defaults to `false`.
    pub hidden: bool,
    /// Optional `<cocoa>` implementation hint child.
    pub cocoa: Option<Cocoa>,
    /// Zero or more `<access-group>` entitlement children.
    pub access_groups: Vec<AccessGroup>,
    /// `<property>` children, in document order.
    pub properties: Vec<Property>,
    /// `<element>` children — to-many relationships, in document order.
    pub elements: Vec<Element>,
    /// `<contents>` children — the implied container.
    pub contents: Vec<Contents>,
    /// `<responds-to>` children declaring which verbs the class handles.
    pub responds_to: Vec<RespondsTo>,
    /// `<synonym>` children.
    pub synonyms: Vec<Synonym>,
    /// `<documentation>` children.
    pub documentation: Vec<Documentation>,
    /// `<xref>` children.
    pub xrefs: Vec<Xref>,
}

impl FromXml for ClassExtension {
    open spec fn xml_ok(evs: Seq<EventView>, i: int) -> bool {
        let a = tag_attrs(evs[i]);
        let ks = children(evs, i);
        &&& node_ok(evs, i)
        &&& req_value(a, "extends"@) is Some
        &&& attr_value(a, "id"@) is Ok
        &&& attr_value(a, "title"@) is Ok
        &&& attr_value(a, "description"@) is Ok
        &&& flag_value(a, "hidden"@) is Ok
        &&& one_ok::<Cocoa>(evs, ks, "cocoa"@)
        &&& many_ok::<AccessGroup>(evs, ks, "access-group"@)
        &&& many_ok::<Property>(evs, ks, "property"@)
        &&& many_ok::<Element>(evs, ks, "element"@)
        &&& many_ok::<Contents>(evs, ks, "contents"@)
        &&& many_ok::<RespondsTo>(evs, ks, "responds-to"@)
        &&& many_ok::<Synonym>(evs, ks, "synonym"@)
        &&& many_ok::<Documentation>(evs, ks, "documentation"@)
        &&& many_ok::<Xref>(evs, ks, "xref"@)
    }

    open spec fn xml_rel(self, evs: Seq<EventView>, i: int) -> bool {
        let a = tag_attrs(evs[i]);
        let ks = children(evs, i);
        &&& req_value(a, "extends"@) == Some(self.extends@)
        &&& text_of(self.id) == opt_value(a, "id"@)
        &&& text_of(self.title) == opt_value(a, "title"@)
        &&& text_of(self.description) == opt_value(a, "description"@)
        &&& flag_value(a, "hidden"@) == Ok::<bool, ()>(self.hidden)
        &&& one_rel(self.cocoa, evs, ks, "cocoa"@)
        &&& many_rel(self.access_groups, evs, ks, "access-group"@)
        &&& many_rel(self.properties, evs, ks, "property"@)
        &&& many_rel(self.elements, evs, ks, "element"@)
        &&& many_rel(self.contents, evs, ks, "contents"@)
        &&& many_rel(self.responds_to, evs, ks, "responds-to"@)
        &&& many_rel(self.synonyms, evs, ks, "synonym"@)
        &&& many_rel(self.documentation, evs, ks, "documentation"@)
        &&& many_rel(self.xrefs, evs, ks, "xref"@)
    }

    fn from_xml(evs: &Vec<XmlEvent>, i: usize) -> (r: Result<Self, Error>) {
        let ks = readable_children(evs, i)?;
        let a = attrs_at(evs, i);
        let extends = required(a, "extends")?;
        let id = attribute(a, "id")?;
        let title = attribute(a, "title")?;
        let description = attribute(a, "description")?;
        let hidden = flag(a, "hidden")?;
        let cocoa = at_most_one::<Cocoa>(evs, &ks, "cocoa")?;
        let access_groups = many::<AccessGroup>(evs, &ks, "access-group")?;
        let properties = many::<Property>(evs, &ks, "property")?;
        let elements = many::<Element>(evs, &ks, "element")?;
        let contents = many::<Contents>(evs, &ks, "contents")?;
        let responds_to = many::<RespondsTo>(evs, &ks, "responds-to")?;
        let synonyms = many::<Synonym>(evs, &ks, "synonym")?;
        let documentation = many::<Documentation>(evs, &ks, "documentation")?;
        let xrefs = many::<Xref>(evs, &ks, "xref")?;
        Ok(ClassExtension { extends, id, title, description, hidden, cocoa, access_groups, properties, elements, contents, responds_to, synonyms, documentation, xrefs })
    }
}

impl ToXml for ClassExtension {
    open spec fn xml_text(self, tag: Seq<char>) -> Seq<char> {
        element_xml(
            tag,
            attr_text("extends"@, self.extends@) +
                opt_attr_text("id"@, self.id) +
                opt_attr_text("title"@, self.title) +
                opt_attr_text("description"@, self.description) +
                flag_attr_text("hidden"@, self.hidden),
            one_text(self.cocoa, "cocoa"@) +
                many_text(self.access_groups@, "access-group"@) +
                many_text(self.properties@, "property"@) +
                many_text(self.elements@, "element"@) +
                many_text(self.contents@, "contents"@) +
                many_text(self.responds_to@, "responds-to"@) +
                many_text(self.synonyms@, "synonym"@) +
                many_text(self.documentation@, "documentation"@) +
                many_text(self.xrefs@, "xref"@),
        )
    }

    fn write_xml(&self, tag: &str, out: &mut String) {
        let mut attrs = String::new();
        push_attr(&mut attrs, "extends", self.extends.as_str());
        assert(attrs@ =~= attr_text("extends"@, self.extends@));
        push_opt_attr(&mut attrs, "id", &self.id);
        push_opt_attr(&mut attrs, "title", &self.title);
        push_opt_attr(&mut attrs, "description", &self.description);
        push_flag_attr(&mut attrs, "hidden", self.hidden);
        let mut body = String::new();
        write_one(&self.cocoa, "cocoa", &mut body);
        assert(body@ =~= one_text(self.cocoa, "cocoa"@));
        write_many(&self.access_groups, "access-group", &mut body);
        write_many(&self.properties, "property", &mut body);
        write_many(&self.elements, "element", &mut body);
        write_many(&self.contents, "contents", &mut body);
        write_many(&self.responds_to, "responds-to", &mut body);
        write_many(&self.synonyms, "synonym", &mut body);
        write_many(&self.documentation, "documentation", &mut body);
        write_many(&self.xrefs, "xref", &mut body);
        write_element(out, tag, &attrs, &body);
    }
}

/// The attribute slots written for a [`ClassExtension`].
pub open spec fn class_extension_slots(x: ClassExtension) -> Seq<(Seq<char>, Option<Seq<char>>)> {
    seq![
        req_slot("extends"@, x.extends@),
        opt_slot("id"@, x.id),
        opt_slot("title"@, x.title),
        opt_slot("description"@, x.description),
        flag_slot("hidden"@, x.hidden),
    ]
}

/// The attribute keys of a [`ClassExtension`] are distinct, and so are the names of
/// its child elements.
proof fn lemma_class_extension_names(x: ClassExtension)
    ensures
        keys_distinct(class_extension_slots(x)),
        "cocoa"@ != "access-group"@,
        "cocoa"@ != "property"@,
        "cocoa"@ != "element"@,
        "cocoa"@ != "contents"@,
        "cocoa"@ != "responds-to"@,
        "cocoa"@ != "synonym"@,
        "cocoa"@ != "documentation"@,
        "cocoa"@ != "xref"@,
        "access-group"@ != "property"@,
        "access-group"@ != "element"@,
        "access-group"@ != "contents"@,
        "access-group"@ != "responds-to"@,
        "access-group"@ != "synonym"@,
        "access-group"@ != "documentation"@,
        "access-group"@ != "xref"@,
        "property"@ != "element"@,
        "property"@ != "contents"@,
        "property"@ != "responds-to"@,
        "property"@ != "synonym"@,
        "property"@ != "documentation"@,
        "property"@ != "xref"@,
        "element"@ != "contents"@,
        "element"@ != "responds-to"@,
        "element"@ != "synonym"@,
        "element"@ != "documentation"@,
        "element"@ != "xref"@,
        "contents"@ != "responds-to"@,
        "contents"@ != "synonym"@,
        "contents"@ != "documentation"@,
        "contents"@ != "xref"@,
        "responds-to"@ != "synonym"@,
        "responds-to"@ != "documentation"@,
        "responds-to"@ != "xref"@,
        "synonym"@ != "documentation"@,
        "synonym"@ != "xref"@,
        "documentation"@ != "xref"@,
{
    reveal_strlit("description");
    reveal_strlit("extends");
    reveal_strlit("hidden");
    reveal_strlit("id");
    reveal_strlit("title");
    assert("extends"@.len() != "id"@.len());
    assert("extends"@.len() != "title"@.len());
    assert("extends"@.len() != "description"@.len());
    assert("extends"@.len() != "hidden"@.len());
    assert("id"@.len() != "title"@.len());
    assert("id"@.len() != "description"@.len());
    assert("id"@.len() != "hidden"@.len());
    assert("title"@.len() != "description"@.len());
    assert("title"@.len() != "hidden"@.len());
    assert("description"@.len() != "hidden"@.len());
    reveal_strlit("access-group");
    reveal_strlit("cocoa");
    reveal_strlit("contents");
    reveal_strlit("documentation");
    reveal_strlit("element");
    reveal_strlit("property");
    reveal_strlit("responds-to");
    reveal_strlit("synonym");
    reveal_strlit("xref");
    assert("cocoa"@.len() != "access-group"@.len());
    assert("cocoa"@.len() != "property"@.len());
    assert("cocoa"@.len() != "element"@.len());
    assert("cocoa"@.len() != "contents"@.len());
    assert("cocoa"@.len() != "responds-to"@.len());
    assert("cocoa"@.len() != "synonym"@.len());
    assert("cocoa"@.len() != "documentation"@.len());
    assert("cocoa"@.len() != "xref"@.len());
    assert("access-group"@.len() != "property"@.len());
    assert("access-group"@.len() != "element"@.len());
    assert("access-group"@.len() != "contents"@.len());
    assert("access-group"@.len() != "responds-to"@.len());
    assert("access-group"@.len() != "synonym"@.len());
    assert("access-group"@.len() != "documentation"@.len());
    assert("access-group"@.len() != "xref"@.len());
    assert("property"@.len() != "element"@.len());
    assert("property"@[0] != "contents"@[0]);
    assert("property"@.len() != "responds-to"@.len());
    assert("property"@.len() != "synonym"@.len());
    assert("property"@.len() != "documentation"@.len());
    assert("property"@.len() != "xref"@.len());
    assert("element"@.len() != "contents"@.len());
    assert("element"@.len() != "responds-to"@.len());
    assert("element"@[0] != "synonym"@[0]);
    assert("element"@.len() != "documentation"@.len());
    assert("element"@.len() != "xref"@.len());
    assert("contents"@.len() != "responds-to"@.len());
    assert("contents"@.len() != "synonym"@.len());
    assert("contents"@.len() != "documentation"@.len());
    assert("contents"@.len() != "xref"@.len());
    assert("responds-to"@.len() != "synonym"@.len());
    assert("responds-to"@.len() != "documentation"@.len());
    assert("responds-to"@.len() != "xref"@.len());
    assert("synonym"@.len() != "documentation"@.len());
    assert("synonym"@.len() != "xref"@.len());
    assert("documentation"@.len() != "xref"@.len());
}

impl ReadsBack for ClassExtension {
    open spec fn event_span(self) -> int {
        element_span(many_span(opt_seq(self.cocoa)) + many_span(self.access_groups@) + many_span(self.properties@) + many_span(self.elements@) + many_span(self.contents@) + many_span(self.responds_to@) + many_span(self.synonyms@) + many_span(self.documentation@) + many_span(self.xrefs@))
    }

    open spec fn spelled(self, evs: Seq<EventView>, i: int, tag: Seq<char>) -> bool {
        &&& element_spelled(evs, i, tag, class_extension_slots(self), many_span(opt_seq(self.cocoa)) + many_span(self.access_groups@) + many_span(self.properties@) + many_span(self.elements@) + many_span(self.contents@) + many_span(self.responds_to@) + many_span(self.synonyms@) + many_span(self.documentation@) + many_span(self.xrefs@))
        &&& many_spelled(opt_seq(self.cocoa), evs, i + 1, "cocoa"@)
        &&& many_spelled(self.access_groups@, evs, i + 1 + many_span(opt_seq(self.cocoa)), "access-group"@)
        &&& many_spelled(self.properties@, evs, i + 1 + many_span(opt_seq(self.cocoa)) + many_span(self.access_groups@), "property"@)
        &&& many_spelled(self.elements@, evs, i + 1 + many_span(opt_seq(self.cocoa)) + many_span(self.access_groups@) + many_span(self.properties@), "element"@)
        &&& many_spelled(self.contents@, evs, i + 1 + many_span(opt_seq(self.cocoa)) + many_span(self.access_groups@) + many_span(self.properties@) + many_span(self.elements@), "contents"@)
        &&& many_spelled(self.responds_to@, evs, i + 1 + many_span(opt_seq(self.cocoa)) + many_span(self.access_groups@) + many_span(self.properties@) + many_span(self.elements@) + many_span(self.contents@), "responds-to"@)
        &&& many_spelled(self.synonyms@, evs, i + 1 + many_span(opt_seq(self.cocoa)) + many_span(self.access_groups@) + many_span(self.properties@) + many_span(self.elements@) + many_span(self.contents@) + many_span(self.responds_to@), "synonym"@)
        &&& many_spelled(self.documentation@, evs, i + 1 + many_span(opt_seq(self.cocoa)) + many_span(self.access_groups@) + many_span(self.properties@) + many_span(self.elements@) + many_span(self.contents@) + many_span(self.responds_to@) + many_span(self.synonyms@), "documentation"@)
        &&& many_spelled(self.xrefs@, evs, i + 1 + many_span(opt_seq(self.cocoa)) + many_span(self.access_groups@) + many_span(self.properties@) + many_span(self.elements@) + many_span(self.contents@) + many_span(self.responds_to@) + many_span(self.synonyms@) + many_span(self.documentation@), "xref"@)
    }

    open spec fn writable(self) -> bool {
        &&& all_writable(opt_seq(self.cocoa))
        &&& all_writable(self.access_groups@)
        &&& all_writable(self.properties@)
        &&& all_writable(self.elements@)
        &&& all_writable(self.contents@)
        &&& all_writable(self.responds_to@)
        &&& all_writable(self.synonyms@)
        &&& all_writable(self.documentation@)
        &&& all_writable(self.xrefs@)
    }

    #[verifier::spinoff_prover]
    #[verifier::rlimit(100)]
    proof fn lemma_reads_back(self, evs: Seq<EventView>, i: int, tag: Seq<char>) {
        let slots = class_extension_slots(self);
        lemma_class_extension_names(self);
        let p0 = i + 1;
        let k0: Seq<int> = seq![];
        lemma_decode_empty(evs);
        assert(kids_from(evs, p0) =~= k0 + kids_from(evs, p0));
        let g0 = opt_seq(self.cocoa);
        lemma_many_reads_back(g0, evs, p0, "cocoa"@);
        let s0 = many_starts(g0, p0);
        let p1 = p0 + many_span(g0);
        let k1 = k0 + s0;
        lemma_seq_assoc(k0, s0, kids_from(evs, p1));
        lemma_starts_tagged(g0, evs, p0, "cocoa"@);
        lemma_tagged_decode(evs, s0, "cocoa"@);
        lemma_decode_append(evs, k0, s0);
        let g1 = self.access_groups@;
        lemma_many_reads_back(g1, evs, p1, "access-group"@);
        let s1 = many_starts(g1, p1);
        let p2 = p1 + many_span(g1);
        let k2 = k1 + s1;
        lemma_seq_assoc(k1, s1, kids_from(evs, p2));
        lemma_starts_tagged(g1, evs, p1, "access-group"@);
        lemma_tagged_decode(evs, s1, "access-group"@);
        lemma_decode_append(evs, k1, s1);
        let g2 = self.properties@;
        lemma_many_reads_back(g2, evs, p2, "property"@);
        let s2 = many_starts(g2, p2);
        let p3 = p2 + many_span(g2);
        let k3 = k2 + s2;
        lemma_seq_assoc(k2, s2, kids_from(evs, p3));
        lemma_starts_tagged(g2, evs, p2, "property"@);
        lemma_tagged_decode(evs, s2, "property"@);
        lemma_decode_append(evs, k2, s2);
        let g3 = self.elements@;
        lemma_many_reads_back(g3, evs, p3, "element"@);
        let s3 = many_starts(g3, p3);
        let p4 = p3 + many_span(g3);
        let k4 = k3 + s3;
        lemma_seq_assoc(k3, s3, kids_from(evs, p4));
        lemma_starts_tagged(g3, evs, p3, "element"@);
        lemma_tagged_decode(evs, s3, "element"@);
        lemma_decode_append(evs, k3, s3);
        let g4 = self.contents@;
        lemma_many_reads_back(g4, evs, p4, "contents"@);
        let s4 = many_starts(g4, p4);
        let p5 = p4 + many_span(g4);
        let k5 = k4 + s4;
        lemma_seq_assoc(k4, s4, kids_from(evs, p5));
        lemma_starts_tagged(g4, evs, p4, "contents"@);
        lemma_tagged_decode(evs, s4, "contents"@);
        lemma_decode_append(evs, k4, s4);
        let g5 = self.responds_to@;
        lemma_many_reads_back(g5, evs, p5, "responds-to"@);
        let s5 = many_starts(g5, p5);
        let p6 = p5 + many_span(g5);
        let k6 = k5 + s5;
        lemma_seq_assoc(k5, s5, kids_from(evs, p6));
        lemma_starts_tagged(g5, evs, p5, "responds-to"@);
        lemma_tagged_decode(evs, s5, "responds-to"@);
        lemma_decode_append(evs, k5, s5);
        let g6 = self.synonyms@;
        lemma_many_reads_back(g6, evs, p6, "synonym"@);
        let s6 = many_starts(g6, p6);
        let p7 = p6 + many_span(g6);
        let k7 = k6 + s6;
        lemma_seq_assoc(k6, s6, kids_from(evs, p7));
        lemma_starts_tagged(g6, evs, p6, "synonym"@);
        lemma_tagged_decode(evs, s6, "synonym"@);
        lemma_decode_append(evs, k6, s6);
        let g7 = self.documentation@;
        lemma_many_reads_back(g7, evs, p7, "documentation"@);
        let s7 = many_starts(g7, p7);
        let p8 = p7 + many_span(g7);
        let k8 = k7 + s7;
        lemma_seq_assoc(k7, s7, kids_from(evs, p8));
        lemma_starts_tagged(g7, evs, p7, "documentation"@);
        lemma_tagged_decode(evs, s7, "documentation"@);
        lemma_decode_append(evs, k7, s7);
        let g8 = self.xrefs@;
        lemma_many_reads_back(g8, evs, p8, "xref"@);
        let s8 = many_starts(g8, p8);
        let p9 = p8 + many_span(g8);
        let k9 = k8 + s8;
        lemma_seq_assoc(k8, s8, kids_from(evs, p9));
        lemma_starts_tagged(g8, evs, p8, "xref"@);
        lemma_tagged_decode(evs, s8, "xref"@);
        lemma_decode_append(evs, k8, s8);
        let n = p9 - p0;
        assert(forall|close: Seq<u8>| #![trigger content_end(evs, p0, close)] content_end(evs, p0, close) == content_end(evs, p0 + n, close));
        lemma_element_tags(evs, i, tag, slots, n, k9);
        lemma_named_extend(evs, k0, s0, "cocoa"@, "cocoa"@);
        lemma_named_extend(evs, k1, s1, "access-group"@, "cocoa"@);
        lemma_named_extend(evs, k2, s2, "property"@, "cocoa"@);
        lemma_named_extend(evs, k3, s3, "element"@, "cocoa"@);
        lemma_named_extend(evs, k4, s4, "contents"@, "cocoa"@);
        lemma_named_extend(evs, k5, s5, "responds-to"@, "cocoa"@);
        lemma_named_extend(evs, k6, s6, "synonym"@, "cocoa"@);
        lemma_named_extend(evs, k7, s7, "documentation"@, "cocoa"@);
        lemma_named_extend(evs, k8, s8, "xref"@, "cocoa"@);
        assert(k0 + s0 =~= s0);
        lemma_named_extend(evs, k0, s0, "cocoa"@, "access-group"@);
        lemma_named_extend(evs, k1, s1, "access-group"@, "access-group"@);
        lemma_named_extend(evs, k2, s2, "property"@, "access-group"@);
        lemma_named_extend(evs, k3, s3, "element"@, "access-group"@);
        lemma_named_extend(evs, k4, s4, "contents"@, "access-group"@);
        lemma_named_extend(evs, k5, s5, "responds-to"@, "access-group"@);
        lemma_named_extend(evs, k6, s6, "synonym"@, "access-group"@);
        lemma_named_extend(evs, k7, s7, "documentation"@, "access-group"@);
        lemma_named_extend(evs, k8, s8, "xref"@, "access-group"@);
        assert(k0 + s1 =~= s1);
        lemma_named_extend(evs, k0, s0, "cocoa"@, "property"@);
        lemma_named_extend(evs, k1, s1, "access-group"@, "property"@);
        lemma_named_extend(evs, k2, s2, "property"@, "property"@);
        lemma_named_extend(evs, k3, s3, "element"@, "property"@);
        lemma_named_extend(evs, k4, s4, "contents"@, "property"@);
        lemma_named_extend(evs, k5, s5, "responds-to"@, "property"@);
        lemma_named_extend(evs, k6, s6, "synonym"@, "property"@);
        lemma_named_extend(evs, k7, s7, "documentation"@, "property"@);
        lemma_named_extend(evs, k8, s8, "xref"@, "property"@);
        assert(k0 + s2 =~= s2);
        lemma_named_extend(evs, k0, s0, "cocoa"@, "element"@);
        lemma_named_extend(evs, k1, s1, "access-group"@, "element"@);
        lemma_named_extend(evs, k2, s2, "property"@, "element"@);
        lemma_named_extend(evs, k3, s3, "element"@, "element"@);
        lemma_named_extend(evs, k4, s4, "contents"@, "element"@);
        lemma_named_extend(evs, k5, s5, "responds-to"@, "element"@);
        lemma_named_extend(evs, k6, s6, "synonym"@, "element"@);
        lemma_named_extend(evs, k7, s7, "documentation"@, "element"@);
        lemma_named_extend(evs, k8, s8, "xref"@, "element"@);
        assert(k0 + s3 =~= s3);
        lemma_named_extend(evs, k0, s0, "cocoa"@, "contents"@);
        lemma_named_extend(evs, k1, s1, "access-group"@, "contents"@);
        lemma_named_extend(evs, k2, s2, "property"@, "contents"@);
        lemma_named_extend(evs, k3, s3, "element"@, "contents"@);
        lemma_named_extend(evs, k4, s4, "contents"@, "contents"@);
        lemma_named_extend(evs, k5, s5, "responds-to"@, "contents"@);
        lemma_named_extend(evs, k6, s6, "synonym"@, "contents"@);
        lemma_named_extend(evs, k7, s7, "documentation"@, "contents"@);
        lemma_named_extend(evs, k8, s8, "xref"@, "contents"@);
        assert(k0 + s4 =~= s4);
        lemma_named_extend(evs, k0, s0, "cocoa"@, "responds-to"@);
        lemma_named_extend(evs, k1, s1, "access-group"@, "responds-to"@);
        lemma_named_extend(evs, k2, s2, "property"@, "responds-to"@);
        lemma_named_extend(evs, k3, s3, "element"@, "responds-to"@);
        lemma_named_extend(evs, k4, s4, "contents"@, "responds-to"@);
        lemma_named_extend(evs, k5, s5, "responds-to"@, "responds-to"@);
        lemma_named_extend(evs, k6, s6, "synonym"@, "responds-to"@);
        lemma_named_extend(evs, k7, s7, "documentation"@, "responds-to"@);
        lemma_named_extend(evs, k8, s8, "xref"@, "responds-to"@);
        assert(k0 + s5 =~= s5);
        lemma_named_extend(evs, k0, s0, "cocoa"@, "synonym"@);
        lemma_named_extend(evs, k1, s1, "access-group"@, "synonym"@);
        lemma_named_extend(evs, k2, s2, "property"@, "synonym"@);
        lemma_named_extend(evs, k3, s3, "element"@, "synonym"@);
        lemma_named_extend(evs, k4, s4, "contents"@, "synonym"@);
        lemma_named_extend(evs, k5, s5, "responds-to"@, "synonym"@);
        lemma_named_extend(evs, k6, s6, "synonym"@, "synonym"@);
        lemma_named_extend(evs, k7, s7, "documentation"@, "synonym"@);
        lemma_named_extend(evs, k8, s8, "xref"@, "synonym"@);
        assert(k0 + s6 =~= s6);
        lemma_named_extend(evs, k0, s0, "cocoa"@, "documentation"@);
        lemma_named_extend(evs, k1, s1, "access-group"@, "documentation"@);
        lemma_named_extend(evs, k2, s2, "property"@, "documentation"@);
        lemma_named_extend(evs, k3, s3, "element"@, "documentation"@);
        lemma_named_extend(evs, k4, s4, "contents"@, "documentation"@);
        lemma_named_extend(evs, k5, s5, "responds-to"@, "documentation"@);
        lemma_named_extend(evs, k6, s6, "synonym"@, "documentation"@);
        lemma_named_extend(evs, k7, s7, "documentation"@, "documentation"@);
        lemma_named_extend(evs, k8, s8, "xref"@, "documentation"@);
        assert(k0 + s7 =~= s7);
        lemma_named_extend(evs, k0, s0, "cocoa"@, "xref"@);
        lemma_named_extend(evs, k1, s1, "access-group"@, "xref"@);
        lemma_named_extend(evs, k2, s2, "property"@, "xref"@);
        lemma_named_extend(evs, k3, s3, "element"@, "xref"@);
        lemma_named_extend(evs, k4, s4, "contents"@, "xref"@);
        lemma_named_extend(evs, k5, s5, "responds-to"@, "xref"@);
        lemma_named_extend(evs, k6, s6, "synonym"@, "xref"@);
        lemma_named_extend(evs, k7, s7, "documentation"@, "xref"@);
        lemma_named_extend(evs, k8, s8, "xref"@, "xref"@);
        assert(k0 + s8 =~= s8);
        lemma_decode_clean(evs, k9);
        let a = tag_attrs(evs[i]);
        lemma_attrs_read_back(a, slots, 0);
        lemma_attrs_read_back(a, slots, 1);
        lemma_attrs_read_back(a, slots, 2);
        lemma_attrs_read_back(a, slots, 3);
        lemma_attrs_read_back(a, slots, 4);
        lemma_flag_reads_back(self.hidden);
    }
}

/// Strict mode knows the name a [`ClassExtension`] is written with, and checks none
/// of its attributes against a closed set.
proof fn lemma_class_extension_strict_name()
    ensures
        known_names().contains("class-extension"@),
        closed_rule("class-extension"@) is None,
{
    reveal_strlit("class-extension");
    reveal_strlit("accessor");
    assert("class-extension"@.len() != "accessor"@.len());
    reveal_strlit("access-group");
    assert("class-extension"@.len() != "access-group"@.len());
    reveal_strlit("cocoa");
    assert("class-extension"@.len() != "cocoa"@.len());
    reveal_strlit("contents");
    assert("class-extension"@.len() != "contents"@.len());
    reveal_strlit("direct-parameter");
    assert("class-extension"@.len() != "direct-parameter"@.len());
    reveal_strlit("element");
    assert("class-extension"@.len() != "element"@.len());
    reveal_strlit("parameter");
    assert("class-extension"@.len() != "parameter"@.len());
    reveal_strlit("property");
    assert("class-extension"@.len() != "property"@.len());
    assert(known_names()[3] == "class-extension"@);
}

impl StrictSafe for ClassExtension {
    open spec fn element_name() -> Seq<char> {
        "class-extension"@
    }

    open spec fn canonical(self) -> bool {
        &&& all_canonical(opt_seq(self.cocoa))
        &&& all_canonical(self.access_groups@)
        &&& all_canonical(self.properties@)
        &&& all_canonical(self.elements@)
        &&& all_canonical(self.contents@)
        &&& all_canonical(self.responds_to@)
        &&& all_canonical(self.synonyms@)
        &&& all_canonical(self.documentation@)
        &&& all_canonical(self.xrefs@)
    }

    proof fn lemma_passes_strict(self, evs: Seq<EventView>, i: int) {
        let slots = class_extension_slots(self);
        lemma_class_extension_names(self);
        lemma_class_extension_strict_name();
        let p0 = i + 1;
        lemma_many_pass_strict(opt_seq(self.cocoa), evs, p0);
        let p1 = p0 + many_span(opt_seq(self.cocoa));
        lemma_many_pass_strict(self.access_groups@, evs, p1);
        let p2 = p1 + many_span(self.access_groups@);
        lemma_many_pass_strict(self.properties@, evs, p2);
        let p3 = p2 + many_span(self.properties@);
        lemma_many_pass_strict(self.elements@, evs, p3);
        let p4 = p3 + many_span(self.elements@);
        lemma_many_pass_strict(self.contents@, evs, p4);
        let p5 = p4 + many_span(self.contents@);
        lemma_many_pass_strict(self.responds_to@, evs, p5);
        let p6 = p5 + many_span(self.responds_to@);
        lemma_many_pass_strict(self.synonyms@, evs, p6);
        let p7 = p6 + many_span(self.synonyms@);
        lemma_many_pass_strict(self.documentation@, evs, p7);
        let p8 = p7 + many_span(self.documentation@);
        lemma_many_pass_strict(self.xrefs@, evs, p8);
        let p9 = p8 + many_span(self.xrefs@);
        lemma_tags_pass_strict(evs, i, "class-extension"@, slots, p9 - p0);
    }
}

/// A `<contents>` element — the implied container of a class.
///
/// Most attributes are optional and default per the man page:
/// `name="contents"`, `code="pcnt"`.
#[derive(Debug, Clone, Hash, PartialEq, Eq)]
#[non_exhaustive]
pub struct Contents {
    /// `name="…"` — defaults to `"contents"` per the man page.
    pub name: Option<String>,
    /// `code="…"` — defaults to `"pcnt"` per the man page.
    pub code: Option<String>,
    /// `type="…"` — value type of the container.
    pub ty: Option<String>,
    /// `access="r|w|rw"` — defaults to `rw` per the man page.
    pub access: Option<Access>,
    /// `in-properties="yes|no"` — `None` when absent (the DTD default is `yes`).
    pub in_properties: Option<bool>,
    /// `hidden="yes"` flag, defaults to `false`.
    pub hidden: bool,
    /// Optional human description (`description="…"`).
    pub description: Option<String>,
    /// Optional `<cocoa>` implementation hint child.
    pub cocoa: Option<Cocoa>,
    /// Zero or more `<access-group>` entitlement children.
    pub access_groups: Vec<AccessGroup>,
    /// `<type>` child elements.
    pub types: Vec<TypeRef>,
    /// `<synonym>` children.
    pub synonyms: Vec<Synonym>,
    /// `<documentation>` children.
    pub documentation: Vec<Documentation>,
}

impl FromXml for Contents {
    open spec fn xml_ok(evs: Seq<EventView>, i: int) -> bool {
        let a = tag_attrs(evs[i]);
        let ks = children(evs, i);
        &&& node_ok(evs, i)
        &&& attr_value(a, "name"@) is Ok
        &&& attr_value(a, "code"@) is Ok
        &&& attr_value(a, "type"@) is Ok
        &&& attr_value(a, "access"@) is Ok
        &&& flag_opt_value(a, "in-properties"@) is Ok
        &&& flag_value(a, "hidden"@) is Ok
        &&& attr_value(a, "description"@) is Ok
        &&& one_ok::<Cocoa>(evs, ks, "cocoa"@)
        &&& many_ok::<AccessGroup>(evs, ks, "access-group"@)
        &&& many_ok::<TypeRef>(evs, ks, "type"@)
        &&& many_ok::<Synonym>(evs, ks, "synonym"@)
        &&& many_ok::<Documentation>(evs, ks, "documentation"@)
    }

    open spec fn xml_rel(self, evs: Seq<EventView>, i: int) -> bool {
        let a = tag_attrs(evs[i]);
        let ks = children(evs, i);
        &&& text_of(self.name) == opt_value(a, "name"@)
        &&& text_of(self.code) == opt_value(a, "code"@)
        &&& text_of(self.ty) == opt_value(a, "type"@)
        &&& access_rel(self.access, opt_value(a, "access"@))
        &&& flag_opt_value(a, "in-properties"@) == Ok::<Option<bool>, ()>(self.in_properties)
        &&& flag_value(a, "hidden"@) == Ok::<bool, ()>(self.hidden)
        &&& text_of(self.description) == opt_value(a, "description"@)
        &&& one_rel(self.cocoa, evs, ks, "cocoa"@)
        &&& many_rel(self.access_groups, evs, ks, "access-group"@)
        &&& many_rel(self.types, evs, ks, "type"@)
        &&& many_rel(self.synonyms, evs, ks, "synonym"@)
        &&& many_rel(self.documentation, evs, ks, "documentation"@)
    }

    fn from_xml(evs: &Vec<XmlEvent>, i: usize) -> (r: Result<Self, Error>) {
        let ks = readable_children(evs, i)?;
        let a = attrs_at(evs, i);
        let name = attribute(a, "name")?;
        let code = attribute(a, "code")?;
        let ty = attribute(a, "type")?;
        let access = access_attr(a, "access")?;
        let in_properties = flag_opt(a, "in-properties")?;
        let hidden = flag(a, "hidden")?;
        let description = attribute(a, "description")?;
        let cocoa = at_most_one::<Cocoa>(evs, &ks, "cocoa")?;
        let access_groups = many::<AccessGroup>(evs, &ks, "access-group")?;
        let types = many::<TypeRef>(evs, &ks, "type")?;
        let synonyms = many::<Synonym>(evs, &ks, "synonym")?;
        let documentation = many::<Documentation>(evs, &ks, "documentation")?;
        Ok(Contents { name, code, ty, access, in_properties, hidden, description, cocoa, access_groups, types, synonyms, documentation })
    }
}

impl ToXml for Contents {
    open spec fn xml_text(self, tag: Seq<char>) -> Seq<char> {
        element_xml(
            tag,
            opt_attr_text("name"@, self.name) +
                opt_attr_text("code"@, self.code) +
                opt_attr_text("type"@, self.ty) +
                access_attr_text("access"@, self.access) +
                flag_opt_attr_text("in-properties"@, self.in_properties) +
                flag_attr_text("hidden"@, self.hidden) +
                opt_attr_text("description"@, self.description),
            one_text(self.cocoa, "cocoa"@) +
                many_text(self.access_groups@, "access-group"@) +
                many_text(self.types@, "type"@) +
                many_text(self.synonyms@, "synonym"@) +
                many_text(self.documentation@, "documentation"@),
        )
    }

    fn write_xml(&self, tag: &str, out: &mut String) {
        let mut attrs = String::new();
        push_opt_attr(&mut attrs, "name", &self.name);
        assert(attrs@ =~= opt_attr_text("name"@, self.name));
        push_opt_attr(&mut attrs, "code", &self.code);
        push_opt_attr(&mut attrs, "type", &self.ty);
        push_access_attr(&mut attrs, "access", &self.access);
        push_flag_opt_attr(&mut attrs, "in-properties", self.in_properties);
        push_flag_attr(&mut attrs, "hidden", self.hidden);
        push_opt_attr(&mut attrs, "description", &self.description);
        let mut body = String::new();
        write_one(&self.cocoa, "cocoa", &mut body);
        assert(body@ =~= one_text(self.cocoa, "cocoa"@));
        write_many(&self.access_groups, "access-group", &mut body);
        write_many(&self.types, "type", &mut body);
        write_many(&self.synonyms, "synonym", &mut body);
        write_many(&self.documentation, "documentation", &mut body);
        write_element(out, tag, &attrs, &body);
    }
}

/// The attribute slots written for a [`Contents`].
pub open spec fn contents_slots(x: Contents) -> Seq<(Seq<char>, Option<Seq<char>>)> {
    seq![
        opt_slot("name"@, x.name),
        opt_slot("code"@, x.code),
        opt_slot("type"@, x.ty),
        access_slot("access"@, x.access),
        flag_opt_slot("in-properties"@, x.in_properties),
        flag_slot("hidden"@, x.hidden),
        opt_slot("description"@, x.description),
    ]
}

/// The attribute keys of a [`Contents`] are distinct, and so are the names of
/// its child elements.
proof fn lemma_contents_names(x: Contents)
    ensures
        keys_distinct(contents_slots(x)),
        "cocoa"@ != "access-group"@,
        "cocoa"@ != "type"@,
        "cocoa"@ != "synonym"@,
        "cocoa"@ != "documentation"@,
        "access-group"@ != "type"@,
        "access-group"@ != "synonym"@,
        "access-group"@ != "documentation"@,
        "type"@ != "synonym"@,
        "type"@ != "documentation"@,
        "synonym"@ != "documentation"@,
{
    reveal_strlit("access");
    reveal_strlit("code");
    reveal_strlit("description");
    reveal_strlit("hidden");
    reveal_strlit("in-properties");
    reveal_strlit("name");
    reveal_strlit("type");
    assert("name"@[0] != "code"@[0]);
    assert("name"@[0] != "type"@[0]);
    assert("name"@.len() != "access"@.len());
    assert("name"@.len() != "in-properties"@.len());
    assert("name"@.len() != "hidden"@.len());
    assert("name"@.len() != "description"@.len());
    assert("code"@[0] != "type"@[0]);
    assert("code"@.len() != "access"@.len());
    assert("code"@.len() != "in-properties"@.len());
    assert("code"@.len() != "hidden"@.len());
    assert("code"@.len() != "description"@.len());
    assert("type"@.len() != "access"@.len());
    assert("type"@.len() != "in-properties"@.len());
    assert("type"@.len() != "hidden"@.len());
    assert("type"@.len() != "description"@.len());
    assert("access"@.len() != "in-properties"@.len());
    assert("access"@[0] != "hidden"@[0]);
    assert("access"@.len() != "description"@.len());
    assert("in-properties"@.len() != "hidden"@.len());
    assert("in-properties"@.len() != "description"@.len());
    assert("hidden"@.len() != "description"@.len());
    reveal_strlit("access-group");
    reveal_strlit("cocoa");
    reveal_strlit("documentation");
    reveal_strlit("synonym");
    assert("cocoa"@.len() != "access-group"@.len());
    assert("cocoa"@.len() != "type"@.len());
    assert("cocoa"@.len() != "synonym"@.len());
    assert("cocoa"@.len() != "documentation"@.len());
    assert("access-group"@.len() != "type"@.len());
    assert("access-group"@.len() != "synonym"@.len());
    assert("access-group"@.len() != "documentation"@.len());
    assert("type"@.len() != "synonym"@.len());
    assert("type"@.len() != "documentation"@.len());
    assert("synonym"@.len() != "documentation"@.len());
}

impl ReadsBack for Contents {
    open spec fn event_span(self) -> int {
        element_span(many_span(opt_seq(self.cocoa)) + many_span(self.access_groups@) + many_span(self.types@) + many_span(self.synonyms@) + many_span(self.documentation@))
    }

    open spec fn spelled(self, evs: Seq<EventView>, i: int, tag: Seq<char>) -> bool {
        &&& element_spelled(evs, i, tag, contents_slots(self), many_span(opt_seq(self.cocoa)) + many_span(self.access_groups@) + many_span(self.types@) + many_span(self.synonyms@) + many_span(self.documentation@))
        &&& many_spelled(opt_seq(self.cocoa), evs, i + 1, "cocoa"@)
        &&& many_spelled(self.access_groups@, evs, i + 1 + many_span(opt_seq(self.cocoa)), "access-group"@)
        &&& many_spelled(self.types@, evs, i + 1 + many_span(opt_seq(self.cocoa)) + many_span(self.access_groups@), "type"@)
        &&& many_spelled(self.synonyms@, evs, i + 1 + many_span(opt_seq(self.cocoa)) + many_span(self.access_groups@) + many_span(self.types@), "synonym"@)
        &&& many_spelled(self.documentation@, evs, i + 1 + many_span(opt_seq(self.cocoa)) + many_span(self.access_groups@) + many_span(self.types@) + many_span(self.synonyms@), "documentation"@)
    }

    open spec fn writable(self) -> bool {
        &&& access_writable(self.access)
        &&& all_writable(opt_seq(self.cocoa))
        &&& all_writable(self.access_groups@)
        &&& all_writable(self.types@)
        &&& all_writable(self.synonyms@)
        &&& all_writable(self.documentation@)
    }

    #[verifier::spinoff_prover]
    #[verifier::rlimit(100)]
    proof fn lemma_reads_back(self, evs: Seq<EventView>, i: int, tag: Seq<char>) {
        let slots = contents_slots(self);
        lemma_contents_names(self);
        let p0 = i + 1;
        let k0: Seq<int> = seq![];
        lemma_decode_empty(evs);
        assert(kids_from(evs, p0) =~= k0 + kids_from(evs, p0));
        let g0 = opt_seq(self.cocoa);
        lemma_many_reads_back(g0, evs, p0, "cocoa"@);
        let s0 = many_starts(g0, p0);
        let p1 = p0 + many_span(g0);
        let k1 = k0 + s0;
        lemma_seq_assoc(k0, s0, kids_from(evs, p1));
        lemma_starts_tagged(g0, evs, p0, "cocoa"@);
        lemma_tagged_decode(evs, s0, "cocoa"@);
        lemma_decode_append(evs, k0, s0);
        let g1 = self.access_groups@;
        lemma_many_reads_back(g1, evs, p1, "access-group"@);
        let s1 = many_starts(g1, p1);
        let p2 = p1 + many_span(g1);
        let k2 = k1 + s1;
        lemma_seq_assoc(k1, s1, kids_from(evs, p2));
        lemma_starts_tagged(g1, evs, p1, "access-group"@);
        lemma_tagged_decode(evs, s1, "access-group"@);
        lemma_decode_append(evs, k1, s1);
        let g2 = self.types@;
        lemma_many_reads_back(g2, evs, p2, "type"@);
        let s2 = many_starts(g2, p2);
        let p3 = p2 + many_span(g2);
        let k3 = k2 + s2;
        lemma_seq_assoc(k2, s2, kids_from(evs, p3));
        lemma_starts_tagged(g2, evs, p2, "type"@);
        lemma_tagged_decode(evs, s2, "type"@);
        lemma_decode_append(evs, k2, s2);
        let g3 = self.synonyms@;
        lemma_many_reads_back(g3, evs, p3, "synonym"@);
        let s3 = many_starts(g3, p3);
        let p4 = p3 + many_span(g3);
        let k4 = k3 + s3;
        lemma_seq_assoc(k3, s3, kids_from(evs, p4));
        lemma_starts_tagged(g3, evs, p3, "synonym"@);
        lemma_tagged_decode(evs, s3, "synonym"@);
        lemma_decode_append(evs, k3, s3);
        let g4 = self.documentation@;
        lemma_many_reads_back(g4, evs, p4, "documentation"@);
        let s4 = many_starts(g4, p4);
        let p5 = p4 + many_span(g4);
        let k5 = k4 + s4;
        lemma_seq_assoc(k4, s4, kids_from(evs, p5));
        lemma_starts_tagged(g4, evs, p4, "documentation"@);
        lemma_tagged_decode(evs, s4, "documentation"@);
        lemma_decode_append(evs, k4, s4);
        let n = p5 - p0;
        assert(forall|close: Seq<u8>| #![trigger content_end(evs, p0, close)] content_end(evs, p0, close) == content_end(evs, p0 + n, close));
        lemma_element_tags(evs, i, tag, slots, n, k5);
        lemma_named_extend(evs, k0, s0, "cocoa"@, "cocoa"@);
        lemma_named_extend(evs, k1, s1, "access-group"@, "cocoa"@);
        lemma_named_extend(evs, k2, s2, "type"@, "cocoa"@);
        lemma_named_extend(evs, k3, s3, "synonym"@, "cocoa"@);
        lemma_named_extend(evs, k4, s4, "documentation"@, "cocoa"@);
        assert(k0 + s0 =~= s0);
        lemma_named_extend(evs, k0, s0, "cocoa"@, "access-group"@);
        lemma_named_extend(evs, k1, s1, "access-group"@, "access-group"@);
        lemma_named_extend(evs, k2, s2, "type"@, "access-group"@);
        lemma_named_extend(evs, k3, s3, "synonym"@, "access-group"@);
        lemma_named_extend(evs, k4, s4, "documentation"@, "access-group"@);
        assert(k0 + s1 =~= s1);
        lemma_named_extend(evs, k0, s0, "cocoa"@, "type"@);
        lemma_named_extend(evs, k1, s1, "access-group"@, "type"@);
        lemma_named_extend(evs, k2, s2, "type"@, "type"@);
        lemma_named_extend(evs, k3, s3, "synonym"@, "type"@);
        lemma_named_extend(evs, k4, s4, "documentation"@, "type"@);
        assert(k0 + s2 =~= s2);
        lemma_named_extend(evs, k0, s0, "cocoa"@, "synonym"@);
        lemma_named_extend(evs, k1, s1, "access-group"@, "synonym"@);
        lemma_named_extend(evs, k2, s2, "type"@, "synonym"@);
        lemma_named_extend(evs, k3, s3, "synonym"@, "synonym"@);
        lemma_named_extend(evs, k4, s4, "documentation"@, "synonym"@);
        assert(k0 + s3 =~= s3);
        lemma_named_extend(evs, k0, s0, "cocoa"@, "documentation"@);
        lemma_named_extend(evs, k1, s1, "access-group"@, "documentation"@);
        lemma_named_extend(evs, k2, s2, "type"@, "documentation"@);
        lemma_named_extend(evs, k3, s3, "synonym"@, "documentation"@);
        lemma_named_extend(evs, k4, s4, "documentation"@, "documentation"@);
        assert(k0 + s4 =~= s4);
        lemma_decode_clean(evs, k5);
        let a = tag_attrs(evs[i]);
        lemma_attrs_read_back(a, slots, 0);
        lemma_attrs_read_back(a, slots, 1);
        lemma_attrs_read_back(a, slots, 2);
        lemma_attrs_read_back(a, slots, 3);
        lemma_attrs_read_back(a, slots, 4);
        lemma_flag_opt_reads_back(self.in_properties);
        lemma_attrs_read_back(a, slots, 5);
        lemma_flag_reads_back(self.hidden);
        lemma_attrs_read_back(a, slots, 6);
    }
}

/// Strict mode knows the name a [`Contents`] is written with, and checks its
/// `access` attribute against a closed set.
proof fn lemma_contents_strict_name()
    ensures
        known_names().contains("contents"@),
        closed_rule("contents"@) == Some(("access"@, rw_values())),
{
    reveal_strlit("contents");
    reveal_strlit("accessor");
    assert("contents"@[0] != "accessor"@[0]);
    reveal_strlit("access-group");
    assert("contents"@.len() != "access-group"@.len());
    reveal_strlit("cocoa");
    assert("contents"@.len() != "cocoa"@.len());
    assert(known_names()[6] == "contents"@);
}

impl StrictSafe for Contents {
    open spec fn element_name() -> Seq<char> {
        "contents"@
    }

    open spec fn canonical(self) -> bool {
        &&& access_canonical(self.access)
        &&& all_canonical(opt_seq(self.cocoa))
        &&& all_canonical(self.access_groups@)
        &&& all_canonical(self.types@)
        &&& all_canonical(self.synonyms@)
        &&& all_canonical(self.documentation@)
    }

    proof fn lemma_passes_strict(self, evs: Seq<EventView>, i: int) {
        let slots = contents_slots(self);
        lemma_contents_names(self);
        lemma_contents_strict_name();
        lemma_access_allowed(self.access);
        lemma_closed_attribute_passes(tag_attrs(evs[i]), slots, 3, rw_values());
        let p0 = i + 1;
        lemma_many_pass_strict(opt_seq(self.cocoa), evs, p0);
        let p1 = p0 + many_span(opt_seq(self.cocoa));
        lemma_many_pass_strict(self.access_groups@, evs, p1);
        let p2 = p1 + many_span(self.access_groups@);
        lemma_many_pass_strict(self.types@, evs, p2);
        let p3 = p2 + many_span(self.types@);
        lemma_many_pass_strict(self.synonyms@, evs, p3);
        let p4 = p3 + many_span(self.synonyms@);
        lemma_many_pass_strict(self.documentation@, evs, p4);
        let p5 = p4 + many_span(self.documentation@);
        lemma_tags_pass_strict(evs, i, "contents"@, slots, p5 - p0);
    }
}

/// An `<element>` — a to-many relationship from a class to instances of
/// another class.
#[derive(Debug, Clone, Hash, PartialEq, Eq)]
#[non_exhaustive]
pub struct Element {
    /// `type="…"` — class name of the contained objects (required).
    pub ty: String,
    /// `access="r|w|rw"` — defaults to `rw` per the man page.
    pub access: Option<Access>,
    /// `hidden="yes"` flag, defaults to `false`.
    pub hidden: bool,
    /// Optional human description (`description="…"`).
    pub description: Option<String>,
    /// Optional `<cocoa>` implementation hint child.
    pub cocoa: Option<Cocoa>,
    /// Zero or more `<access-group>` entitlement children.
    pub access_groups: Vec<AccessGroup>,
    /// `<accessor>` children declaring supported access styles.
    pub accessors: Vec<Accessor>,
    /// `<documentation>` children.
    pub documentation: Vec<Documentation>,
}

impl FromXml for Element {
    open spec fn xml_ok(evs: Seq<EventView>, i: int) -> bool {
        let a = tag_attrs(evs[i]);
        let ks = children(evs, i);
        &&& node_ok(evs, i)
        &&& req_value(a, "type"@) is Some
        &&& attr_value(a, "access"@) is Ok
        &&& flag_value(a, "hidden"@) is Ok
        &&& attr_value(a, "description"@) is Ok
        &&& one_ok::<Cocoa>(evs, ks, "cocoa"@)
        &&& many_ok::<AccessGroup>(evs, ks, "access-group"@)
        &&& many_ok::<Accessor>(evs, ks, "accessor"@)
        &&& many_ok::<Documentation>(evs, ks, "documentation"@)
    }

    open spec fn xml_rel(self, evs: Seq<EventView>, i: int) -> bool {
        let a = tag_attrs(evs[i]);
        let ks = children(evs, i);
        &&& req_value(a, "type"@) == Some(self.ty@)
        &&& access_rel(self.access, opt_value(a, "access"@))
        &&& flag_value(a, "hidden"@) == Ok::<bool, ()>(self.hidden)
        &&& text_of(self.description) == opt_value(a, "description"@)
        &&& one_rel(self.cocoa, evs, ks, "cocoa"@)
        &&& many_rel(self.access_groups, evs, ks, "access-group"@)
        &&& many_rel(self.accessors, evs, ks, "accessor"@)
        &&& many_rel(self.documentation, evs, ks, "documentation"@)
    }

    fn from_xml(evs: &Vec<XmlEvent>, i: usize) -> (r: Result<Self, Error>) {
        let ks = readable_children(evs, i)?;
        let a = attrs_at(evs, i);
        let ty = required(a, "type")?;
        let access = access_attr(a, "access")?;
        let hidden = flag(a, "hidden")?;
        let description = attribute(a, "description")?;
        let cocoa = at_most_one::<Cocoa>(evs, &ks, "cocoa")?;
        let access_groups = many::<AccessGroup>(evs, &ks, "access-group")?;
        let accessors = many::<Accessor>(evs, &ks, "accessor")?;
        let documentation = many::<Documentation>(evs, &ks, "documentation")?;
        Ok(Element { ty, access, hidden, description, cocoa, access_groups, accessors, documentation })
    }
}

impl ToXml for Element {
    open spec fn xml_text(self, tag: Seq<char>) -> Seq<char> {
        element_xml(
            tag,
            attr_text("type"@, self.ty@) +
                access_attr_text("access"@, self.access) +
                flag_attr_text("hidden"@, self.hidden) +
                opt_attr_text("description"@, self.description),
            one_text(self.cocoa, "cocoa"@) +
                many_text(self.access_groups@, "access-group"@) +
                many_text(self.accessors@, "accessor"@) +
                many_text(self.documentation@, "documentation"@),
        )
    }

    fn write_xml(&self, tag: &str, out: &mut String) {
        let mut attrs = String::new();
        push_attr(&mut attrs, "type", self.ty.as_str());
        assert(attrs@ =~= attr_text("type"@, self.ty@));
        push_access_attr(&mut attrs, "access", &self.access);
        push_flag_attr(&mut attrs, "hidden", self.hidden);
        push_opt_attr(&mut attrs, "description", &self.description);
        let mut body = String::new();
        write_one(&self.cocoa, "cocoa", &mut body);
        assert(body@ =~= one_text(self.cocoa, "cocoa"@));
        write_many(&self.access_groups, "access-group", &mut body);
        write_many(&self.accessors, "accessor", &mut body);
        write_many(&self.documentation, "documentation", &mut body);
        write_element(out, tag, &attrs, &body);
    }
}

/// The attribute slots written for a [`Element`].
pub open spec fn element_slots(x: Element) -> Seq<(Seq<char>, Option<Seq<char>>)> {
    seq![
        req_slot("type"@, x.ty@),
        access_slot("access"@, x.access),
        flag_slot("hidden"@, x.hidden),
        opt_slot("description"@, x.description),
    ]
}

/// The attribute keys of a [`Element`] are distinct, and so are the names of
/// its child elements.
proof fn lemma_element_names(x: Element)
    ensures
        keys_distinct(element_slots(x)),
        "cocoa"@ != "access-group"@,
        "cocoa"@ != "accessor"@,
        "cocoa"@ != "documentation"@,
        "access-group"@ != "accessor"@,
        "access-group"@ != "documentation"@,
        "accessor"@ != "documentation"@,
{
    reveal_strlit("access");
    reveal_strlit("description");
    reveal_strlit("hidden");
    reveal_strlit("type");
    assert("type"@.len() != "access"@.len());
    assert("type"@.len() != "hidden"@.len());
    assert("type"@.len() != "description"@.len());
    assert("access"@[0] != "hidden"@[0]);
    assert("access"@.len() != "description"@.len());
    assert("hidden"@.len() != "description"@.len());
    reveal_strlit("access-group");
    reveal_strlit("accessor");
    reveal_strlit("cocoa");
    reveal_strlit("documentation");
    assert("cocoa"@.len() != "access-group"@.len());
    assert("cocoa"@.len() != "accessor"@.len());
    assert("cocoa"@.len() != "documentation"@.len());
    assert("access-group"@.len() != "accessor"@.len());
    assert("access-group"@.len() != "documentation"@.len());
    assert("accessor"@.len() != "documentation"@.len());
}

impl ReadsBack for Element {
    open spec fn event_span(self) -> int {
        element_span(many_span(opt_seq(self.cocoa)) + many_span(self.access_groups@) + many_span(self.accessors@) + many_span(self.documentation@))
    }

    open spec fn spelled(self, evs: Seq<EventView>, i: int, tag: Seq<char>) -> bool {
        &&& element_spelled(evs, i, tag, element_slots(self), many_span(opt_seq(self.cocoa)) + many_span(self.access_groups@) + many_span(self.accessors@) + many_span(self.documentation@))
        &&& many_spelled(opt_seq(self.cocoa), evs, i + 1, "cocoa"@)
        &&& many_spelled(self.access_groups@, evs, i + 1 + many_span(opt_seq(self.cocoa)), "access-group"@)
        &&& many_spelled(self.accessors@, evs, i + 1 + many_span(opt_seq(self.cocoa)) + many_span(self.access_groups@), "accessor"@)
        &&& many_spelled(self.documentation@, evs, i + 1 + many_span(opt_seq(self.cocoa)) + many_span(self.access_groups@) + many_span(self.accessors@), "documentation"@)
    }

    open spec fn writable(self) -> bool {
        &&& access_writable(self.access)
        &&& all_writable(opt_seq(self.cocoa))
        &&& all_writable(self.access_groups@)
        &&& all_writable(self.accessors@)
        &&& all_writable(self.documentation@)
    }

    #[verifier::spinoff_prover]
    #[verifier::rlimit(100)]
    proof fn lemma_reads_back(self, evs: Seq<EventView>, i: int, tag: Seq<char>) {
        let slots = element_slots(self);
        lemma_element_names(self);
        let p0 = i + 1;
        let k0: Seq<int> = seq![];
        lemma_decode_empty(evs);
        assert(kids_from(evs, p0) =~= k0 + kids_from(evs, p0));
        let g0 = opt_seq(self.cocoa);
        lemma_many_reads_back(g0, evs, p0, "cocoa"@);
        let s0 = many_starts(g0, p0);
        let p1 = p0 + many_span(g0);
        let k1 = k0 + s0;
        lemma_seq_assoc(k0, s0, kids_from(evs, p1));
        lemma_starts_tagged(g0, evs, p0, "cocoa"@);
        lemma_tagged_decode(evs, s0, "cocoa"@);
        lemma_decode_append(evs, k0, s0);
        let g1 = self.access_groups@;
        lemma_many_reads_back(g1, evs, p1, "access-group"@);
        let s1 = many_starts(g1, p1);
        let p2 = p1 + many_span(g1);
        let k2 = k1 + s1;
        lemma_seq_assoc(k1, s1, kids_from(evs, p2));
        lemma_starts_tagged(g1, evs, p1, "access-group"@);
        lemma_tagged_decode(evs, s1, "access-group"@);
        lemma_decode_append(evs, k1, s1);
        let g2 = self.accessors@;
        lemma_many_reads_back(g2, evs, p2, "accessor"@);
        let s2 = many_starts(g2, p2);
        let p3 = p2 + many_span(g2);
        let k3 = k2 + s2;
        lemma_seq_assoc(k2, s2, kids_from(evs, p3));
        lemma_starts_tagged(g2, evs, p2, "accessor"@);
        lemma_tagged_decode(evs, s2, "accessor"@);
        lemma_decode_append(evs, k2, s2);
        let g3 = self.documentation@;
        lemma_many_reads_back(g3, evs, p3, "documentation"@);
        let s3 = many_starts(g3, p3);
        let p4 = p3 + many_span(g3);
        let k4 = k3 + s3;
        lemma_seq_assoc(k3, s3, kids_from(evs, p4));
        lemma_starts_tagged(g3, evs, p3, "documentation"@);
        lemma_tagged_decode(evs, s3, "documentation"@);
        lemma_decode_append(evs, k3, s3);
        let n = p4 - p0;
        assert(forall|close: Seq<u8>| #![trigger content_end(evs, p0, close)] content_end(evs, p0, close) == content_end(evs, p0 + n, close));
        lemma_element_tags(evs, i, tag, slots, n, k4);
        lemma_named_extend(evs, k0, s0, "cocoa"@, "cocoa"@);
        lemma_named_extend(evs, k1, s1, "access-group"@, "cocoa"@);
        lemma_named_extend(evs, k2, s2, "accessor"@, "cocoa"@);
        lemma_named_extend(evs, k3, s3, "documentation"@, "cocoa"@);
        assert(k0 + s0 =~= s0);
        lemma_named_extend(evs, k0, s0, "cocoa"@, "access-group"@);
        lemma_named_extend(evs, k1, s1, "access-group"@, "access-group"@);
        lemma_named_extend(evs, k2, s2, "accessor"@, "access-group"@);
        lemma_named_extend(evs, k3, s3, "documentation"@, "access-group"@);
        assert(k0 + s1 =~= s1);
        lemma_named_extend(evs, k0, s0, "cocoa"@, "accessor"@);
        lemma_named_extend(evs, k1, s1, "access-group"@, "accessor"@);
        lemma_named_extend(evs, k2, s2, "accessor"@, "accessor"@);
        lemma_named_extend(evs, k3, s3, "documentation"@, "accessor"@);
        assert(k0 + s2 =~= s2);
        lemma_named_extend(evs, k0, s0, "cocoa"@, "documentation"@);
        lemma_named_extend(evs, k1, s1, "access-group"@, "documentation"@);
        lemma_named_extend(evs, k2, s2, "accessor"@, "documentation"@);
        lemma_named_extend(evs, k3, s3, "documentation"@, "documentation"@);
        assert(k0 + s3 =~= s3);
        lemma_decode_clean(evs, k4);
        let a = tag_attrs(evs[i]);
        lemma_attrs_read_back(a, slots, 0);
        lemma_attrs_read_back(a, slots, 1);
        lemma_attrs_read_back(a, slots, 2);
        lemma_flag_reads_back(self.hidden);
        lemma_attrs_read_back(a, slots, 3);
    }
}

/// Strict mode knows the name a [`Element`] is written with, and checks its
/// `access` attribute against a closed set.
proof fn lemma_element_strict_name()
    ensures
        known_names().contains("element"@),
        closed_rule("element"@) == Some(("access"@, rw_values())),
{
    reveal_strlit("element");
    reveal_strlit("accessor");
    assert("element"@.len() != "accessor"@.len());
    reveal_strlit("access-group");
    assert("element"@.len() != "access-group"@.len());
    reveal_strlit("cocoa");
    assert("element"@.len() != "cocoa"@.len());
    reveal_strlit("contents");
    assert("element"@.len() != "contents"@.len());
    reveal_strlit("direct-parameter");
    assert("element"@.len() != "direct-parameter"@.len());
    assert(known_names()[10] == "element"@);
}

impl StrictSafe for Element {
    open spec fn element_name() -> Seq<char> {
        "element"@
    }

    open spec fn canonical(self) -> bool {
        &&& access_canonical(self.access)
        &&& all_canonical(opt_seq(self.cocoa))
        &&& all_canonical(self.access_groups@)
        &&& all_canonical(self.accessors@)
        &&& all_canonical(self.documentation@)
    }

    proof fn lemma_passes_strict(self, evs: Seq<EventView>, i: int) {
        let slots = element_slots(self);
        lemma_element_names(self);
        lemma_element_strict_name();
        lemma_access_allowed(self.access);
        lemma_closed_attribute_passes(tag_attrs(evs[i]), slots, 1, rw_values());
        let p0 = i + 1;
        lemma_many_pass_strict(opt_seq(self.cocoa), evs, p0);
        let p1 = p0 + many_span(opt_seq(self.cocoa));
        lemma_many_pass_strict(self.access_groups@, evs, p1);
        let p2 = p1 + many_span(self.access_groups@);
        lemma_many_pass_strict(self.accessors@, evs, p2);
        let p3 = p2 + many_span(self.accessors@);
        lemma_many_pass_strict(self.documentation@, evs, p3);
        let p4 = p3 + many_span(self.documentation@);
        lemma_tags_pass_strict(evs, i, "element"@, slots, p4 - p0);
    }
}

/// An `<accessor>` describing how scripts may reach an element.
#[derive(Debug, Clone, Hash, PartialEq, Eq)]
#[non_exhaustive]
pub struct Accessor {
    /// `style="…"` — one of the six DTD-declared `accessor-type` values.
    pub style: AccessorStyle,
}

impl FromXml for Accessor {
    open spec fn xml_ok(evs: Seq<EventView>, i: int) -> bool {
        let a = tag_attrs(evs[i]);
        &&& node_ok(evs, i)
        &&& req_value(a, "style"@) is Some
    }

    open spec fn xml_rel(self, evs: Seq<EventView>, i: int) -> bool {
        let a = tag_attrs(evs[i]);
        &&& style_rel(self.style, req_value(a, "style"@))
    }

    fn from_xml(evs: &Vec<XmlEvent>, i: usize) -> (r: Result<Self, Error>) {
        readable_children(evs, i)?;
        let a = attrs_at(evs, i);
        let style = AccessorStyle::from_dtd(required(a, "style")?.as_str());
        Ok(Accessor { style })
    }
}

impl ToXml for Accessor {
    open spec fn xml_text(self, tag: Seq<char>) -> Seq<char> {
        element_xml(
            tag,
            attr_text("style"@, self.style.dtd_text()),
            Seq::<char>::empty(),
        )
    }

    fn write_xml(&self, tag: &str, out: &mut String) {
        let mut attrs = String::new();
        push_attr(&mut attrs, "style", self.style.as_str());
        assert(attrs@ =~= attr_text("style"@, self.style.dtd_text()));
        let body = String::new();
        write_element(out, tag, &attrs, &body);
    }
}

/// The attribute slots written for a [`Accessor`].
pub open spec fn accessor_slots(x: Accessor) -> Seq<(Seq<char>, Option<Seq<char>>)> {
    seq![
        req_slot("style"@, x.style.dtd_text()),
    ]
}

/// The attribute keys of a [`Accessor`] are distinct, and so are the names of
/// its child elements.
proof fn lemma_accessor_names(x: Accessor)
    ensures
        keys_distinct(accessor_slots(x)),
{
}

impl ReadsBack for Accessor {
    open spec fn event_span(self) -> int {
        element_span(0)
    }

    open spec fn spelled(self, evs: Seq<EventView>, i: int, tag: Seq<char>) -> bool {
        &&& element_spelled(evs, i, tag, accessor_slots(self), 0)
    }

    open spec fn writable(self) -> bool {
        &&& !(self.style is Other && AccessorStyle::is_canonical(self.style.dtd_text()))
    }

    #[verifier::spinoff_prover]
    #[verifier::rlimit(100)]
    proof fn lemma_reads_back(self, evs: Seq<EventView>, i: int, tag: Seq<char>) {
        let slots = accessor_slots(self);
        lemma_accessor_names(self);
        let p0 = i + 1;
        let k0: Seq<int> = seq![];
        lemma_decode_empty(evs);
        assert(kids_from(evs, p0) =~= k0 + kids_from(evs, p0));
        let n = p0 - p0;
        assert(forall|close: Seq<u8>| #![trigger content_end(evs, p0, close)] content_end(evs, p0, close) == content_end(evs, p0 + n, close));
        lemma_element_tags(evs, i, tag, slots, n, k0);
        lemma_decode_clean(evs, k0);
        let a = tag_attrs(evs[i]);
        lemma_attrs_read_back(a, slots, 0);
    }
}

/// Strict mode knows the name a [`Accessor`] is written with, and checks its
/// `style` attribute against a closed set.
proof fn lemma_accessor_strict_name()
    ensures
        known_names().contains("accessor"@),
        closed_rule("accessor"@) == Some(("style"@, seq!["index"@, "name"@, "id"@, "range"@, "relative"@, "test"@])),
{
    reveal_strlit("accessor");
    assert(known_names()[1] == "accessor"@);
}

impl StrictSafe for Accessor {
    open spec fn element_name() -> Seq<char> {
        "accessor"@
    }

    open spec fn canonical(self) -> bool {
        &&& !(self.style is Other)
    }

    proof fn lemma_passes_strict(self, evs: Seq<EventView>, i: int) {
        let slots = accessor_slots(self);
        lemma_accessor_names(self);
        lemma_accessor_strict_name();
        lemma_style_allowed(self.style);
        lemma_closed_attribute_passes(tag_attrs(evs[i]), slots, 0, seq!["index"@, "name"@, "id"@, "range"@, "relative"@, "test"@]);
        let p0 = i + 1;
        lemma_tags_pass_strict(evs, i, "accessor"@, slots, p0 - p0);
    }
}

/// A `<responds-to>` declaration mapping a verb to a class's
/// implementation.
#[derive(Debug, Clone, Hash, PartialEq, Eq)]
#[non_exhaustive]
pub struct RespondsTo {
    /// `command="…"` — the verb name or id this class handles (since OS X
    /// 10.5; older sdefs use `name`).
    pub command: Option<String>,
    /// `hidden="yes"` flag, defaults to `false`.
    pub hidden: bool,
    /// `name="…"` — pre-OS X 10.5 alias for `command`.
    pub name: Option<String>,
    /// Optional `<cocoa>` implementation hint child.
    pub cocoa: Option<Cocoa>,
    /// Zero or more `<access-group>` entitlement children.
    pub access_groups: Vec<AccessGroup>,
}

impl FromXml for RespondsTo {
    open spec fn xml_ok(evs: Seq<EventView>, i: int) -> bool {
        let a = tag_attrs(evs[i]);
        let ks = children(evs, i);
        &&& node_ok(evs, i)
        &&& attr_value(a, "command"@) is Ok
        &&& flag_value(a, "hidden"@) is Ok
        &&& attr_value(a, "name"@) is Ok
        &&& one_ok::<Cocoa>(evs, ks, "cocoa"@)
        &&& many_ok::<AccessGroup>(evs, ks, "access-group"@)
    }

    open spec fn xml_rel(self, evs: Seq<EventView>, i: int) -> bool {
        let a = tag_attrs(evs[i]);
        let ks = children(evs, i);
        &&& text_of(self.command) == opt_value(a, "command"@)
        &&& flag_value(a, "hidden"@) == Ok::<bool, ()>(self.hidden)
        &&& text_of(self.name) == opt_value(a, "name"@)
        &&& one_rel(self.cocoa, evs, ks, "cocoa"@)
        &&& many_rel(self.access_groups, evs, ks, "access-group"@)
    }

    fn from_xml(evs: &Vec<XmlEvent>, i: usize) -> (r: Result<Self, Error>) {
        let ks = readable_children(evs, i)?;
        let a = attrs_at(evs, i);
        let command = attribute(a, "command")?;
        let hidden = flag(a, "hidden")?;
        let name = attribute(a, "name")?;
        let cocoa = at_most_one::<Cocoa>(evs, &ks, "cocoa")?;
        let access_groups = many::<AccessGroup>(evs, &ks, "access-group")?;
        Ok(RespondsTo { command, hidden, name, cocoa, access_groups })
    }
}

impl ToXml for RespondsTo {
    open spec fn xml_text(self, tag: Seq<char>) -> Seq<char> {
        element_xml(
            tag,
            opt_attr_text("command"@, self.command) +
                flag_attr_text("hidden"@, self.hidden) +
                opt_attr_text("name"@, self.name),
            one_text(self.cocoa, "cocoa"@) +
                many_text(self.access_groups@, "access-group"@),
        )
    }

    fn write_xml(&self, tag: &str, out: &mut String) {
        let mut attrs = String::new();
        push_opt_attr(&mut attrs, "command", &self.command);
        assert(attrs@ =~= opt_attr_text("command"@, self.command));
        push_flag_attr(&mut attrs, "hidden", self.hidden);
        push_opt_attr(&mut attrs, "name", &self.name);
        let mut body = String::new();
        write_one(&self.cocoa, "cocoa", &mut body);
        assert(body@ =~= one_text(self.cocoa, "cocoa"@));
        write_many(&self.access_groups, "access-group", &mut body);
        write_element(out, tag, &attrs, &body);
    }
}

/// The attribute slots written for a [`RespondsTo`].
pub open spec fn responds_to_slots(x: RespondsTo) -> Seq<(Seq<char>, Option<Seq<char>>)> {
    seq![
        opt_slot("command"@, x.command),
        flag_slot("hidden"@, x.hidden),
        opt_slot("name"@, x.name),
    ]
}

/// The attribute keys of a [`RespondsTo`] are distinct, and so are the names of
/// its child elements.
proof fn lemma_responds_to_names(x: RespondsTo)
    ensures
        keys_distinct(responds_to_slots(x)),
        "cocoa"@ != "access-group"@,
{
    reveal_strlit("command");
    reveal_strlit("hidden");
    reveal_strlit("name");
    assert("command"@.len() != "hidden"@.len());
    assert("command"@.len() != "name"@.len());
    assert("hidden"@.len() != "name"@.len());
    reveal_strlit("access-group");
    reveal_strlit("cocoa");
    assert("cocoa"@.len() != "access-group"@.len());
}

impl ReadsBack for RespondsTo {
    open spec fn event_span(self) -> int {
        element_span(many_span(opt_seq(self.cocoa)) + many_span(self.access_groups@))
    }

    open spec fn spelled(self, evs: Seq<EventView>, i: int, tag: Seq<char>) -> bool {
        &&& element_spelled(evs, i, tag, responds_to_slots(self), many_span(opt_seq(self.cocoa)) + many_span(self.access_groups@))
        &&& many_spelled(opt_seq(self.cocoa), evs, i + 1, "cocoa"@)
        &&& many_spelled(self.access_groups@, evs, i + 1 + many_span(opt_seq(self.cocoa)), "access-group"@)
    }

    open spec fn writable(self) -> bool {
        &&& all_writable(opt_seq(self.cocoa))
        &&& all_writable(self.access_groups@)
    }

    #[verifier::spinoff_prover]
    #[verifier::rlimit(100)]
    proof fn lemma_reads_back(self, evs: Seq<EventView>, i: int, tag: Seq<char>) {
        let slots = responds_to_slots(self);
        lemma_responds_to_names(self);
        let p0 = i + 1;
        let k0: Seq<int> = seq![];
        lemma_decode_empty(evs);
        assert(kids_from(evs, p0) =~= k0 + kids_from(evs, p0));
        let g0 = opt_seq(self.cocoa);
        lemma_many_reads_back(g0, evs, p0, "cocoa"@);
        let s0 = many_starts(g0, p0);
        let p1 = p0 + many_span(g0);
        let k1 = k0 + s0;
        lemma_seq_assoc(k0, s0, kids_from(evs, p1));
        lemma_starts_tagged(g0, evs, p0, "cocoa"@);
        lemma_tagged_decode(evs, s0, "cocoa"@);
        lemma_decode_append(evs, k0, s0);
        let g1 = self.access_groups@;
        lemma_many_reads_back(g1, evs, p1, "access-group"@);
        let s1 = many_starts(g1, p1);
        let p2 = p1 + many_span(g1);
        let k2 = k1 + s1;
        lemma_seq_assoc(k1, s1, kids_from(evs, p2));
        lemma_starts_tagged(g1, evs, p1, "access-group"@);
        lemma_tagged_decode(evs, s1, "access-group"@);
        lemma_decode_append(evs, k1, s1);
        let n = p2 - p0;
        assert(forall|close: Seq<u8>| #![trigger content_end(evs, p0, close)] content_end(evs, p0, close) == content_end(evs, p0 + n, close));
        lemma_element_tags(evs, i, tag, slots, n, k2);
        lemma_named_extend(evs, k0, s0, "cocoa"@, "cocoa"@);
        lemma_named_extend(evs, k1, s1, "access-group"@, "cocoa"@);
        assert(k0 + s0 =~= s0);
        lemma_named_extend(evs, k0, s0, "cocoa"@, "access-group"@);
        lemma_named_extend(evs, k1, s1, "access-group"@, "access-group"@);
        assert(k0 + s1 =~= s1);
        lemma_decode_clean(evs, k2);
        let a = tag_attrs(evs[i]);
        lemma_attrs_read_back(a, slots, 0);
        lemma_attrs_read_back(a, slots, 1);
        lemma_flag_reads_back(self.hidden);
        lemma_attrs_read_back(a, slots, 2);
    }
}

/// Strict mode knows the name a [`RespondsTo`] is written with, and checks none
/// of its attributes against a closed set.
proof fn lemma_responds_to_strict_name()
    ensures
        known_names().contains("responds-to"@),
        closed_rule("responds-to"@) is None,
{
    reveal_strlit("responds-to");
    reveal_strlit("accessor");
    assert("responds-to"@.len() != "accessor"@.len());
    reveal_strlit("access-group");
    assert("responds-to"@.len() != "access-group"@.len());
    reveal_strlit("cocoa");
    assert("responds-to"@.len() != "cocoa"@.len());
    reveal_strlit("contents");
    assert("responds-to"@.len() != "contents"@.len());
    reveal_strlit("direct-parameter");
    assert("responds-to"@.len() != "direct-parameter"@.len());
    reveal_strlit("element");
    assert("responds-to"@.len() != "element"@.len());
    reveal_strlit("parameter");
    assert("responds-to"@.len() != "parameter"@.len());
    reveal_strlit("property");
    assert("responds-to"@.len() != "property"@.len());
    assert(known_names()[18] == "responds-to"@);
}

impl StrictSafe for RespondsTo {
    open spec fn element_name() -> Seq<char> {
        "responds-to"@
    }

    open spec fn canonical(self) -> bool {
        &&& all_canonical(opt_seq(self.cocoa))
        &&& all_canonical(self.access_groups@)
    }

    proof fn lemma_passes_strict(self, evs: Seq<EventView>, i: int) {
        let slots = responds_to_slots(self);
        lemma_responds_to_names(self);
        lemma_responds_to_strict_name();
        let p0 = i + 1;
        lemma_many_pass_strict(opt_seq(self.cocoa), evs, p0);
        let p1 = p0 + many_span(opt_seq(self.cocoa));
        lemma_many_pass_strict(self.access_groups@, evs, p1);
        let p2 = p1 + many_span(self.access_groups@);
        lemma_tags_pass_strict(evs, i, "responds-to"@, slots, p2 - p0);
    }
}
impl RespondsTo {
    /// The canonical command reference: `command`, or the legacy `name`.
    pub open spec fn command_reference(self) -> Option<Seq<char>> {
        match self.command {
            Some(c) => Some(c@),
            None => text_of(self.name),
        }
    }

    /// Returns the canonical command reference, preferring `command` (the
    /// modern attribute introduced in OS X 10.5) and falling back to the
    /// pre-10.5 `name` alias. Returns `None` only when both attributes are
    /// absent — a malformed `<responds-to>` per the DTD.
    pub fn resolved_command(&self) -> (r: Option<&str>)
        ensures
            r is None <==> self.command is None && self.name is None,
            r matches Some(s) ==> self.command_reference() == Some(s@),
    {
        match &self.command {
            Some(c) => Some(c.as_str()),
            None => match &self.name {
                Some(n) => Some(n.as_str()),
                None => None,
            },
        }
    }
}

/// What the `(yes | no)` attributes of an element give the [`Class`] read
/// from it: `yes` reads as set, `no` and an absent attribute as not set,
/// and any other text leaves the element unreadable.
pub proof fn lemma_class_flags(x: Class, evs: Seq<EventView>, i: int)
    requires
        x.xml_rel(evs, i),
    ensures
        crate::xmlmap::attr_value(tag_attrs(evs[i]), "hidden"@) == Ok::<Option<Seq<char>>, ()>(Some("yes"@)) ==> x.hidden,
        crate::xmlmap::attr_value(tag_attrs(evs[i]), "hidden"@) == Ok::<Option<Seq<char>>, ()>(Some("no"@)) ==> !x.hidden,
        crate::xmlmap::attr_value(tag_attrs(evs[i]), "hidden"@) == Ok::<Option<Seq<char>>, ()>(None) ==> !x.hidden,
        (crate::xmlmap::attr_value(tag_attrs(evs[i]), "hidden"@) matches Ok(Some(t)) && t != "yes"@ && t != "no"@) ==> !Class::xml_ok(evs, i),
{
    crate::xmlmap::lemma_flag_field(tag_attrs(evs[i]), "hidden"@, x.hidden);
    crate::xmlmap::lemma_flag_refused(tag_attrs(evs[i]), "hidden"@);
}

/// What the `(yes | no)` attributes of an element give the [`ClassExtension`] read
/// from it: `yes` reads as set, `no` and an absent attribute as not set,
/// and any other text leaves the element unreadable.
pub proof fn lemma_class_extension_flags(x: ClassExtension, evs: Seq<EventView>, i: int)
    requires
        x.xml_rel(evs, i),
    ensures
        crate::xmlmap::attr_value(tag_attrs(evs[i]), "hidden"@) == Ok::<Option<Seq<char>>, ()>(Some("yes"@)) ==> x.hidden,
        crate::xmlmap::attr_value(tag_attrs(evs[i]), "hidden"@) == Ok::<Option<Seq<char>>, ()>(Some("no"@)) ==> !x.hidden,
        crate::xmlmap::attr_value(tag_attrs(evs[i]), "hidden"@) == Ok::<Option<Seq<char>>, ()>(None) ==> !x.hidden,
        (crate::xmlmap::attr_value(tag_attrs(evs[i]), "hidden"@) matches Ok(Some(t)) && t != "yes"@ && t != "no"@) ==> !ClassExtension::xml_ok(evs, i),
{
    crate::xmlmap::lemma_flag_field(tag_attrs(evs[i]), "hidden"@, x.hidden);
    crate::xmlmap::lemma_flag_refused(tag_attrs(evs[i]), "hidden"@);
}

/// What the `(yes | no)` attributes of an element give the [`Contents`] read
/// from it: `yes` reads as set, `no` and an absent attribute as not set,
/// and any other text leaves the element unreadable.
pub proof fn lemma_contents_flags(x: Contents, evs: Seq<EventView>, i: int)
    requires
        x.xml_rel(evs, i),
    ensures
        crate::xmlmap::attr_value(tag_attrs(evs[i]), "hidden"@) == Ok::<Option<Seq<char>>, ()>(Some("yes"@)) ==> x.hidden,
        crate::xmlmap::attr_value(tag_attrs(evs[i]), "hidden"@) == Ok::<Option<Seq<char>>, ()>(Some("no"@)) ==> !x.hidden,
        crate::xmlmap::attr_value(tag_attrs(evs[i]), "hidden"@) == Ok::<Option<Seq<char>>, ()>(None) ==> !x.hidden,
        crate::xmlmap::attr_value(tag_attrs(evs[i]), "in-properties"@) == Ok::<Option<Seq<char>>, ()>(Some("yes"@)) ==> x.in_properties == Some(true),
        crate::xmlmap::attr_value(tag_attrs(evs[i]), "in-properties"@) == Ok::<Option<Seq<char>>, ()>(Some("no"@)) ==> x.in_properties == Some(false),
        crate::xmlmap::attr_value(tag_attrs(evs[i]), "in-properties"@) == Ok::<Option<Seq<char>>, ()>(None) ==> x.in_properties is None,
        (crate::xmlmap::attr_value(tag_attrs(evs[i]), "hidden"@) matches Ok(Some(t)) && t != "yes"@ && t != "no"@) ==> !Contents::xml_ok(evs, i),
        (crate::xmlmap::attr_value(tag_attrs(evs[i]), "in-properties"@) matches Ok(Some(t)) && t != "yes"@ && t != "no"@) ==> !Contents::xml_ok(evs, i),
{
    crate::xmlmap::lemma_flag_field(tag_attrs(evs[i]), "hidden"@, x.hidden);
    crate::xmlmap::lemma_flag_opt_field(tag_attrs(evs[i]), "in-properties"@, x.in_properties);
    crate::xmlmap::lemma_flag_refused(tag_attrs(evs[i]), "hidden"@);
    crate::xmlmap::lemma_flag_refused(tag_attrs(evs[i]), "in-properties"@);
}

/// What the `(yes | no)` attributes of an element give the [`Element`] read
/// from it: `yes` reads as set, `no` and an absent attribute as not set,
/// and any other text leaves the element unreadable.
pub proof fn lemma_element_flags(x: Element, evs: Seq<EventView>, i: int)
    requires
        x.xml_rel(evs, i),
    ensures
        crate::xmlmap::attr_value(tag_attrs(evs[i]), "hidden"@) == Ok::<Option<Seq<char>>, ()>(Some("yes"@)) ==> x.hidden,
        crate::xmlmap::attr_value(tag_attrs(evs[i]), "hidden"@) == Ok::<Option<Seq<char>>, ()>(Some("no"@)) ==> !x.hidden,
        crate::xmlmap::attr_value(tag_attrs(evs[i]), "hidden"@) == Ok::<Option<Seq<char>>, ()>(None) ==> !x.hidden,
        (crate::xmlmap::attr_value(tag_attrs(evs[i]), "hidden"@) matches Ok(Some(t)) && t != "yes"@ && t != "no"@) ==> !Element::xml_ok(evs, i),
{
    crate::xmlmap::lemma_flag_field(tag_attrs(evs[i]), "hidden"@, x.hidden);
    crate::xmlmap::lemma_flag_refused(tag_attrs(evs[i]), "hidden"@);
}

/// What the `(yes | no)` attributes of an element give the [`RespondsTo`] read
/// from it: `yes` reads as set, `no` and an absent attribute as not set,
/// and any other text leaves the element unreadable.
pub proof fn lemma_responds_to_flags(x: RespondsTo, evs: Seq<EventView>, i: int)
    requires
        x.xml_rel(evs, i),
    ensures
        crate::xmlmap::attr_value(tag_attrs(evs[i]), "hidden"@) == Ok::<Option<Seq<char>>, ()>(Some("yes"@)) ==> x.hidden,
        crate::xmlmap::attr_value(tag_attrs(evs[i]), "hidden"@) == Ok::<Option<Seq<char>>, ()>(Some("no"@)) ==> !x.hidden,
        crate::xmlmap::attr_value(tag_attrs(evs[i]), "hidden"@) == Ok::<Option<Seq<char>>, ()>(None) ==> !x.hidden,
        (crate::xmlmap::attr_value(tag_attrs(evs[i]), "hidden"@) matches Ok(Some(t)) && t != "yes"@ && t != "no"@) ==> !RespondsTo::xml_ok(evs, i),
{
    crate::xmlmap::lemma_flag_field(tag_attrs(evs[i]), "hidden"@, x.hidden);
    crate::xmlmap::lemma_flag_refused(tag_attrs(evs[i]), "hidden"@);
}

/// The attribute text written for a [`Class`] is that of its slots.
proof fn lemma_class_attribute_text(x: Class)
    ensures
        crate::readback::slots_text(class_slots(x)) == attr_text("name"@, x.name@) + attr_text("code"@, x.code@) + opt_attr_text("id"@, x.id) + opt_attr_text("plural"@, x.plural) + opt_attr_text("inherits"@, x.inherits) + opt_attr_text("description"@, x.description) + flag_attr_text("hidden"@, x.hidden),
{
    let s = class_slots(x);
    assert(s.len() == 7);
    crate::readback::lemma_slots_text_step(s, 0);
    assert(crate::readback::slot_text(s[0]) =~= attr_text("name"@, x.name@));
    crate::readback::lemma_slots_text_step(s, 1);
    assert(crate::readback::slot_text(s[1]) =~= attr_text("code"@, x.code@));
    crate::readback::lemma_slots_text_step(s, 2);
    assert(crate::readback::slot_text(s[2]) =~= opt_attr_text("id"@, x.id));
    crate::readback::lemma_slots_text_step(s, 3);
    assert(crate::readback::slot_text(s[3]) =~= opt_attr_text("plural"@, x.plural));
    crate::readback::lemma_slots_text_step(s, 4);
    assert(crate::readback::slot_text(s[4]) =~= opt_attr_text("inherits"@, x.inherits));
    crate::readback::lemma_slots_text_step(s, 5);
    assert(crate::readback::slot_text(s[5]) =~= opt_attr_text("description"@, x.description));
    crate::readback::lemma_slots_text_step(s, 6);
    assert(crate::readback::slot_text(s[6]) =~= flag_attr_text("hidden"@, x.hidden));
    assert(s.take(0) =~= Seq::<(Seq<char>, Option<Seq<char>>)>::empty());
    assert(s.take(7) =~= s);
    assert(crate::readback::slots_text(s) =~= attr_text("name"@, x.name@) + attr_text("code"@, x.code@) + opt_attr_text("id"@, x.id) + opt_attr_text("plural"@, x.plural) + opt_attr_text("inherits"@, x.inherits) + opt_attr_text("description"@, x.description) + flag_attr_text("hidden"@, x.hidden));
}

/// The element written for a [`Class`] carries exactly the attributes that
/// reading it back takes, [`class_slots`]: one for each slot that holds a value, in
/// slot order.
pub proof fn lemma_class_written_attributes(x: Class, tag: Seq<char>)
    ensures
        crate::readback::written_with_attributes(x.xml_text(tag), tag, class_slots(x)),
{
    lemma_class_attribute_text(x);
    crate::readback::lemma_element_attributes(tag, attr_text("name"@, x.name@) + attr_text("code"@, x.code@) + opt_attr_text("id"@, x.id) + opt_attr_text("plural"@, x.plural) + opt_attr_text("inherits"@, x.inherits) + opt_attr_text("description"@, x.description) + flag_attr_text("hidden"@, x.hidden), one_text(x.cocoa, "cocoa"@) +
                many_text(x.access_groups@, "access-group"@) +
                many_text(x.types@, "type"@) +
                many_text(x.properties@, "property"@) +
                many_text(x.elements@, "element"@) +
                many_text(x.contents@, "contents"@) +
                many_text(x.responds_to@, "responds-to"@) +
                many_text(x.synonyms@, "synonym"@) +
                many_text(x.documentation@, "documentation"@) +
                many_text(x.xrefs@, "xref"@), class_slots(x));
}

impl crate::readback::WritesText for Class {
    #[verifier::spinoff_prover]
    #[verifier::rlimit(100)]
    proof fn lemma_written_text(self, evs: Seq<EventView>, i: int, tag: Seq<char>) {
        let slots = class_slots(self);
        let n = many_span(opt_seq(self.cocoa)) + many_span(self.access_groups@) + many_span(self.types@) + many_span(self.properties@) + many_span(self.elements@) + many_span(self.contents@) + many_span(self.responds_to@) + many_span(self.synonyms@) + many_span(self.documentation@) + many_span(self.xrefs@);
        let p0 = i + 1;
        crate::readback::lemma_one_text(self.cocoa, "cocoa"@);
        crate::readback::lemma_many_text(opt_seq(self.cocoa), evs, p0, "cocoa"@);
        let p1 = p0 + many_span(opt_seq(self.cocoa));
        crate::readback::lemma_many_text(self.access_groups@, evs, p1, "access-group"@);
        let p2 = p1 + many_span(self.access_groups@);
        crate::readback::lemma_many_text(self.types@, evs, p2, "type"@);
        let p3 = p2 + many_span(self.types@);
        crate::readback::lemma_many_text(self.properties@, evs, p3, "property"@);
        let p4 = p3 + many_span(self.properties@);
        crate::readback::lemma_many_text(self.elements@, evs, p4, "element"@);
        let p5 = p4 + many_span(self.elements@);
        crate::readback::lemma_many_text(self.contents@, evs, p5, "contents"@);
        let p6 = p5 + many_span(self.contents@);
        crate::readback::lemma_many_text(self.responds_to@, evs, p6, "responds-to"@);
        let p7 = p6 + many_span(self.responds_to@);
        crate::readback::lemma_many_text(self.synonyms@, evs, p7, "synonym"@);
        let p8 = p7 + many_span(self.synonyms@);
        crate::readback::lemma_many_text(self.documentation@, evs, p8, "documentation"@);
        let p9 = p8 + many_span(self.documentation@);
        crate::readback::lemma_many_text(self.xrefs@, evs, p9, "xref"@);
        let p10 = p9 + many_span(self.xrefs@);
        assert(p10 == i + 1 + n);
        crate::readback::lemma_events_text_split(evs, p0, p1, p2);
        crate::readback::lemma_events_text_split(evs, p0, p2, p3);
        crate::readback::lemma_events_text_split(evs, p0, p3, p4);
        crate::readback::lemma_events_text_split(evs, p0, p4, p5);
        crate::readback::lemma_events_text_split(evs, p0, p5, p6);
        crate::readback::lemma_events_text_split(evs, p0, p6, p7);
        crate::readback::lemma_events_text_split(evs, p0, p7, p8);
        crate::readback::lemma_events_text_split(evs, p0, p8, p9);
        crate::readback::lemma_events_text_split(evs, p0, p9, p10);
        lemma_class_attribute_text(self);
        crate::readback::lemma_element_text(evs, i, tag, slots, n, one_text(self.cocoa, "cocoa"@) +
                many_text(self.access_groups@, "access-group"@) +
                many_text(self.types@, "type"@) +
                many_text(self.properties@, "property"@) +
                many_text(self.elements@, "element"@) +
                many_text(self.contents@, "contents"@) +
                many_text(self.responds_to@, "responds-to"@) +
                many_text(self.synonyms@, "synonym"@) +
                many_text(self.documentation@, "documentation"@) +
                many_text(self.xrefs@, "xref"@));
    }
}

/// The attribute text written for a [`ClassExtension`] is that of its slots.
proof fn lemma_class_extension_attribute_text(x: ClassExtension)
    ensures
        crate::readback::slots_text(class_extension_slots(x)) == attr_text("extends"@, x.extends@) + opt_attr_text("id"@, x.id) + opt_attr_text("title"@, x.title) + opt_attr_text("description"@, x.description) + flag_attr_text("hidden"@, x.hidden),
{
    let s = class_extension_slots(x);
    assert(s.len() == 5);
    crate::readback::lemma_slots_text_step(s, 0);
    assert(crate::readback::slot_text(s[0]) =~= attr_text("extends"@, x.extends@));
    crate::readback::lemma_slots_text_step(s, 1);
    assert(crate::readback::slot_text(s[1]) =~= opt_attr_text("id"@, x.id));
    crate::readback::lemma_slots_text_step(s, 2);
    assert(crate::readback::slot_text(s[2]) =~= opt_attr_text("title"@, x.title));
    crate::readback::lemma_slots_text_step(s, 3);
    assert(crate::readback::slot_text(s[3]) =~= opt_attr_text("description"@, x.description));
    crate::readback::lemma_slots_text_step(s, 4);
    assert(crate::readback::slot_text(s[4]) =~= flag_attr_text("hidden"@, x.hidden));
    assert(s.take(0) =~= Seq::<(Seq<char>, Option<Seq<char>>)>::empty());
    assert(s.take(5) =~= s);
    assert(crate::readback::slots_text(s) =~= attr_text("extends"@, x.extends@) + opt_attr_text("id"@, x.id) + opt_attr_text("title"@, x.title) + opt_attr_text("description"@, x.description) + flag_attr_text("hidden"@, x.hidden));
}

/// The element written for a [`ClassExtension`] carries exactly the attributes that
/// reading it back takes, [`class_extension_slots`]: one for each slot that holds a value, in
/// slot order.
pub proof fn lemma_class_extension_written_attributes(x: ClassExtension, tag: Seq<char>)
    ensures
        crate::readback::written_with_attributes(x.xml_text(tag), tag, class_extension_slots(x)),
{
    lemma_class_extension_attribute_text(x);
    crate::readback::lemma_element_attributes(tag, attr_text("extends"@, x.extends@) + opt_attr_text("id"@, x.id) + opt_attr_text("title"@, x.title) + opt_attr_text("description"@, x.description) + flag_attr_text("hidden"@, x.hidden), one_text(x.cocoa, "cocoa"@) +
                many_text(x.access_groups@, "access-group"@) +
                many_text(x.properties@, "property"@) +
                many_text(x.elements@, "element"@) +
                many_text(x.contents@, "contents"@) +
                many_text(x.responds_to@, "responds-to"@) +
                many_text(x.synonyms@, "synonym"@) +
                many_text(x.documentation@, "documentation"@) +
                many_text(x.xrefs@, "xref"@), class_extension_slots(x));
}

impl crate::readback::WritesText for ClassExtension {
    #[verifier::spinoff_prover]
    #[verifier::rlimit(100)]
    proof fn lemma_written_text(self, evs: Seq<EventView>, i: int, tag: Seq<char>) {
        let slots = class_extension_slots(self);
        let n = many_span(opt_seq(self.cocoa)) + many_span(self.access_groups@) + many_span(self.properties@) + many_span(self.elements@) + many_span(self.contents@) + many_span(self.responds_to@) + many_span(self.synonyms@) + many_span(self.documentation@) + many_span(self.xrefs@);
        let p0 = i + 1;
        crate::readback::lemma_one_text(self.cocoa, "cocoa"@);
        crate::readback::lemma_many_text(opt_seq(self.cocoa), evs, p0, "cocoa"@);
        let p1 = p0 + many_span(opt_seq(self.cocoa));
        crate::readback::lemma_many_text(self.access_groups@, evs, p1, "access-group"@);
        let p2 = p1 + many_span(self.access_groups@);
        crate::readback::lemma_many_text(self.properties@, evs, p2, "property"@);
        let p3 = p2 + many_span(self.properties@);
        crate::readback::lemma_many_text(self.elements@, evs, p3, "element"@);
        let p4 = p3 + many_span(self.elements@);
        crate::readback::lemma_many_text(self.contents@, evs, p4, "contents"@);
        let p5 = p4 + many_span(self.contents@);
        crate::readback::lemma_many_text(self.responds_to@, evs, p5, "responds-to"@);
        let p6 = p5 + many_span(self.responds_to@);
        crate::readback::lemma_many_text(self.synonyms@, evs, p6, "synonym"@);
        let p7 = p6 + many_span(self.synonyms@);
        crate::readback::lemma_many_text(self.documentation@, evs, p7, "documentation"@);
        let p8 = p7 + many_span(self.documentation@);
        crate::readback::lemma_many_text(self.xrefs@, evs, p8, "xref"@);
        let p9 = p8 + many_span(self.xrefs@);
        assert(p9 == i + 1 + n);
        crate::readback::lemma_events_text_split(evs, p0, p1, p2);
        crate::readback::lemma_events_text_split(evs, p0, p2, p3);
        crate::readback::lemma_events_text_split(evs, p0, p3, p4);
        crate::readback::lemma_events_text_split(evs, p0, p4, p5);
        crate::readback::lemma_events_text_split(evs, p0, p5, p6);
        crate::readback::lemma_events_text_split(evs, p0, p6, p7);
        crate::readback::lemma_events_text_split(evs, p0, p7, p8);
        crate::readback::lemma_events_text_split(evs, p0, p8, p9);
        lemma_class_extension_attribute_text(self);
        crate::readback::lemma_element_text(evs, i, tag, slots, n, one_text(self.cocoa, "cocoa"@) +
                many_text(self.access_groups@, "access-group"@) +
                many_text(self.properties@, "property"@) +
                many_text(self.elements@, "element"@) +
                many_text(self.contents@, "contents"@) +
                many_text(self.responds_to@, "responds-to"@) +
                many_text(self.synonyms@, "synonym"@) +
                many_text(self.documentation@, "documentation"@) +
                many_text(self.xrefs@, "xref"@));
    }
}

/// The attribute text written for a [`Contents`] is that of its slots.
proof fn lemma_contents_attribute_text(x: Contents)
    ensures
        crate::readback::slots_text(contents_slots(x)) == opt_attr_text("name"@, x.name) + opt_attr_text("code"@, x.code) + opt_attr_text("type"@, x.ty) + access_attr_text("access"@, x.access) + flag_opt_attr_text("in-properties"@, x.in_properties) + flag_attr_text("hidden"@, x.hidden) + opt_attr_text("description"@, x.description),
{
    let s = contents_slots(x);
    assert(s.len() == 7);
    crate::readback::lemma_slots_text_step(s, 0);
    assert(crate::readback::slot_text(s[0]) =~= opt_attr_text("name"@, x.name));
    crate::readback::lemma_slots_text_step(s, 1);
    assert(crate::readback::slot_text(s[1]) =~= opt_attr_text("code"@, x.code));
    crate::readback::lemma_slots_text_step(s, 2);
    assert(crate::readback::slot_text(s[2]) =~= opt_attr_text("type"@, x.ty));
    crate::readback::lemma_slots_text_step(s, 3);
    assert(crate::readback::slot_text(s[3]) =~= access_attr_text("access"@, x.access));
    crate::readback::lemma_slots_text_step(s, 4);
    assert(crate::readback::slot_text(s[4]) =~= flag_opt_attr_text("in-properties"@, x.in_properties));
    crate::readback::lemma_slots_text_step(s, 5);
    assert(crate::readback::slot_text(s[5]) =~= flag_attr_text("hidden"@, x.hidden));
    crate::readback::lemma_slots_text_step(s, 6);
    assert(crate::readback::slot_text(s[6]) =~= opt_attr_text("description"@, x.description));
    assert(s.take(0) =~= Seq::<(Seq<char>, Option<Seq<char>>)>::empty());
    assert(s.take(7) =~= s);
    assert(crate::readback::slots_text(s) =~= opt_attr_text("name"@, x.name) + opt_attr_text("code"@, x.code) + opt_attr_text("type"@, x.ty) + access_attr_text("access"@, x.access) + flag_opt_attr_text("in-properties"@, x.in_properties) + flag_attr_text("hidden"@, x.hidden) + opt_attr_text("description"@, x.description));
}

/// The element written for a [`Contents`] carries exactly the attributes that
/// reading it back takes, [`contents_slots`]: one for each slot that holds a value, in
/// slot order.
pub proof fn lemma_contents_written_attributes(x: Contents, tag: Seq<char>)
    ensures
        crate::readback::written_with_attributes(x.xml_text(tag), tag, contents_slots(x)),
{
    lemma_contents_attribute_text(x);
    crate::readback::lemma_element_attributes(tag, opt_attr_text("name"@, x.name) + opt_attr_text("code"@, x.code) + opt_attr_text("type"@, x.ty) + access_attr_text("access"@, x.access) + flag_opt_attr_text("in-properties"@, x.in_properties) + flag_attr_text("hidden"@, x.hidden) + opt_attr_text("description"@, x.description), one_text(x.cocoa, "cocoa"@) +
                many_text(x.access_groups@, "access-group"@) +
                many_text(x.types@, "type"@) +
                many_text(x.synonyms@, "synonym"@) +
                many_text(x.documentation@, "documentation"@), contents_slots(x));
}

impl crate::readback::WritesText for Contents {
    #[verifier::spinoff_prover]
    #[verifier::rlimit(100)]
    proof fn lemma_written_text(self, evs: Seq<EventView>, i: int, tag: Seq<char>) {
        let slots = contents_slots(self);
        let n = many_span(opt_seq(self.cocoa)) + many_span(self.access_groups@) + many_span(self.types@) + many_span(self.synonyms@) + many_span(self.documentation@);
        let p0 = i + 1;
        crate::readback::lemma_one_text(self.cocoa, "cocoa"@);
        crate::readback::lemma_many_text(opt_seq(self.cocoa), evs, p0, "cocoa"@);
        let p1 = p0 + many_span(opt_seq(self.cocoa));
        crate::readback::lemma_many_text(self.access_groups@, evs, p1, "access-group"@);
        let p2 = p1 + many_span(self.access_groups@);
        crate::readback::lemma_many_text(self.types@, evs, p2, "type"@);
        let p3 = p2 + many_span(self.types@);
        crate::readback::lemma_many_text(self.synonyms@, evs, p3, "synonym"@);
        let p4 = p3 + many_span(self.synonyms@);
        crate::readback::lemma_many_text(self.documentation@, evs, p4, "documentation"@);
        let p5 = p4 + many_span(self.documentation@);
        assert(p5 == i + 1 + n);
        crate::readback::lemma_events_text_split(evs, p0, p1, p2);
        crate::readback::lemma_events_text_split(evs, p0, p2, p3);
        crate::readback::lemma_events_text_split(evs, p0, p3, p4);
        crate::readback::lemma_events_text_split(evs, p0, p4, p5);
        lemma_contents_attribute_text(self);
        crate::readback::lemma_element_text(evs, i, tag, slots, n, one_text(self.cocoa, "cocoa"@) +
                many_text(self.access_groups@, "access-group"@) +
                many_text(self.types@, "type"@) +
                many_text(self.synonyms@, "synonym"@) +
                many_text(self.documentation@, "documentation"@));
    }
}

/// The attribute text written for a [`Element`] is that of its slots.
proof fn lemma_element_attribute_text(x: Element)
    ensures
        crate::readback::slots_text(element_slots(x)) == attr_text("type"@, x.ty@) + access_attr_text("access"@, x.access) + flag_attr_text("hidden"@, x.hidden) + opt_attr_text("description"@, x.description),
{
    let s = element_slots(x);
    assert(s.len() == 4);
    crate::readback::lemma_slots_text_step(s, 0);
    assert(crate::readback::slot_text(s[0]) =~= attr_text("type"@, x.ty@));
    crate::readback::lemma_slots_text_step(s, 1);
    assert(crate::readback::slot_text(s[1]) =~= access_attr_text("access"@, x.access));
    crate::readback::lemma_slots_text_step(s, 2);
    assert(crate::readback::slot_text(s[2]) =~= flag_attr_text("hidden"@, x.hidden));
    crate::readback::lemma_slots_text_step(s, 3);
    assert(crate::readback::slot_text(s[3]) =~= opt_attr_text("description"@, x.description));
    assert(s.take(0) =~= Seq::<(Seq<char>, Option<Seq<char>>)>::empty());
    assert(s.take(4) =~= s);
    assert(crate::readback::slots_text(s) =~= attr_text("type"@, x.ty@) + access_attr_text("access"@, x.access) + flag_attr_text("hidden"@, x.hidden) + opt_attr_text("description"@, x.description));
}

/// The element written for a [`Element`] carries exactly the attributes that
/// reading it back takes, [`element_slots`]: one for each slot that holds a value, in
/// slot order.
pub proof fn lemma_element_written_attributes(x: Element, tag: Seq<char>)
    ensures
        crate::readback::written_with_attributes(x.xml_text(tag), tag, element_slots(x)),
{
    lemma_element_attribute_text(x);
    crate::readback::lemma_element_attributes(tag, attr_text("type"@, x.ty@) + access_attr_text("access"@, x.access) + flag_attr_text("hidden"@, x.hidden) + opt_attr_text("description"@, x.description), one_text(x.cocoa, "cocoa"@) +
                many_text(x.access_groups@, "access-group"@) +
                many_text(x.accessors@, "accessor"@) +
                many_text(x.documentation@, "documentation"@), element_slots(x));
}

impl crate::readback::WritesText for Element {
    #[verifier::spinoff_prover]
    #[verifier::rlimit(100)]
    proof fn lemma_written_text(self, evs: Seq<EventView>, i: int, tag: Seq<char>) {
        let slots = element_slots(self);
        let n = many_span(opt_seq(self.cocoa)) + many_span(self.access_groups@) + many_span(self.accessors@) + many_span(self.documentation@);
        let p0 = i + 1;
        crate::readback::lemma_one_text(self.cocoa, "cocoa"@);
        crate::readback::lemma_many_text(opt_seq(self.cocoa), evs, p0, "cocoa"@);
        let p1 = p0 + many_span(opt_seq(self.cocoa));
        crate::readback::lemma_many_text(self.access_groups@, evs, p1, "access-group"@);
        let p2 = p1 + many_span(self.access_groups@);
        crate::readback::lemma_many_text(self.accessors@, evs, p2, "accessor"@);
        let p3 = p2 + many_span(self.accessors@);
        crate::readback::lemma_many_text(self.documentation@, evs, p3, "documentation"@);
        let p4 = p3 + many_span(self.documentation@);
        assert(p4 == i + 1 + n);
        crate::readback::lemma_events_text_split(evs, p0, p1, p2);
        crate::readback::lemma_events_text_split(evs, p0, p2, p3);
        crate::readback::lemma_events_text_split(evs, p0, p3, p4);
        lemma_element_attribute_text(self);
        crate::readback::lemma_element_text(evs, i, tag, slots, n, one_text(self.cocoa, "cocoa"@) +
                many_text(self.access_groups@, "access-group"@) +
                many_text(self.accessors@, "accessor"@) +
                many_text(self.documentation@, "documentation"@));
    }
}

/// The attribute text written for a [`Accessor`] is that of its slots.
proof fn lemma_accessor_attribute_text(x: Accessor)
    ensures
        crate::readback::slots_text(accessor_slots(x)) == attr_text("style"@, x.style.dtd_text()),
{
    let s = accessor_slots(x);
    assert(s.len() == 1);
    crate::readback::lemma_slots_text_step(s, 0);
    assert(crate::readback::slot_text(s[0]) =~= attr_text("style"@, x.style.dtd_text()));
    assert(s.take(0) =~= Seq::<(Seq<char>, Option<Seq<char>>)>::empty());
    assert(s.take(1) =~= s);
    assert(crate::readback::slots_text(s) =~= attr_text("style"@, x.style.dtd_text()));
}

/// The element written for a [`Accessor`] carries exactly the attributes that
/// reading it back takes, [`accessor_slots`]: one for each slot that holds a value, in
/// slot order.
pub proof fn lemma_accessor_written_attributes(x: Accessor, tag: Seq<char>)
    ensures
        crate::readback::written_with_attributes(x.xml_text(tag), tag, accessor_slots(x)),
{
    lemma_accessor_attribute_text(x);
    crate::readback::lemma_element_attributes(tag, attr_text("style"@, x.style.dtd_text()), Seq::<char>::empty(), accessor_slots(x));
}

impl crate::readback::WritesText for Accessor {
    proof fn lemma_written_text(self, evs: Seq<EventView>, i: int, tag: Seq<char>) {
        let slots = accessor_slots(self);
        let n = 0;
        let p0 = i + 1;
        assert(p0 == i + 1 + n);
        lemma_accessor_attribute_text(self);
        crate::readback::lemma_element_text(evs, i, tag, slots, n, Seq::<char>::empty());
    }
}

/// The attribute text written for a [`RespondsTo`] is that of its slots.
proof fn lemma_responds_to_attribute_text(x: RespondsTo)
    ensures
        crate::readback::slots_text(responds_to_slots(x)) == opt_attr_text("command"@, x.command) + flag_attr_text("hidden"@, x.hidden) + opt_attr_text("name"@, x.name),
{
    let s = responds_to_slots(x);
    assert(s.len() == 3);
    crate::readback::lemma_slots_text_step(s, 0);
    assert(crate::readback::slot_text(s[0]) =~= opt_attr_text("command"@, x.command));
    crate::readback::lemma_slots_text_step(s, 1);
    assert(crate::readback::slot_text(s[1]) =~= flag_attr_text("hidden"@, x.hidden));
    crate::readback::lemma_slots_text_step(s, 2);
    assert(crate::readback::slot_text(s[2]) =~= opt_attr_text("name"@, x.name));
    assert(s.take(0) =~= Seq::<(Seq<char>, Option<Seq<char>>)>::empty());
    assert(s.take(3) =~= s);
    assert(crate::readback::slots_text(s) =~= opt_attr_text("command"@, x.command) + flag_attr_text("hidden"@, x.hidden) + opt_attr_text("name"@, x.name));
}

/// The element written for a [`RespondsTo`] carries exactly the attributes that
/// reading it back takes, [`responds_to_slots`]: one for each slot that holds a value, in
/// slot order.
pub proof fn lemma_responds_to_written_attributes(x: RespondsTo, tag: Seq<char>)
    ensures
        crate::readback::written_with_attributes(x.xml_text(tag), tag, responds_to_slots(x)),
{
    lemma_responds_to_attribute_text(x);
    crate::readback::lemma_element_attributes(tag, opt_attr_text("command"@, x.command) + flag_attr_text("hidden"@, x.hidden) + opt_attr_text("name"@, x.name), one_text(x.cocoa, "cocoa"@) +
                many_text(x.access_groups@, "access-group"@), responds_to_slots(x));
}

impl crate::readback::WritesText for RespondsTo {
    proof fn lemma_written_text(self, evs: Seq<EventView>, i: int, tag: Seq<char>) {
        let slots = responds_to_slots(self);
        let n = many_span(opt_seq(self.cocoa)) + many_span(self.access_groups@);
        let p0 = i + 1;
        crate::readback::lemma_one_text(self.cocoa, "cocoa"@);
        crate::readback::lemma_many_text(opt_seq(self.cocoa), evs, p0, "cocoa"@);
        let p1 = p0 + many_span(opt_seq(self.cocoa));
        crate::readback::lemma_many_text(self.access_groups@, evs, p1, "access-group"@);
        let p2 = p1 + many_span(self.access_groups@);
        assert(p2 == i + 1 + n);
        crate::readback::lemma_events_text_split(evs, p0, p1, p2);
        lemma_responds_to_attribute_text(self);
        crate::readback::lemma_element_text(evs, i, tag, slots, n, one_text(self.cocoa, "cocoa"@) +
                many_text(self.access_groups@, "access-group"@));
    }
}

impl crate::xmlmap::ReadsUniquely for Class {
    open spec fn same(self, other: Self) -> bool {
        &&& self.name@ == other.name@
        &&& self.code@ == other.code@
        &&& crate::xmlmap::text_of(self.id) == crate::xmlmap::text_of(other.id)
        &&& crate::xmlmap::text_of(self.plural) == crate::xmlmap::text_of(other.plural)
        &&& crate::xmlmap::text_of(self.inherits) == crate::xmlmap::text_of(other.inherits)
        &&& crate::xmlmap::text_of(self.description) == crate::xmlmap::text_of(other.description)
        &&& self.hidden == other.hidden
        &&& crate::xmlmap::opt_same(self.cocoa, other.cocoa)
        &&& crate::xmlmap::all_same(self.access_groups@, other.access_groups@)
        &&& crate::xmlmap::all_same(self.types@, other.types@)
        &&& crate::xmlmap::all_same(self.properties@, other.properties@)
        &&& crate::xmlmap::all_same(self.elements@, other.elements@)
        &&& crate::xmlmap::all_same(self.contents@, other.contents@)
        &&& crate::xmlmap::all_same(self.responds_to@, other.responds_to@)
        &&& crate::xmlmap::all_same(self.synonyms@, other.synonyms@)
        &&& crate::xmlmap::all_same(self.documentation@, other.documentation@)
        &&& crate::xmlmap::all_same(self.xrefs@, other.xrefs@)
    }

    proof fn lemma_reads_uniquely(self, other: Self, evs: Seq<EventView>, i: int) {
        let ks = crate::document::children(evs, i);
        crate::xmlmap::lemma_one_unique(self.cocoa, other.cocoa, evs, ks, "cocoa"@);
        crate::xmlmap::lemma_many_unique(self.access_groups, other.access_groups, evs, ks, "access-group"@);
        crate::xmlmap::lemma_many_unique(self.types, other.types, evs, ks, "type"@);
        crate::xmlmap::lemma_many_unique(self.properties, other.properties, evs, ks, "property"@);
        crate::xmlmap::lemma_many_unique(self.elements, other.elements, evs, ks, "element"@);
        crate::xmlmap::lemma_many_unique(self.contents, other.contents, evs, ks, "contents"@);
        crate::xmlmap::lemma_many_unique(self.responds_to, other.responds_to, evs, ks, "responds-to"@);
        crate::xmlmap::lemma_many_unique(self.synonyms, other.synonyms, evs, ks, "synonym"@);
        crate::xmlmap::lemma_many_unique(self.documentation, other.documentation, evs, ks, "documentation"@);
        crate::xmlmap::lemma_many_unique(self.xrefs, other.xrefs, evs, ks, "xref"@);
    }
}

impl crate::xmlmap::ReadsUniquely for ClassExtension {
    open spec fn same(self, other: Self) -> bool {
        &&& self.extends@ == other.extends@
        &&& crate::xmlmap::text_of(self.id) == crate::xmlmap::text_of(other.id)
        &&& crate::xmlmap::text_of(self.title) == crate::xmlmap::text_of(other.title)
        &&& crate::xmlmap::text_of(self.description) == crate::xmlmap::text_of(other.description)
        &&& self.hidden == other.hidden
        &&& crate::xmlmap::opt_same(self.cocoa, other.cocoa)
        &&& crate::xmlmap::all_same(self.access_groups@, other.access_groups@)
        &&& crate::xmlmap::all_same(self.properties@, other.properties@)
        &&& crate::xmlmap::all_same(self.elements@, other.elements@)
        &&& crate::xmlmap::all_same(self.contents@, other.contents@)
        &&& crate::xmlmap::all_same(self.responds_to@, other.responds_to@)
        &&& crate::xmlmap::all_same(self.synonyms@, other.synonyms@)
        &&& crate::xmlmap::all_same(self.documentation@, other.documentation@)
        &&& crate::xmlmap::all_same(self.xrefs@, other.xrefs@)
    }

    proof fn lemma_reads_uniquely(self, other: Self, evs: Seq<EventView>, i: int) {
        let ks = crate::document::children(evs, i);
        crate::xmlmap::lemma_one_unique(self.cocoa, other.cocoa, evs, ks, "cocoa"@);
        crate::xmlmap::lemma_many_unique(self.access_groups, other.access_groups, evs, ks, "access-group"@);
        crate::xmlmap::lemma_many_unique(self.properties, other.properties, evs, ks, "property"@);
        crate::xmlmap::lemma_many_unique(self.elements, other.elements, evs, ks, "element"@);
        crate::xmlmap::lemma_many_unique(self.contents, other.contents, evs, ks, "contents"@);
        crate::xmlmap::lemma_many_unique(self.responds_to, other.responds_to, evs, ks, "responds-to"@);
        crate::xmlmap::lemma_many_unique(self.synonyms, other.synonyms, evs, ks, "synonym"@);
        crate::xmlmap::lemma_many_unique(self.documentation, other.documentation, evs, ks, "documentation"@);
        crate::xmlmap::lemma_many_unique(self.xrefs, other.xrefs, evs, ks, "xref"@);
    }
}

impl crate::xmlmap::ReadsUniquely for Contents {
    open spec fn same(self, other: Self) -> bool {
        &&& crate::xmlmap::text_of(self.name) == crate::xmlmap::text_of(other.name)
        &&& crate::xmlmap::text_of(self.code) == crate::xmlmap::text_of(other.code)
        &&& crate::xmlmap::text_of(self.ty) == crate::xmlmap::text_of(other.ty)
        &&& crate::metadata::access_same(self.access, other.access)
        &&& self.in_properties == other.in_properties
        &&& self.hidden == other.hidden
        &&& crate::xmlmap::text_of(self.description) == crate::xmlmap::text_of(other.description)
        &&& crate::xmlmap::opt_same(self.cocoa, other.cocoa)
        &&& crate::xmlmap::all_same(self.access_groups@, other.access_groups@)
        &&& crate::xmlmap::all_same(self.types@, other.types@)
        &&& crate::xmlmap::all_same(self.synonyms@, other.synonyms@)
        &&& crate::xmlmap::all_same(self.documentation@, other.documentation@)
    }

    proof fn lemma_reads_uniquely(self, other: Self, evs: Seq<EventView>, i: int) {
        let ks = crate::document::children(evs, i);
        crate::xmlmap::lemma_one_unique(self.cocoa, other.cocoa, evs, ks, "cocoa"@);
        crate::xmlmap::lemma_many_unique(self.access_groups, other.access_groups, evs, ks, "access-group"@);
        crate::xmlmap::lemma_many_unique(self.types, other.types, evs, ks, "type"@);
        crate::xmlmap::lemma_many_unique(self.synonyms, other.synonyms, evs, ks, "synonym"@);
        crate::xmlmap::lemma_many_unique(self.documentation, other.documentation, evs, ks, "documentation"@);
    }
}

impl crate::xmlmap::ReadsUniquely for Element {
    open spec fn same(self, other: Self) -> bool {
        &&& self.ty@ == other.ty@
        &&& crate::metadata::access_same(self.access, other.access)
        &&& self.hidden == other.hidden
        &&& crate::xmlmap::text_of(self.description) == crate::xmlmap::text_of(other.description)
        &&& crate::xmlmap::opt_same(self.cocoa, other.cocoa)
        &&& crate::xmlmap::all_same(self.access_groups@, other.access_groups@)
        &&& crate::xmlmap::all_same(self.accessors@, other.accessors@)
        &&& crate::xmlmap::all_same(self.documentation@, other.documentation@)
    }

    proof fn lemma_reads_uniquely(self, other: Self, evs: Seq<EventView>, i: int) {
        let ks = crate::document::children(evs, i);
        crate::xmlmap::lemma_one_unique(self.cocoa, other.cocoa, evs, ks, "cocoa"@);
        crate::xmlmap::lemma_many_unique(self.access_groups, other.access_groups, evs, ks, "access-group"@);
        crate::xmlmap::lemma_many_unique(self.accessors, other.accessors, evs, ks, "accessor"@);
        crate::xmlmap::lemma_many_unique(self.documentation, other.documentation, evs, ks, "documentation"@);
    }
}

impl crate::xmlmap::ReadsUniquely for Accessor {
    open spec fn same(self, other: Self) -> bool {
        &&& style_same(self.style, other.style)
    }

    proof fn lemma_reads_uniquely(self, other: Self, evs: Seq<EventView>, i: int) {

    }
}

impl crate::xmlmap::ReadsUniquely for RespondsTo {
    open spec fn same(self, other: Self) -> bool {
        &&& crate::xmlmap::text_of(self.command) == crate::xmlmap::text_of(other.command)
        &&& self.hidden == other.hidden
        &&& crate::xmlmap::text_of(self.name) == crate::xmlmap::text_of(other.name)
        &&& crate::xmlmap::opt_same(self.cocoa, other.cocoa)
        &&& crate::xmlmap::all_same(self.access_groups@, other.access_groups@)
    }

    proof fn lemma_reads_uniquely(self, other: Self, evs: Seq<EventView>, i: int) {
        let ks = crate::document::children(evs, i);
        crate::xmlmap::lemma_one_unique(self.cocoa, other.cocoa, evs, ks, "cocoa"@);
        crate::xmlmap::lemma_many_unique(self.access_groups, other.access_groups, evs, ks, "access-group"@);
    }
}

} // verus!
