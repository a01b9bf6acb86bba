//! Suite-level type and member declarations: `<enumeration>`/`<enumerator>`,
//! `<record-type>`, `<value-type>`, `<property>`.
//!
//! These all *declare* something — an enumeration of constants, a structured
//! record type, an opaque value type, or a property member of a class or
//! record. They contrast with [`crate::TypeRef`], which is a *reference* to
//! such a declaration (or to one of the built-in primitives).

use vstd::prelude::*;

use crate::document::children;
use crate::error::Error;
use crate::events::{tag_attrs, EventView, XmlEvent};
use crate::metadata::{
    access_attr, access_attr_text, access_canonical, access_rel, access_slot, access_writable,
    lemma_access_allowed, push_access_attr, Access, AccessGroup, Cocoa, Documentation, Synonym,
    Xref,
};
use crate::typeref::TypeRef;
use crate::xmlmap::{
    at_most_one, attr_value, attribute, attrs_at, flag, flag_opt, flag_opt_value, flag_value,
    many, many_ok, many_rel, node_ok, one_ok, one_rel, opt_value, readable_children, req_value,
    required, text_of, FromXml,
};

use crate::emit::{
    attr_text, element_xml, flag_attr_text, flag_opt_attr_text, many_text, one_text,
    opt_attr_text, push_attr, push_flag_attr, push_flag_opt_attr, push_opt_attr, write_element,
    write_many, write_one, ToXml,
};
use crate::document::{content_end, kids_from};
use crate::readback::{
    all_writable, element_span, element_spelled, flag_opt_slot, flag_slot, keys_distinct,
    lemma_attrs_read_back, lemma_decode_append, lemma_decode_clean, lemma_decode_empty, lemma_element_tags,
    lemma_many_reads_back, lemma_named_extend, lemma_seq_assoc, lemma_starts_tagged, lemma_tagged_decode,
    many_span, many_spelled, many_starts, opt_seq, opt_slot, req_slot, tags_decode, ReadsBack,
};
use crate::xmlmap::named;
use crate::yorn::{lemma_flag_opt_reads_back, lemma_flag_reads_back};
use crate::readback::{
    all_canonical, lemma_closed_attribute_passes, lemma_many_pass_strict, lemma_tags_pass_strict,
    StrictSafe,
};
use crate::strict::{closed_rule, known_names, rw_values};

verus! {

/// An `<enumeration>` of named constants.
#[derive(Debug, Clone, Hash, PartialEq, Eq)]
#[non_exhaustive]
pub struct Enumeration {
    /// Enumeration name (`name="…"`).
    pub name: String,
    /// Four-character code (`code="…"`).
    pub code: String,
    /// `id="…"` — optional unique identifier.
    pub id: Option<String>,
    /// Optional human description (`description="…"`).
    pub description: Option<String>,
    /// `hidden="yes"` flag, defaults to `false`.
    pub hidden: bool,
    /// `inline="N"` — display-compaction hint, kept as the raw text.
    pub inline: Option<String>,
    /// Optional `<cocoa>` implementation hint.
    pub cocoa: Option<Cocoa>,
    /// `<enumerator>` children. At least one is required by the DTD.
    pub enumerators: Vec<Enumerator>,
    /// Interleaved `<documentation>` children.
    pub documentation: Vec<Documentation>,
    /// Interleaved `<xref>` children.
    pub xrefs: Vec<Xref>,
}

impl FromXml for Enumeration {
    open spec fn xml_ok(evs: Seq<EventView>, i: int) -> bool {
        let a = tag_attrs(evs[i]);
        let ks = children(evs, i);
        &&& node_ok(evs, i)
        &&& req_value(a, "name"@) is Some
        &&& req_value(a, "code"@) is Some
        &&& attr_value(a, "id"@) is Ok
        &&& attr_value(a, "description"@) is Ok
        &&& flag_value(a, "hidden"@) is Ok
        &&& attr_value(a, "inline"@) is Ok
        &&& one_ok::<Cocoa>(evs, ks, "cocoa"@)
        &&& many_ok::<Enumerator>(evs, ks, "enumerator"@)
        &&& many_ok::<Documentation>(evs, ks, "documentation"@)
        &&& many_ok::<Xref>(evs, ks, "xref"@)
    }

    open spec fn xml_rel(self, evs: Seq<EventView>, i: int) -> bool {
        let a = tag_attrs(evs[i]);
        let ks = children(evs, i);
        &&& req_value(a, "name"@) == Some(self.name@)
        &&& req_value(a, "code"@) == Some(self.code@)
        &&& text_of(self.id) == opt_value(a, "id"@)
        &&& text_of(self.description) == opt_value(a, "description"@)
        &&& flag_value(a, "hidden"@) == Ok::<bool, ()>(self.hidden)
        &&& text_of(self.inline) == opt_value(a, "inline"@)
        &&& one_rel(self.cocoa, evs, ks, "cocoa"@)
        &&& many_rel(self.enumerators, evs, ks, "enumerator"@)
        &&& many_rel(self.documentation, evs, ks, "documentation"@)
        &&& many_rel(self.xrefs, evs, ks, "xref"@)
    }

    fn from_xml(evs: &Vec<XmlEvent>, i: usize) -> (r: Result<Self, Error>) {
        let ks = readable_children(evs, i)?;
        let a = attrs_at(evs, i);
        let name = required(a, "name")?;
        let code = required(a, "code")?;
        let id = attribute(a, "id")?;
        let description = attribute(a, "description")?;
        let hidden = flag(a, "hidden")?;
        let inline = attribute(a, "inline")?;
        let cocoa = at_most_one::<Cocoa>(evs, &ks, "cocoa")?;
        let enumerators = many::<Enumerator>(evs, &ks, "enumerator")?;
        let documentation = many::<Documentation>(evs, &ks, "documentation")?;
        let xrefs = many::<Xref>(evs, &ks, "xref")?;
        Ok(Enumeration { name, code, id, description, hidden, inline, cocoa, enumerators, documentation, xrefs })
    }
}

impl ToXml for Enumeration {
    open spec fn xml_text(self, tag: Seq<char>) -> Seq<char> {
        element_xml(
            tag,
            attr_text("name"@, self.name@) +
                attr_text("code"@, self.code@) +
                opt_attr_text("id"@, self.id) +
                opt_attr_text("description"@, self.description) +
                flag_attr_text("hidden"@, self.hidden) +
                opt_attr_text("inline"@, self.inline),
            one_text(self.cocoa, "cocoa"@) +
                many_text(self.enumerators@, "enumerator"@) +
                many_text(self.documentation@, "documentation"@) +
                many_text(self.xrefs@, "xref"@),
        )
    }

    fn write_xml(&self, tag: &str, out: &mut String) {
        let mut attrs = String::new();
        push_attr(&mut attrs, "name", self.name.as_str());
        assert(attrs@ =~= attr_text("name"@, self.name@));
        push_attr(&mut attrs, "code", self.code.as_str());
        push_opt_attr(&mut attrs, "id", &self.id);
        push_opt_attr(&mut attrs, "description", &self.description);
        push_flag_attr(&mut attrs, "hidden", self.hidden);
        push_opt_attr(&mut attrs, "inline", &self.inline);
        let mut body = String::new();
        write_one(&self.cocoa, "cocoa", &mut body);
        assert(body@ =~= one_text(self.cocoa, "cocoa"@));
        write_many(&self.enumerators, "enumerator", &mut body);
        write_many(&self.documentation, "documentation", &mut body);
        write_many(&self.xrefs, "xref", &mut body);
        write_element(out, tag, &attrs, &body);
    }
}

/// The attribute slots written for a [`Enumeration`].
pub open spec fn enumeration_slots(x: Enumeration) -> Seq<(Seq<char>, Option<Seq<char>>)> {
    seq![
        req_slot("name"@, x.name@),
        req_slot("code"@, x.code@),
        opt_slot("id"@, x.id),
        opt_slot("description"@, x.description),
        flag_slot("hidden"@, x.hidden),
        opt_slot("inline"@, x.inline),
    ]
}

/// The attribute keys of a [`Enumeration`] are distinct, and so are the names of
/// its child elements.
proof fn lemma_enumeration_names(x: Enumeration)
    ensures
        keys_distinct(enumeration_slots(x)),
        "cocoa"@ != "enumerator"@,
        "cocoa"@ != "documentation"@,
        "cocoa"@ != "xref"@,
        "enumerator"@ != "documentation"@,
        "enumerator"@ != "xref"@,
        "documentation"@ != "xref"@,
{
    reveal_strlit("code");
    reveal_strlit("description");
    reveal_strlit("hidden");
    reveal_strlit("id");
    reveal_strlit("inline");
    reveal_strlit("name");
    assert("name"@[0] != "code"@[0]);
    assert("name"@.len() != "id"@.len());
    assert("name"@.len() != "description"@.len());
    assert("name"@.len() != "hidden"@.len());
    assert("name"@.len() != "inline"@.len());
    assert("code"@.len() != "id"@.len());
    assert("code"@.len() != "description"@.len());
    assert("code"@.len() != "hidden"@.len());
    assert("code"@.len() != "inline"@.len());
    assert("id"@.len() != "description"@.len());
    assert("id"@.len() != "hidden"@.len());
    assert("id"@.len() != "inline"@.len());
    assert("description"@.len() != "hidden"@.len());
    assert("description"@.len() != "inline"@.len());
    assert("hidden"@[0] != "inline"@[0]);
    reveal_strlit("cocoa");
    reveal_strlit("documentation");
    reveal_strlit("enumerator");
    reveal_strlit("xref");
    assert("cocoa"@.len() != "enumerator"@.len());
    assert("cocoa"@.len() != "documentation"@.len());
    assert("cocoa"@.len() != "xref"@.len());
    assert("enumerator"@.len() != "documentation"@.len());
    assert("enumerator"@.len() != "xref"@.len());
    assert("documentation"@.len() != "xref"@.len());
}

impl ReadsBack for Enumeration {
    open spec fn event_span(self) -> int {
        element_span(many_span(opt_seq(self.cocoa)) + many_span(self.enumerators@) + many_span(self.documentation@) + many_span(self.xrefs@))
    }

    open spec fn spelled(self, evs: Seq<EventView>, i: int, tag: Seq<char>) -> bool {
        &&& element_spelled(evs, i, tag, enumeration_slots(self), many_span(opt_seq(self.cocoa)) + many_span(self.enumerators@) + many_span(self.documentation@) + many_span(self.xrefs@))
        &&& many_spelled(opt_seq(self.cocoa), evs, i + 1, "cocoa"@)
        &&& many_spelled(self.enumerators@, evs, i + 1 + many_span(opt_seq(self.cocoa)), "enumerator"@)
        &&& many_spelled(self.documentation@, evs, i + 1 + many_span(opt_seq(self.cocoa)) + many_span(self.enumerators@), "documentation"@)
        &&& many_spelled(self.xrefs@, evs, i + 1 + many_span(opt_seq(self.cocoa)) + many_span(self.enumerators@) + many_span(self.documentation@), "xref"@)
    }

    open spec fn writable(self) -> bool {
        &&& all_writable(opt_seq(self.cocoa))
        &&& all_writable(self.enumerators@)
        &&& all_writable(self.documentation@)
        &&& all_writable(self.xrefs@)
    }

    #[verifier::spinoff_prover]
    #[verifier::rlimit(100)]
    proof fn lemma_reads_back(self, evs: Seq<EventView>, i: int, tag: Seq<char>) {
        let slots = enumeration_slots(self);
        lemma_enumeration_names(self);
        let p0 = i + 1;
        let k0: Seq<int> = seq![];
        lemma_decode_empty(evs);
        assert(kids_from(evs, p0) =~= k0 + kids_from(evs, p0));
        let g0 = opt_seq(self.cocoa);
        lemma_many_reads_back(g0, evs, p0, "cocoa"@);
        let s0 = many_starts(g0, p0);
        let p1 = p0 + many_span(g0);
        let k1 = k0 + s0;
        lemma_seq_assoc(k0, s0, kids_from(evs, p1));
        lemma_starts_tagged(g0, evs, p0, "cocoa"@);
        lemma_tagged_decode(evs, s0, "cocoa"@);
        lemma_decode_append(evs, k0, s0);
        let g1 = self.enumerators@;
        lemma_many_reads_back(g1, evs, p1, "enumerator"@);
        let s1 = many_starts(g1, p1);
        let p2 = p1 + many_span(g1);
        let k2 = k1 + s1;
        lemma_seq_assoc(k1, s1, kids_from(evs, p2));
        lemma_starts_tagged(g1, evs, p1, "enumerator"@);
        lemma_tagged_decode(evs, s1, "enumerator"@);
        lemma_decode_append(evs, k1, s1);
        let g2 = self.documentation@;
        lemma_many_reads_back(g2, evs, p2, "documentation"@);
        let s2 = many_starts(g2, p2);
        let p3 = p2 + many_span(g2);
        let k3 = k2 + s2;
        lemma_seq_assoc(k2, s2, kids_from(evs, p3));
        lemma_starts_tagged(g2, evs, p2, "documentation"@);
        lemma_tagged_decode(evs, s2, "documentation"@);
        lemma_decode_append(evs, k2, s2);
        let g3 = self.xrefs@;
        lemma_many_reads_back(g3, evs, p3, "xref"@);
        let s3 = many_starts(g3, p3);
        let p4 = p3 + many_span(g3);
        let k4 = k3 + s3;
        lemma_seq_assoc(k3, s3, kids_from(evs, p4));
        lemma_starts_tagged(g3, evs, p3, "xref"@);
        lemma_tagged_decode(evs, s3, "xref"@);
        lemma_decode_append(evs, k3, s3);
        let n = p4 - p0;
        assert(forall|close: Seq<u8>| #![trigger content_end(evs, p0, close)] content_end(evs, p0, close) == content_end(evs, p0 + n, close));
        lemma_element_tags(evs, i, tag, slots, n, k4);
        lemma_named_extend(evs, k0, s0, "cocoa"@, "cocoa"@);
        lemma_named_extend(evs, k1, s1, "enumerator"@, "cocoa"@);
        lemma_named_extend(evs, k2, s2, "documentation"@, "cocoa"@);
        lemma_named_extend(evs, k3, s3, "xref"@, "cocoa"@);
        assert(k0 + s0 =~= s0);
        lemma_named_extend(evs, k0, s0, "cocoa"@, "enumerator"@);
        lemma_named_extend(evs, k1, s1, "enumerator"@, "enumerator"@);
        lemma_named_extend(evs, k2, s2, "documentation"@, "enumerator"@);
        lemma_named_extend(evs, k3, s3, "xref"@, "enumerator"@);
        assert(k0 + s1 =~= s1);
        lemma_named_extend(evs, k0, s0, "cocoa"@, "documentation"@);
        lemma_named_extend(evs, k1, s1, "enumerator"@, "documentation"@);
        lemma_named_extend(evs, k2, s2, "documentation"@, "documentation"@);
        lemma_named_extend(evs, k3, s3, "xref"@, "documentation"@);
        assert(k0 + s2 =~= s2);
        lemma_named_extend(evs, k0, s0, "cocoa"@, "xref"@);
        lemma_named_extend(evs, k1, s1, "enumerator"@, "xref"@);
        lemma_named_extend(evs, k2, s2, "documentation"@, "xref"@);
        lemma_named_extend(evs, k3, s3, "xref"@, "xref"@);
        assert(k0 + s3 =~= s3);
        lemma_decode_clean(evs, k4);
        let a = tag_attrs(evs[i]);
        lemma_attrs_read_back(a, slots, 0);
        lemma_attrs_read_back(a, slots, 1);
        lemma_attrs_read_back(a, slots, 2);
        lemma_attrs_read_back(a, slots, 3);
        lemma_attrs_read_back(a, slots, 4);
        lemma_flag_reads_back(self.hidden);
        lemma_attrs_read_back(a, slots, 5);
    }
}

/// Strict mode knows the name a [`Enumeration`] is written with, and checks none
/// of its attributes against a closed set.
proof fn lemma_enumeration_strict_name()
    ensures
        known_names().contains("enumeration"@),
        closed_rule("enumeration"@) is None,
{
    reveal_strlit("enumeration");
    reveal_strlit("accessor");
    assert("enumeration"@.len() != "accessor"@.len());
    reveal_strlit("access-group");
    assert("enumeration"@.len() != "access-group"@.len());
    reveal_strlit("cocoa");
    assert("enumeration"@.len() != "cocoa"@.len());
    reveal_strlit("contents");
    assert("enumeration"@.len() != "contents"@.len());
    reveal_strlit("direct-parameter");
    assert("enumeration"@.len() != "direct-parameter"@.len());
    reveal_strlit("element");
    assert("enumeration"@.len() != "element"@.len());
    reveal_strlit("parameter");
    assert("enumeration"@.len() != "parameter"@.len());
    reveal_strlit("property");
    assert("enumeration"@.len() != "property"@.len());
    assert(known_names()[11] == "enumeration"@);
}

impl StrictSafe for Enumeration {
    open spec fn element_name() -> Seq<char> {
        "enumeration"@
    }

    open spec fn canonical(self) -> bool {
        &&& all_canonical(opt_seq(self.cocoa))
        &&& all_canonical(self.enumerators@)
        &&& all_canonical(self.documentation@)
        &&& all_canonical(self.xrefs@)
    }

    proof fn lemma_passes_strict(self, evs: Seq<EventView>, i: int) {
        let slots = enumeration_slots(self);
        lemma_enumeration_names(self);
        lemma_enumeration_strict_name();
        let p0 = i + 1;
        lemma_many_pass_strict(opt_seq(self.cocoa), evs, p0);
        let p1 = p0 + many_span(opt_seq(self.cocoa));
        lemma_many_pass_strict(self.enumerators@, evs, p1);
        let p2 = p1 + many_span(self.enumerators@);
        lemma_many_pass_strict(self.documentation@, evs, p2);
        let p3 = p2 + many_span(self.documentation@);
        lemma_many_pass_strict(self.xrefs@, evs, p3);
        let p4 = p3 + many_span(self.xrefs@);
        lemma_tags_pass_strict(evs, i, "enumeration"@, slots, p4 - p0);
    }
}

/// A single `<enumerator>` constant within an [`Enumeration`].
#[derive(Debug, Clone, Hash, PartialEq, Eq)]
#[non_exhaustive]
pub struct Enumerator {
    /// Enumerator name (`name="…"`).
    pub name: String,
    /// Four-character code (`code="…"`).
    pub code: String,
    /// `hidden="yes"` flag, defaults to `false`.
    pub hidden: bool,
    /// Optional human description (`description="…"`).
    pub description: Option<String>,
    /// Optional `<cocoa>` implementation hint.
    pub cocoa: Option<Cocoa>,
    /// `<synonym>` children.
    pub synonyms: Vec<Synonym>,
    /// `<documentation>` children.
    pub documentation: Vec<Documentation>,
}

impl FromXml for Enumerator {
    open spec fn xml_ok(evs: Seq<EventView>, i: int) -> bool {
        let a = tag_attrs(evs[i]);
        let ks = children(evs, i);
        &&& node_ok(evs, i)
        &&& req_value(a, "name"@) is Some
        &&& req_value(a, "code"@) is Some
        &&& flag_value(a, "hidden"@) is Ok
        &&& attr_value(a, "description"@) is Ok
        &&& one_ok::<Cocoa>(evs, ks, "cocoa"@)
        &&& many_ok::<Synonym>(evs, ks, "synonym"@)
        &&& many_ok::<Documentation>(evs, ks, "documentation"@)
    }

    open spec fn xml_rel(self, evs: Seq<EventView>, i: int) -> bool {
        let a = tag_attrs(evs[i]);
        let ks = children(evs, i);
        &&& req_value(a, "name"@) == Some(self.name@)
        &&& req_value(a, "code"@) == Some(self.code@)
        &&& flag_value(a, "hidden"@) == Ok::<bool, ()>(self.hidden)
        &&& text_of(self.description) == opt_value(a, "description"@)
        &&& one_rel(self.cocoa, evs, ks, "cocoa"@)
        &&& many_rel(self.synonyms, evs, ks, "synonym"@)
        &&& many_rel(self.documentation, evs, ks, "documentation"@)
    }

    fn from_xml(evs: &Vec<XmlEvent>, i: usize) -> (r: Result<Self, Error>) {
        let ks = readable_children(evs, i)?;
        let a = attrs_at(evs, i);
        let name = required(a, "name")?;
        let code = required(a, "code")?;
        let hidden = flag(a, "hidden")?;
        let description = attribute(a, "description")?;
        let cocoa = at_most_one::<Cocoa>(evs, &ks, "cocoa")?;
        let synonyms = many::<Synonym>(evs, &ks, "synonym")?;
        let documentation = many::<Documentation>(evs, &ks, "documentation")?;
        Ok(Enumerator { name, code, hidden, description, cocoa, synonyms, documentation })
    }
}

impl ToXml for Enumerator {
    open spec fn xml_text(self, tag: Seq<char>) -> Seq<char> {
        element_xml(
            tag,
            attr_text("name"@, self.name@) +
                attr_text("code"@, self.code@) +
                flag_attr_text("hidden"@, self.hidden) +
                opt_attr_text("description"@, self.description),
            one_text(self.cocoa, "cocoa"@) +
                many_text(self.synonyms@, "synonym"@) +
                many_text(self.documentation@, "documentation"@),
        )
    }

    fn write_xml(&self, tag: &str, out: &mut String) {
        let mut attrs = String::new();
        push_attr(&mut attrs, "name", self.name.as_str());
        assert(attrs@ =~= attr_text("name"@, self.name@));
        push_attr(&mut attrs, "code", self.code.as_str());
        push_flag_attr(&mut attrs, "hidden", self.hidden);
        push_opt_attr(&mut attrs, "description", &self.description);
        let mut body = String::new();
        write_one(&self.cocoa, "cocoa", &mut body);
        assert(body@ =~= one_text(self.cocoa, "cocoa"@));
        write_many(&self.synonyms, "synonym", &mut body);
        write_many(&self.documentation, "documentation", &mut body);
        write_element(out, tag, &attrs, &body);
    }
}

/// The attribute slots written for a [`Enumerator`].
pub open spec fn enumerator_slots(x: Enumerator) -> Seq<(Seq<char>, Option<Seq<char>>)> {
    seq![
        req_slot("name"@, x.name@),
        req_slot("code"@, x.code@),
        flag_slot("hidden"@, x.hidden),
        opt_slot("description"@, x.description),
    ]
}

/// The attribute keys of a [`Enumerator`] are distinct, and so are the names of
/// its child elements.
proof fn lemma_enumerator_names(x: Enumerator)
    ensures
        keys_distinct(enumerator_slots(x)),
        "cocoa"@ != "synonym"@,
        "cocoa"@ != "documentation"@,
        "synonym"@ != "documentation"@,
{
    reveal_strlit("code");
    reveal_strlit("description");
    reveal_strlit("hidden");
    reveal_strlit("name");
    assert("name"@[0] != "code"@[0]);
    assert("name"@.len() != "hidden"@.len());
    assert("name"@.len() != "description"@.len());
    assert("code"@.len() != "hidden"@.len());
    assert("code"@.len() != "description"@.len());
    assert("hidden"@.len() != "description"@.len());
    reveal_strlit("cocoa");
    reveal_strlit("documentation");
    reveal_strlit("synonym");
    assert("cocoa"@.len() != "synonym"@.len());
    assert("cocoa"@.len() != "documentation"@.len());
    assert("synonym"@.len() != "documentation"@.len());
}

impl ReadsBack for Enumerator {
    open spec fn event_span(self) -> int {
        element_span(many_span(opt_seq(self.cocoa)) + many_span(self.synonyms@) + many_span(self.documentation@))
    }

    open spec fn spelled(self, evs: Seq<EventView>, i: int, tag: Seq<char>) -> bool {
        &&& element_spelled(evs, i, tag, enumerator_slots(self), many_span(opt_seq(self.cocoa)) + many_span(self.synonyms@) + many_span(self.documentation@))
        &&& many_spelled(opt_seq(self.cocoa), evs, i + 1, "cocoa"@)
        &&& many_spelled(self.synonyms@, evs, i + 1 + many_span(opt_seq(self.cocoa)), "synonym"@)
        &&& many_spelled(self.documentation@, evs, i + 1 + many_span(opt_seq(self.cocoa)) + many_span(self.synonyms@), "documentation"@)
    }

    open spec fn writable(self) -> bool {
        &&& all_writable(opt_seq(self.cocoa))
        &&& all_writable(self.synonyms@)
        &&& all_writable(self.documentation@)
    }

    #[verifier::spinoff_prover]
    #[verifier::rlimit(100)]
    proof fn lemma_reads_back(self, evs: Seq<EventView>, i: int, tag: Seq<char>) {
        let slots = enumerator_slots(self);
        lemma_enumerator_names(self);
        let p0 = i + 1;
        let k0: Seq<int> = seq![];
        lemma_decode_empty(evs);
        assert(kids_from(evs, p0) =~= k0 + kids_from(evs, p0));
        let g0 = opt_seq(self.cocoa);
        lemma_many_reads_back(g0, evs, p0, "cocoa"@);
        let s0 = many_starts(g0, p0);
        let p1 = p0 + many_span(g0);
        let k1 = k0 + s0;
        lemma_seq_assoc(k0, s0, kids_from(evs, p1));
        lemma_starts_tagged(g0, evs, p0, "cocoa"@);
        lemma_tagged_decode(evs, s0, "cocoa"@);
        lemma_decode_append(evs, k0, s0);
        let g1 = self.synonyms@;
        lemma_many_reads_back(g1, evs, p1, "synonym"@);
        let s1 = many_starts(g1, p1);
        let p2 = p1 + many_span(g1);
        let k2 = k1 + s1;
        lemma_seq_assoc(k1, s1, kids_from(evs, p2));
        lemma_starts_tagged(g1, evs, p1, "synonym"@);
        lemma_tagged_decode(evs, s1, "synonym"@);
        lemma_decode_append(evs, k1, s1);
        let g2 = self.documentation@;
        lemma_many_reads_back(g2, evs, p2, "documentation"@);
        let s2 = many_starts(g2, p2);
        let p3 = p2 + many_span(g2);
        let k3 = k2 + s2;
        lemma_seq_assoc(k2, s2, kids_from(evs, p3));
        lemma_starts_tagged(g2, evs, p2, "documentation"@);
        lemma_tagged_decode(evs, s2, "documentation"@);
        lemma_decode_append(evs, k2, s2);
        let n = p3 - p0;
        assert(forall|close: Seq<u8>| #![trigger content_end(evs, p0, close)] content_end(evs, p0, close) == content_end(evs, p0 + n, close));
        lemma_element_tags(evs, i, tag, slots, n, k3);
        lemma_named_extend(evs, k0, s0, "cocoa"@, "cocoa"@);
        lemma_named_extend(evs, k1, s1, "synonym"@, "cocoa"@);
        lemma_named_extend(evs, k2, s2, "documentation"@, "cocoa"@);
        assert(k0 + s0 =~= s0);
        lemma_named_extend(evs, k0, s0, "cocoa"@, "synonym"@);
        lemma_named_extend(evs, k1, s1, "synonym"@, "synonym"@);
        lemma_named_extend(evs, k2, s2, "documentation"@, "synonym"@);
        assert(k0 + s1 =~= s1);
        lemma_named_extend(evs, k0, s0, "cocoa"@, "documentation"@);
        lemma_named_extend(evs, k1, s1, "synonym"@, "documentation"@);
        lemma_named_extend(evs, k2, s2, "documentation"@, "documentation"@);
        assert(k0 + s2 =~= s2);
        lemma_decode_clean(evs, k3);
        let a = tag_attrs(evs[i]);
        lemma_attrs_read_back(a, slots, 0);
        lemma_attrs_read_back(a, slots, 1);
        lemma_attrs_read_back(a, slots, 2);
        lemma_flag_reads_back(self.hidden);
        lemma_attrs_read_back(a, slots, 3);
    }
}

/// Strict mode knows the name a [`Enumerator`] is written with, and checks none
/// of its attributes against a closed set.
proof fn lemma_enumerator_strict_name()
    ensures
        known_names().contains("enumerator"@),
        closed_rule("enumerator"@) is None,
{
    reveal_strlit("enumerator");
    reveal_strlit("accessor");
    assert("enumerator"@.len() != "accessor"@.len());
    reveal_strlit("access-group");
    assert("enumerator"@.len() != "access-group"@.len());
    reveal_strlit("cocoa");
    assert("enumerator"@.len() != "cocoa"@.len());
    reveal_strlit("contents");
    assert("enumerator"@.len() != "contents"@.len());
    reveal_strlit("direct-parameter");
    assert("enumerator"@.len() != "direct-parameter"@.len());
    reveal_strlit("element");
    assert("enumerator"@.len() != "element"@.len());
    reveal_strlit("parameter");
    assert("enumerator"@.len() != "parameter"@.len());
    reveal_strlit("property");
    assert("enumerator"@.len() != "property"@.len());
    assert(known_names()[12] == "enumerator"@);
}

impl StrictSafe for Enumerator {
    open spec fn element_name() -> Seq<char> {
        "enumerator"@
    }

    open spec fn canonical(self) -> bool {
        &&& all_canonical(opt_seq(self.cocoa))
        &&& all_canonical(self.synonyms@)
        &&& all_canonical(self.documentation@)
    }

    proof fn lemma_passes_strict(self, evs: Seq<EventView>, i: int) {
        let slots = enumerator_slots(self);
        lemma_enumerator_names(self);
        lemma_enumerator_strict_name();
        let p0 = i + 1;
        lemma_many_pass_strict(opt_seq(self.cocoa), evs, p0);
        let p1 = p0 + many_span(opt_seq(self.cocoa));
        lemma_many_pass_strict(self.synonyms@, evs, p1);
        let p2 = p1 + many_span(self.synonyms@);
        lemma_many_pass_strict(self.documentation@, evs, p2);
        let p3 = p2 + many_span(self.documentation@);
        lemma_tags_pass_strict(evs, i, "enumerator"@, slots, p3 - p0);
    }
}

/// A `<record-type>` — a structured value type composed of named properties,
/// distinct from a `<class>` (no behaviour, no identity).
#[derive(Debug, Clone, Hash, PartialEq, Eq)]
#[non_exhaustive]
pub struct RecordType {
    /// Record-type name (`name="…"`).
    pub name: String,
    /// Four-character code (`code="…"`).
    pub code: String,
    /// `id="…"` — optional unique identifier.
    pub id: Option<String>,
    /// Optional plural form (`plural="…"`).
    pub plural: Option<String>,
    /// Optional human description (`description="…"`).
    pub description: Option<String>,
    /// `hidden="yes"` flag, defaults to `false`.
    pub hidden: bool,
    /// Optional `<cocoa>` implementation hint.
    pub cocoa: Option<Cocoa>,
    /// `<synonym>` children.
    pub synonyms: Vec<Synonym>,
    /// `<property>` children declaring the fields of the record.
    pub properties: Vec<Property>,
    /// `<documentation>` children.
    pub documentation: Vec<Documentation>,
    /// `<xref>` children.
    pub xrefs: Vec<Xref>,
}

impl FromXml for RecordType {
    open spec fn xml_ok(evs: Seq<EventView>, i: int) -> bool {
        let a = tag_attrs(evs[i]);
        let ks = children(evs, i);
        &&& node_ok(evs, i)
        &&& req_value(a, "name"@) is Some
        &&& req_value(a, "code"@) is Some
        &&& attr_value(a, "id"@) is Ok
        &&& attr_value(a, "plural"@) is Ok
        &&& attr_value(a, "description"@) is Ok
        &&& flag_value(a, "hidden"@) is Ok
        &&& one_ok::<Cocoa>(evs, ks, "cocoa"@)
        &&& many_ok::<Synonym>(evs, ks, "synonym"@)
        &&& many_ok::<Property>(evs, ks, "property"@)
        &&& many_ok::<Documentation>(evs, ks, "documentation"@)
        &&& many_ok::<Xref>(evs, ks, "xref"@)
    }

    open spec fn xml_rel(self, evs: Seq<EventView>, i: int) -> bool {
        let a = tag_attrs(evs[i]);
        let ks = children(evs, i);
        &&& req_value(a, "name"@) == Some(self.name@)
        &&& req_value(a, "code"@) == Some(self.code@)
        &&& text_of(self.id) == opt_value(a, "id"@)
        &&& text_of(self.plural) == opt_value(a, "plural"@)
        &&& text_of(self.description) == opt_value(a, "description"@)
        &&& flag_value(a, "hidden"@) == Ok::<bool, ()>(self.hidden)
        &&& one_rel(self.cocoa, evs, ks, "cocoa"@)
        &&& many_rel(self.synonyms, evs, ks, "synonym"@)
        &&& many_rel(self.properties, evs, ks, "property"@)
        &&& many_rel(self.documentation, evs, ks, "documentation"@)
        &&& many_rel(self.xrefs, evs, ks, "xref"@)
    }

    fn from_xml(evs: &Vec<XmlEvent>, i: usize) -> (r: Result<Self, Error>) {
        let ks = readable_children(evs, i)?;
        let a = attrs_at(evs, i);
        let name = required(a, "name")?;
        let code = required(a, "code")?;
        let id = attribute(a, "id")?;
        let plural = attribute(a, "plural")?;
        let description = attribute(a, "description")?;
        let hidden = flag(a, "hidden")?;
        let cocoa = at_most_one::<Cocoa>(evs, &ks, "cocoa")?;
        let synonyms = many::<Synonym>(evs, &ks, "synonym")?;
        let properties = many::<Property>(evs, &ks, "property")?;
        let documentation = many::<Documentation>(evs, &ks, "documentation")?;
        let xrefs = many::<Xref>(evs, &ks, "xref")?;
        Ok(RecordType { name, code, id, plural, description, hidden, cocoa, synonyms, properties, documentation, xrefs })
    }
}

impl ToXml for RecordType {
    open spec fn xml_text(self, tag: Seq<char>) -> Seq<char> {
        element_xml(
            tag,
            attr_text("name"@, self.name@) +
                attr_text("code"@, self.code@) +
                opt_attr_text("id"@, self.id) +
                opt_attr_text("plural"@, self.plural) +
                opt_attr_text("description"@, self.description) +
                flag_attr_text("hidden"@, self.hidden),
            one_text(self.cocoa, "cocoa"@) +
                many_text(self.synonyms@, "synonym"@) +
                many_text(self.properties@, "property"@) +
                many_text(self.documentation@, "documentation"@) +
                many_text(self.xrefs@, "xref"@),
        )
    }

    fn write_xml(&self, tag: &str, out: &mut String) {
        let mut attrs = String::new();
        push_attr(&mut attrs, "name", self.name.as_str());
        assert(attrs@ =~= attr_text("name"@, self.name@));
        push_attr(&mut attrs, "code", self.code.as_str());
        push_opt_attr(&mut attrs, "id", &self.id);
        push_opt_attr(&mut attrs, "plural", &self.plural);
        push_opt_attr(&mut attrs, "description", &self.description);
        push_flag_attr(&mut attrs, "hidden", self.hidden);
        let mut body = String::new();
        write_one(&self.cocoa, "cocoa", &mut body);
        assert(body@ =~= one_text(self.cocoa, "cocoa"@));
        write_many(&self.synonyms, "synonym", &mut body);
        write_many(&self.properties, "property", &mut body);
        write_many(&self.documentation, "documentation", &mut body);
        write_many(&self.xrefs, "xref", &mut body);
        write_element(out, tag, &attrs, &body);
    }
}

/// The attribute slots written for a [`RecordType`].
pub open spec fn record_type_slots(x: RecordType) -> Seq<(Seq<char>, Option<Seq<char>>)> {
    seq![
        req_slot("name"@, x.name@),
        req_slot("code"@, x.code@),
        opt_slot("id"@, x.id),
        opt_slot("plural"@, x.plural),
        opt_slot("description"@, x.description),
        flag_slot("hidden"@, x.hidden),
    ]
}

/// The attribute keys of a [`RecordType`] are distinct, and so are the names of
/// its child elements.
proof fn lemma_record_type_names(x: RecordType)
    ensures
        keys_distinct(record_type_slots(x)),
        "cocoa"@ != "synonym"@,
        "cocoa"@ != "property"@,
        "cocoa"@ != "documentation"@,
        "cocoa"@ != "xref"@,
        "synonym"@ != "property"@,
        "synonym"@ != "documentation"@,
        "synonym"@ != "xref"@,
        "property"@ != "documentation"@,
        "property"@ != "xref"@,
        "documentation"@ != "xref"@,
{
    reveal_strlit("code");
    reveal_strlit("description");
    reveal_strlit("hidden");
    reveal_strlit("id");
    reveal_strlit("name");
    reveal_strlit("plural");
    assert("name"@[0] != "code"@[0]);
    assert("name"@.len() != "id"@.len());
    assert("name"@.len() != "plural"@.len());
    assert("name"@.len() != "description"@.len());
    assert("name"@.len() != "hidden"@.len());
    assert("code"@.len() != "id"@.len());
    assert("code"@.len() != "plural"@.len());
    assert("code"@.len() != "description"@.len());
    assert("code"@.len() != "hidden"@.len());
    assert("id"@.len() != "plural"@.len());
    assert("id"@.len() != "description"@.len());
    assert("id"@.len() != "hidden"@.len());
    assert("plural"@.len() != "description"@.len());
    assert("plural"@[0] != "hidden"@[0]);
    assert("description"@.len() != "hidden"@.len());
    reveal_strlit("cocoa");
    reveal_strlit("documentation");
    reveal_strlit("property");
    reveal_strlit("synonym");
    reveal_strlit("xref");
    assert("cocoa"@.len() != "synonym"@.len());
    assert("cocoa"@.len() != "property"@.len());
    assert("cocoa"@.len() != "documentation"@.len());
    assert("cocoa"@.len() != "xref"@.len());
    assert("synonym"@.len() != "property"@.len());
    assert("synonym"@.len() != "documentation"@.len());
    assert("synonym"@.len() != "xref"@.len());
    assert("property"@.len() != "documentation"@.len());
    assert("property"@.len() != "xref"@.len());
    assert("documentation"@.len() != "xref"@.len());
}

impl ReadsBack for RecordType {
    open spec fn event_span(self) -> int {
        element_span(many_span(opt_seq(self.cocoa)) + many_span(self.synonyms@) + many_span(self.properties@) + many_span(self.documentation@) + many_span(self.xrefs@))
    }

    open spec fn spelled(self, evs: Seq<EventView>, i: int, tag: Seq<char>) -> bool {
        &&& element_spelled(evs, i, tag, record_type_slots(self), many_span(opt_seq(self.cocoa)) + many_span(self.synonyms@) + many_span(self.properties@) + many_span(self.documentation@) + many_span(self.xrefs@))
        &&& many_spelled(opt_seq(self.cocoa), evs, i + 1, "cocoa"@)
        &&& many_spelled(self.synonyms@, evs, i + 1 + many_span(opt_seq(self.cocoa)), "synonym"@)
        &&& many_spelled(self.properties@, evs, i + 1 + many_span(opt_seq(self.cocoa)) + many_span(self.synonyms@), "property"@)
        &&& many_spelled(self.documentation@, evs, i + 1 + many_span(opt_seq(self.cocoa)) + many_span(self.synonyms@) + many_span(self.properties@), "documentation"@)
        &&& many_spelled(self.xrefs@, evs, i + 1 + many_span(opt_seq(self.cocoa)) + many_span(self.synonyms@) + many_span(self.properties@) + many_span(self.documentation@), "xref"@)
    }

    open spec fn writable(self) -> bool {
        &&& all_writable(opt_seq(self.cocoa))
        &&& all_writable(self.synonyms@)
        &&& all_writable(self.properties@)
        &&& all_writable(self.documentation@)
        &&& all_writable(self.xrefs@)
    }

    #[verifier::spinoff_prover]
    #[verifier::rlimit(100)]
    proof fn lemma_reads_back(self, evs: Seq<EventView>, i: int, tag: Seq<char>) {
        let slots = record_type_slots(self);
        lemma_record_type_names(self);
        let p0 = i + 1;
        let k0: Seq<int> = seq![];
        lemma_decode_empty(evs);
        assert(kids_from(evs, p0) =~= k0 + kids_from(evs, p0));
        let g0 = opt_seq(self.cocoa);
        lemma_many_reads_back(g0, evs, p0, "cocoa"@);
        let s0 = many_starts(g0, p0);
        let p1 = p0 + many_span(g0);
        let k1 = k0 + s0;
        lemma_seq_assoc(k0, s0, kids_from(evs, p1));
        lemma_starts_tagged(g0, evs, p0, "cocoa"@);
        lemma_tagged_decode(evs, s0, "cocoa"@);
        lemma_decode_append(evs, k0, s0);
        let g1 = self.synonyms@;
        lemma_many_reads_back(g1, evs, p1, "synonym"@);
        let s1 = many_starts(g1, p1);
        let p2 = p1 + many_span(g1);
        let k2 = k1 + s1;
        lemma_seq_assoc(k1, s1, kids_from(evs, p2));
        lemma_starts_tagged(g1, evs, p1, "synonym"@);
        lemma_tagged_decode(evs, s1, "synonym"@);
        lemma_decode_append(evs, k1, s1);
        let g2 = self.properties@;
        lemma_many_reads_back(g2, evs, p2, "property"@);
        let s2 = many_starts(g2, p2);
        let p3 = p2 + many_span(g2);
        let k3 = k2 + s2;
        lemma_seq_assoc(k2, s2, kids_from(evs, p3));
        lemma_starts_tagged(g2, evs, p2, "property"@);
        lemma_tagged_decode(evs, s2, "property"@);
        lemma_decode_append(evs, k2, s2);
        let g3 = self.documentation@;
        lemma_many_reads_back(g3, evs, p3, "documentation"@);
        let s3 = many_starts(g3, p3);
        let p4 = p3 + many_span(g3);
        let k4 = k3 + s3;
        lemma_seq_assoc(k3, s3, kids_from(evs, p4));
        lemma_starts_tagged(g3, evs, p3, "documentation"@);
        lemma_tagged_decode(evs, s3, "documentation"@);
        lemma_decode_append(evs, k3, s3);
        let g4 = self.xrefs@;
        lemma_many_reads_back(g4, evs, p4, "xref"@);
        let s4 = many_starts(g4, p4);
        let p5 = p4 + many_span(g4);
        let k5 = k4 + s4;
        lemma_seq_assoc(k4, s4, kids_from(evs, p5));
        lemma_starts_tagged(g4, evs, p4, "xref"@);
        lemma_tagged_decode(evs, s4, "xref"@);
        lemma_decode_append(evs, k4, s4);
        let n = p5 - p0;
        assert(forall|close: Seq<u8>| #![trigger content_end(evs, p0, close)] content_end(evs, p0, close) == content_end(evs, p0 + n, close));
        lemma_element_tags(evs, i, tag, slots, n, k5);
        lemma_named_extend(evs, k0, s0, "cocoa"@, "cocoa"@);
        lemma_named_extend(evs, k1, s1, "synonym"@, "cocoa"@);
        lemma_named_extend(evs, k2, s2, "property"@, "cocoa"@);
        lemma_named_extend(evs, k3, s3, "documentation"@, "cocoa"@);
        lemma_named_extend(evs, k4, s4, "xref"@, "cocoa"@);
        assert(k0 + s0 =~= s0);
        lemma_named_extend(evs, k0, s0, "cocoa"@, "synonym"@);
        lemma_named_extend(evs, k1, s1, "synonym"@, "synonym"@);
        lemma_named_extend(evs, k2, s2, "property"@, "synonym"@);
        lemma_named_extend(evs, k3, s3, "documentation"@, "synonym"@);
        lemma_named_extend(evs, k4, s4, "xref"@, "synonym"@);
        assert(k0 + s1 =~= s1);
        lemma_named_extend(evs, k0, s0, "cocoa"@, "property"@);
        lemma_named_extend(evs, k1, s1, "synonym"@, "property"@);
        lemma_named_extend(evs, k2, s2, "property"@, "property"@);
        lemma_named_extend(evs, k3, s3, "documentation"@, "property"@);
        lemma_named_extend(evs, k4, s4, "xref"@, "property"@);
        assert(k0 + s2 =~= s2);
        lemma_named_extend(evs, k0, s0, "cocoa"@, "documentation"@);
        lemma_named_extend(evs, k1, s1, "synonym"@, "documentation"@);
        lemma_named_extend(evs, k2, s2, "property"@, "documentation"@);
        lemma_named_extend(evs, k3, s3, "documentation"@, "documentation"@);
        lemma_named_extend(evs, k4, s4, "xref"@, "documentation"@);
        assert(k0 + s3 =~= s3);
        lemma_named_extend(evs, k0, s0, "cocoa"@, "xref"@);
        lemma_named_extend(evs, k1, s1, "synonym"@, "xref"@);
        lemma_named_extend(evs, k2, s2, "property"@, "xref"@);
        lemma_named_extend(evs, k3, s3, "documentation"@, "xref"@);
        lemma_named_extend(evs, k4, s4, "xref"@, "xref"@);
        assert(k0 + s4 =~= s4);
        lemma_decode_clean(evs, k5);
        let a = tag_attrs(evs[i]);
        lemma_attrs_read_back(a, slots, 0);
        lemma_attrs_read_back(a, slots, 1);
        lemma_attrs_read_back(a, slots, 2);
        lemma_attrs_read_back(a, slots, 3);
        lemma_attrs_read_back(a, slots, 4);
        lemma_attrs_read_back(a, slots, 5);
        lemma_flag_reads_back(self.hidden);
    }
}

/// Strict mode knows the name a [`RecordType`] is written with, and checks none
/// of its attributes against a closed set.
proof fn lemma_record_type_strict_name()
    ensures
        known_names().contains("record-type"@),
        closed_rule("record-type"@) is None,
{
    reveal_strlit("record-type");
    reveal_strlit("accessor");
    assert("record-type"@.len() != "accessor"@.len());
    reveal_strlit("access-group");
    assert("record-type"@.len() != "access-group"@.len());
    reveal_strlit("cocoa");
    assert("record-type"@.len() != "cocoa"@.len());
    reveal_strlit("contents");
    assert("record-type"@.len() != "contents"@.len());
    reveal_strlit("direct-parameter");
    assert("record-type"@.len() != "direct-parameter"@.len());
    reveal_strlit("element");
    assert("record-type"@.len() != "element"@.len());
    reveal_strlit("parameter");
    assert("record-type"@.len() != "parameter"@.len());
    reveal_strlit("property");
    assert("record-type"@.len() != "property"@.len());
    assert(known_names()[17] == "record-type"@);
}

impl StrictSafe for RecordType {
    open spec fn element_name() -> Seq<char> {
        "record-type"@
    }

    open spec fn canonical(self) -> bool {
        &&& all_canonical(opt_seq(self.cocoa))
        &&& all_canonical(self.synonyms@)
        &&& all_canonical(self.properties@)
        &&& all_canonical(self.documentation@)
        &&& all_canonical(self.xrefs@)
    }

    proof fn lemma_passes_strict(self, evs: Seq<EventView>, i: int) {
        let slots = record_type_slots(self);
        lemma_record_type_names(self);
        lemma_record_type_strict_name();
        let p0 = i + 1;
        lemma_many_pass_strict(opt_seq(self.cocoa), evs, p0);
        let p1 = p0 + many_span(opt_seq(self.cocoa));
        lemma_many_pass_strict(self.synonyms@, evs, p1);
        let p2 = p1 + many_span(self.synonyms@);
        lemma_many_pass_strict(self.properties@, evs, p2);
        let p3 = p2 + many_span(self.properties@);
        lemma_many_pass_strict(self.documentation@, evs, p3);
        let p4 = p3 + many_span(self.documentation@);
        lemma_many_pass_strict(self.xrefs@, evs, p4);
        let p5 = p4 + many_span(self.xrefs@);
        lemma_tags_pass_strict(evs, i, "record-type"@, slots, p5 - p0);
    }
}

/// A `<value-type>` — an opaque scalar type with no accessible properties or
/// elements, typically backed by a Cocoa class such as `NSColor`.
#[derive(Debug, Clone, Hash, PartialEq, Eq)]
#[non_exhaustive]
pub struct ValueType {
    /// Type name (`name="…"`).
    pub name: String,
    /// Four-character code (`code="…"`).
    pub code: String,
    /// `id="…"` — optional unique identifier.
    pub id: Option<String>,
    /// Optional plural form (`plural="…"`).
    pub plural: Option<String>,
    /// Optional human description (`description="…"`).
    pub description: Option<String>,
    /// `hidden="yes"` flag, defaults to `false`.
    pub hidden: bool,
    /// Optional `<cocoa>` implementation hint.
    pub cocoa: Option<Cocoa>,
    /// `<synonym>` children.
    pub synonyms: Vec<Synonym>,
    /// `<documentation>` children.
    pub documentation: Vec<Documentation>,
    /// `<xref>` children.
    pub xrefs: Vec<Xref>,
}

impl FromXml for ValueType {
    open spec fn xml_ok(evs: Seq<EventView>, i: int) -> bool {
        let a = tag_attrs(evs[i]);
        let ks = children(evs, i);
        &&& node_ok(evs, i)
        &&& req_value(a, "name"@) is Some
        &&& req_value(a, "code"@) is Some
        &&& attr_value(a, "id"@) is Ok
        &&& attr_value(a, "plural"@) is Ok
        &&& attr_value(a, "description"@) is Ok
        &&& flag_value(a, "hidden"@) is Ok
        &&& one_ok::<Cocoa>(evs, ks, "cocoa"@)
        &&& many_ok::<Synonym>(evs, ks, "synonym"@)
        &&& many_ok::<Documentation>(evs, ks, "documentation"@)
        &&& many_ok::<Xref>(evs, ks, "xref"@)
    }

    open spec fn xml_rel(self, evs: Seq<EventView>, i: int) -> bool {
        let a = tag_attrs(evs[i]);
        let ks = children(evs, i);
        &&& req_value(a, "name"@) == Some(self.name@)
        &&& req_value(a, "code"@) == Some(self.code@)
        &&& text_of(self.id) == opt_value(a, "id"@)
        &&& text_of(self.plural) == opt_value(a, "plural"@)
        &&& text_of(self.description) == opt_value(a, "description"@)
        &&& flag_value(a, "hidden"@) == Ok::<bool, ()>(self.hidden)
        &&& one_rel(self.cocoa, evs, ks, "cocoa"@)
        &&& many_rel(self.synonyms, evs, ks, "synonym"@)
        &&& many_rel(self.documentation, evs, ks, "documentation"@)
        &&& many_rel(self.xrefs, evs, ks, "xref"@)
    }

    fn from_xml(evs: &Vec<XmlEvent>, i: usize) -> (r: Result<Self, Error>) {
        let ks = readable_children(evs, i)?;
        let a = attrs_at(evs, i);
        let name = required(a, "name")?;
        let code = required(a, "code")?;
        let id = attribute(a, "id")?;
        let plural = attribute(a, "plural")?;
        let description = attribute(a, "description")?;
        let hidden = flag(a, "hidden")?;
        let cocoa = at_most_one::<Cocoa>(evs, &ks, "cocoa")?;
        let synonyms = many::<Synonym>(evs, &ks, "synonym")?;
        let documentation = many::<Documentation>(evs, &ks, "documentation")?;
        let xrefs = many::<Xref>(evs, &ks, "xref")?;
        Ok(ValueType { name, code, id, plural, description, hidden, cocoa, synonyms, documentation, xrefs })
    }
}

impl ToXml for ValueType {
    open spec fn xml_text(self, tag: Seq<char>) -> Seq<char> {
        element_xml(
            tag,
            attr_text("name"@, self.name@) +
                attr_text("code"@, self.code@) +
                opt_attr_text("id"@, self.id) +
                opt_attr_text("plural"@, self.plural) +
                opt_attr_text("description"@, self.description) +
                flag_attr_text("hidden"@, self.hidden),
            one_text(self.cocoa, "cocoa"@) +
                many_text(self.synonyms@, "synonym"@) +
                many_text(self.documentation@, "documentation"@) +
                many_text(self.xrefs@, "xref"@),
        )
    }

    fn write_xml(&self, tag: &str, out: &mut String) {
        let mut attrs = String::new();
        push_attr(&mut attrs, "name", self.name.as_str());
        assert(attrs@ =~= attr_text("name"@, self.name@));
        push_attr(&mut attrs, "code", self.code.as_str());
        push_opt_attr(&mut attrs, "id", &self.id);
        push_opt_attr(&mut attrs, "plural", &self.plural);
        push_opt_attr(&mut attrs, "description", &self.description);
        push_flag_attr(&mut attrs, "hidden", self.hidden);
        let mut body = String::new();
        write_one(&self.cocoa, "cocoa", &mut body);
        assert(body@ =~= one_text(self.cocoa, "cocoa"@));
        write_many(&self.synonyms, "synonym", &mut body);
        write_many(&self.documentation, "documentation", &mut body);
        write_many(&self.xrefs, "xref", &mut body);
        write_element(out, tag, &attrs, &body);
    }
}

/// The attribute slots written for a [`ValueType`].
pub open spec fn value_type_slots(x: ValueType) -> Seq<(Seq<char>, Option<Seq<char>>)> {
    seq![
        req_slot("name"@, x.name@),
        req_slot("code"@, x.code@),
        opt_slot("id"@, x.id),
        opt_slot("plural"@, x.plural),
        opt_slot("description"@, x.description),
        flag_slot("hidden"@, x.hidden),
    ]
}

/// The attribute keys of a [`ValueType`] are distinct, and so are the names of
/// its child elements.
proof fn lemma_value_type_names(x: ValueType)
    ensures
        keys_distinct(value_type_slots(x)),
        "cocoa"@ != "synonym"@,
        "cocoa"@ != "documentation"@,
        "cocoa"@ != "xref"@,
        "synonym"@ != "documentation"@,
        "synonym"@ != "xref"@,
        "documentation"@ != "xref"@,
{
    reveal_strlit("code");
    reveal_strlit("description");
    reveal_strlit("hidden");
    reveal_strlit("id");
    reveal_strlit("name");
    reveal_strlit("plural");
    assert("name"@[0] != "code"@[0]);
    assert("name"@.len() != "id"@.len());
    assert("name"@.len() != "plural"@.len());
    assert("name"@.len() != "description"@.len());
    assert("name"@.len() != "hidden"@.len());
    assert("code"@.len() != "id"@.len());
    assert("code"@.len() != "plural"@.len());
    assert("code"@.len() != "description"@.len());
    assert("code"@.len() != "hidden"@.len());
    assert("id"@.len() != "plural"@.len());
    assert("id"@.len() != "description"@.len());
    assert("id"@.len() != "hidden"@.len());
    assert("plural"@.len() != "description"@.len());
    assert("plural"@[0] != "hidden"@[0]);
    assert("description"@.len() != "hidden"@.len());
    reveal_strlit("cocoa");
    reveal_strlit("documentation");
    reveal_strlit("synonym");
    reveal_strlit("xref");
    assert("cocoa"@.len() != "synonym"@.len());
    assert("cocoa"@.len() != "documentation"@.len());
    assert("cocoa"@.len() != "xref"@.len());
    assert("synonym"@.len() != "documentation"@.len());
    assert("synonym"@.len() != "xref"@.len());
    assert("documentation"@.len() != "xref"@.len());
}

impl ReadsBack for ValueType {
    open spec fn event_span(self) -> int {
        element_span(many_span(opt_seq(self.cocoa)) + many_span(self.synonyms@) + many_span(self.documentation@) + many_span(self.xrefs@))
    }

    open spec fn spelled(self, evs: Seq<EventView>, i: int, tag: Seq<char>) -> bool {
        &&& element_spelled(evs, i, tag, value_type_slots(self), many_span(opt_seq(self.cocoa)) + many_span(self.synonyms@) + many_span(self.documentation@) + many_span(self.xrefs@))
        &&& many_spelled(opt_seq(self.cocoa), evs, i + 1, "cocoa"@)
        &&& many_spelled(self.synonyms@, evs, i + 1 + many_span(opt_seq(self.cocoa)), "synonym"@)
        &&& many_spelled(self.documentation@, evs, i + 1 + many_span(opt_seq(self.cocoa)) + many_span(self.synonyms@), "documentation"@)
        &&& many_spelled(self.xrefs@, evs, i + 1 + many_span(opt_seq(self.cocoa)) + many_span(self.synonyms@) + many_span(self.documentation@), "xref"@)
    }

    open spec fn writable(self) -> bool {
        &&& all_writable(opt_seq(self.cocoa))
        &&& all_writable(self.synonyms@)
        &&& all_writable(self.documentation@)
        &&& all_writable(self.xrefs@)
    }

    #[verifier::spinoff_prover]
    #[verifier::rlimit(100)]
    proof fn lemma_reads_back(self, evs: Seq<EventView>, i: int, tag: Seq<char>) {
        let slots = value_type_slots(self);
        lemma_value_type_names(self);
        let p0 = i + 1;
        let k0: Seq<int> = seq![];
        lemma_decode_empty(evs);
        assert(kids_from(evs, p0) =~= k0 + kids_from(evs, p0));
        let g0 = opt_seq(self.cocoa);
        lemma_many_reads_back(g0, evs, p0, "cocoa"@);
        let s0 = many_starts(g0, p0);
        let p1 = p0 + many_span(g0);
        let k1 = k0 + s0;
        lemma_seq_assoc(k0, s0, kids_from(evs, p1));
        lemma_starts_tagged(g0, evs, p0, "cocoa"@);
        lemma_tagged_decode(evs, s0, "cocoa"@);
        lemma_decode_append(evs, k0, s0);
        let g1 = self.synonyms@;
        lemma_many_reads_back(g1, evs, p1, "synonym"@);
        let s1 = many_starts(g1, p1);
        let p2 = p1 + many_span(g1);
        let k2 = k1 + s1;
        lemma_seq_assoc(k1, s1, kids_from(evs, p2));
        lemma_starts_tagged(g1, evs, p1, "synonym"@);
        lemma_tagged_decode(evs, s1, "synonym"@);
        lemma_decode_append(evs, k1, s1);
        let g2 = self.documentation@;
        lemma_many_reads_back(g2, evs, p2, "documentation"@);
        let s2 = many_starts(g2, p2);
        let p3 = p2 + many_span(g2);
        let k3 = k2 + s2;
        lemma_seq_assoc(k2, s2, kids_from(evs, p3));
        lemma_starts_tagged(g2, evs, p2, "documentation"@);
        lemma_tagged_decode(evs, s2, "documentation"@);
        lemma_decode_append(evs, k2, s2);
        let g3 = self.xrefs@;
        lemma_many_reads_back(g3, evs, p3, "xref"@);
        let s3 = many_starts(g3, p3);
        let p4 = p3 + many_span(g3);
        let k4 = k3 + s3;
        lemma_seq_assoc(k3, s3, kids_from(evs, p4));
        lemma_starts_tagged(g3, evs, p3, "xref"@);
        lemma_tagged_decode(evs, s3, "xref"@);
        lemma_decode_append(evs, k3, s3);
        let n = p4 - p0;
        assert(forall|close: Seq<u8>| #![trigger content_end(evs, p0, close)] content_end(evs, p0, close) == content_end(evs, p0 + n, close));
        lemma_element_tags(evs, i, tag, slots, n, k4);
        lemma_named_extend(evs, k0, s0, "cocoa"@, "cocoa"@);
        lemma_named_extend(evs, k1, s1, "synonym"@, "cocoa"@);
        lemma_named_extend(evs, k2, s2, "documentation"@, "cocoa"@);
        lemma_named_extend(evs, k3, s3, "xref"@, "cocoa"@);
        assert(k0 + s0 =~= s0);
        lemma_named_extend(evs, k0, s0, "cocoa"@, "synonym"@);
        lemma_named_extend(evs, k1, s1, "synonym"@, "synonym"@);
        lemma_named_extend(evs, k2, s2, "documentation"@, "synonym"@);
        lemma_named_extend(evs, k3, s3, "xref"@, "synonym"@);
        assert(k0 + s1 =~= s1);
        lemma_named_extend(evs, k0, s0, "cocoa"@, "documentation"@);
        lemma_named_extend(evs, k1, s1, "synonym"@, "documentation"@);
        lemma_named_extend(evs, k2, s2, "documentation"@, "documentation"@);
        lemma_named_extend(evs, k3, s3, "xref"@, "documentation"@);
        assert(k0 + s2 =~= s2);
        lemma_named_extend(evs, k0, s0, "cocoa"@, "xref"@);
        lemma_named_extend(evs, k1, s1, "synonym"@, "xref"@);
        lemma_named_extend(evs, k2, s2, "documentation"@, "xref"@);
        lemma_named_extend(evs, k3, s3, "xref"@, "xref"@);
        assert(k0 + s3 =~= s3);
        lemma_decode_clean(evs, k4);
        let a = tag_attrs(evs[i]);
        lemma_attrs_read_back(a, slots, 0);
        lemma_attrs_read_back(a, slots, 1);
        lemma_attrs_read_back(a, slots, 2);
        lemma_attrs_read_back(a, slots, 3);
        lemma_attrs_read_back(a, slots, 4);
        lemma_attrs_read_back(a, slots, 5);
        lemma_flag_reads_back(self.hidden);
    }
}

/// Strict mode knows the name a [`ValueType`] is written with, and checks none
/// of its attributes against a closed set.
proof fn lemma_value_type_strict_name()
    ensures
        known_names().contains("value-type"@),
        closed_rule("value-type"@) is None,
{
    reveal_strlit("value-type");
    reveal_strlit("accessor");
    assert("value-type"@.len() != "accessor"@.len());
    reveal_strlit("access-group");
    assert("value-type"@.len() != "access-group"@.len());
    reveal_strlit("cocoa");
    assert("value-type"@.len() != "cocoa"@.len());
    reveal_strlit("contents");
    assert("value-type"@.len() != "contents"@.len());
    reveal_strlit("direct-parameter");
    assert("value-type"@.len() != "direct-parameter"@.len());
    reveal_strlit("element");
    assert("value-type"@.len() != "element"@.len());
    reveal_strlit("parameter");
    assert("value-type"@.len() != "parameter"@.len());
    reveal_strlit("property");
    assert("value-type"@.len() != "property"@.len());
    assert(known_names()[23] == "value-type"@);
}

impl StrictSafe for ValueType {
    open spec fn element_name() -> Seq<char> {
        "value-type"@
    }

    open spec fn canonical(self) -> bool {
        &&& all_canonical(opt_seq(self.cocoa))
        &&& all_canonical(self.synonyms@)
        &&& all_canonical(self.documentation@)
        &&& all_canonical(self.xrefs@)
    }

    proof fn lemma_passes_strict(self, evs: Seq<EventView>, i: int) {
        let slots = value_type_slots(self);
        lemma_value_type_names(self);
        lemma_value_type_strict_name();
        let p0 = i + 1;
        lemma_many_pass_strict(opt_seq(self.cocoa), evs, p0);
        let p1 = p0 + many_span(opt_seq(self.cocoa));
        lemma_many_pass_strict(self.synonyms@, evs, p1);
        let p2 = p1 + many_span(self.synonyms@);
        lemma_many_pass_strict(self.documentation@, evs, p2);
        let p3 = p2 + many_span(self.documentation@);
        lemma_many_pass_strict(self.xrefs@, evs, p3);
        let p4 = p3 + many_span(self.xrefs@);
        lemma_tags_pass_strict(evs, i, "value-type"@, slots, p4 - p0);
    }
}

/// A `<property>` — a named, typed member of a `<class>`, `<class-extension>`,
/// or `<record-type>`. Properties model attributes and to-one relationships.
#[derive(Debug, Clone, Hash, PartialEq, Eq)]
#[non_exhaustive]
pub struct Property {
    /// Property name (`name="…"`).
    pub name: String,
    /// Four-character code (`code="…"`).
    pub code: String,
    /// `id="…"` — optional unique identifier.
    pub id: Option<String>,
    /// Property value type (`type="…"`). Mutually exclusive with `<type>`
    /// child elements in well-formed sdefs.
    pub ty: Option<String>,
    /// `access="r|w|rw"` — defaults to `rw` per the man page; `None` when
    /// the attribute is absent.
    pub access: Option<Access>,
    /// `in-properties="yes|no"` — `None` when the attribute is omitted
    /// (the DTD default is `yes`).
    pub in_properties: Option<bool>,
    /// `hidden="yes"` flag, defaults to `false`.
    pub hidden: bool,
    /// Optional human description (`description="…"`).
    pub description: Option<String>,
    /// Optional `<cocoa>` implementation hint child.
    pub cocoa: Option<Cocoa>,
    /// Zero or more `<access-group>` entitlement children.
    pub access_groups: Vec<AccessGroup>,
    /// `<type>` child elements (list/union expressions).
    pub types: Vec<TypeRef>,
    /// `<synonym>` children.
    pub synonyms: Vec<Synonym>,
    /// `<documentation>` children.
    pub documentation: Vec<Documentation>,
}

impl FromXml for Property {
    open spec fn xml_ok(evs: Seq<EventView>, i: int) -> bool {
        let a = tag_attrs(evs[i]);
        let ks = children(evs, i);
        &&& node_ok(evs, i)
        &&& req_value(a, "name"@) is Some
        &&& req_value(a, "code"@) is Some
        &&& attr_value(a, "id"@) is Ok
        &&& attr_value(a, "type"@) is Ok
        &&& attr_value(a, "access"@) is Ok
        &&& flag_opt_value(a, "in-properties"@) is Ok
        &&& flag_value(a, "hidden"@) is Ok
        &&& attr_value(a, "description"@) is Ok
        &&& one_ok::<Cocoa>(evs, ks, "cocoa"@)
        &&& many_ok::<AccessGroup>(evs, ks, "access-group"@)
        &&& many_ok::<TypeRef>(evs, ks, "type"@)
        &&& many_ok::<Synonym>(evs, ks, "synonym"@)
        &&& many_ok::<Documentation>(evs, ks, "documentation"@)
    }

    open spec fn xml_rel(self, evs: Seq<EventView>, i: int) -> bool {
        let a = tag_attrs(evs[i]);
        let ks = children(evs, i);
        &&& req_value(a, "name"@) == Some(self.name@)
        &&& req_value(a, "code"@) == Some(self.code@)
        &&& text_of(self.id) == opt_value(a, "id"@)
        &&& text_of(self.ty) == opt_value(a, "type"@)
        &&& access_rel(self.access, opt_value(a, "access"@))
        &&& flag_opt_value(a, "in-properties"@) == Ok::<Option<bool>, ()>(self.in_properties)
        &&& flag_value(a, "hidden"@) == Ok::<bool, ()>(self.hidden)
        &&& text_of(self.description) == opt_value(a, "description"@)
        &&& one_rel(self.cocoa, evs, ks, "cocoa"@)
        &&& many_rel(self.access_groups, evs, ks, "access-group"@)
        &&& many_rel(self.types, evs, ks, "type"@)
        &&& many_rel(self.synonyms, evs, ks, "synonym"@)
        &&& many_rel(self.documentation, evs, ks, "documentation"@)
    }

    fn from_xml(evs: &Vec<XmlEvent>, i: usize) -> (r: Result<Self, Error>) {
        let ks = readable_children(evs, i)?;
        let a = attrs_at(evs, i);
        let name = required(a, "name")?;
        let code = required(a, "code")?;
        let id = attribute(a, "id")?;
        let ty = attribute(a, "type")?;
        let access = access_attr(a, "access")?;
        let in_properties = flag_opt(a, "in-properties")?;
        let hidden = flag(a, "hidden")?;
        let description = attribute(a, "description")?;
        let cocoa = at_most_one::<Cocoa>(evs, &ks, "cocoa")?;
        let access_groups = many::<AccessGroup>(evs, &ks, "access-group")?;
        let types = many::<TypeRef>(evs, &ks, "type")?;
        let synonyms = many::<Synonym>(evs, &ks, "synonym")?;
        let documentation = many::<Documentation>(evs, &ks, "documentation")?;
        Ok(Property { name, code, id, ty, access, in_properties, hidden, description, cocoa, access_groups, types, synonyms, documentation })
    }
}

impl ToXml for Property {
    open spec fn xml_text(self, tag: Seq<char>) -> Seq<char> {
        element_xml(
            tag,
            attr_text("name"@, self.name@) +
                attr_text("code"@, self.code@) +
                opt_attr_text("id"@, self.id) +
                opt_attr_text("type"@, self.ty) +
                access_attr_text("access"@, self.access) +
                flag_opt_attr_text("in-properties"@, self.in_properties) +
                flag_attr_text("hidden"@, self.hidden) +
                opt_attr_text("description"@, self.description),
            one_text(self.cocoa, "cocoa"@) +
                many_text(self.access_groups@, "access-group"@) +
                many_text(self.types@, "type"@) +
                many_text(self.synonyms@, "synonym"@) +
                many_text(self.documentation@, "documentation"@),
        )
    }

    fn write_xml(&self, tag: &str, out: &mut String) {
        let mut attrs = String::new();
        push_attr(&mut attrs, "name", self.name.as_str());
        assert(attrs@ =~= attr_text("name"@, self.name@));
        push_attr(&mut attrs, "code", self.code.as_str());
        push_opt_attr(&mut attrs, "id", &self.id);
        push_opt_attr(&mut attrs, "type", &self.ty);
        push_access_attr(&mut attrs, "access", &self.access);
        push_flag_opt_attr(&mut attrs, "in-properties", self.in_properties);
        push_flag_attr(&mut attrs, "hidden", self.hidden);
        push_opt_attr(&mut attrs, "description", &self.description);
        let mut body = String::new();
        write_one(&self.cocoa, "cocoa", &mut body);
        assert(body@ =~= one_text(self.cocoa, "cocoa"@));
        write_many(&self.access_groups, "access-group", &mut body);
        write_many(&self.types, "type", &mut body);
        write_many(&self.synonyms, "synonym", &mut body);
        write_many(&self.documentation, "documentation", &mut body);
        write_element(out, tag, &attrs, &body);
    }
}

/// The attribute slots written for a [`Property`].
pub open spec fn property_slots(x: Property) -> Seq<(Seq<char>, Option<Seq<char>>)> {
    seq![
        req_slot("name"@, x.name@),
        req_slot("code"@, x.code@),
        opt_slot("id"@, x.id),
        opt_slot("type"@, x.ty),
        access_slot("access"@, x.access),
        flag_opt_slot("in-properties"@, x.in_properties),
        flag_slot("hidden"@, x.hidden),
        opt_slot("description"@, x.description),
    ]
}

/// The attribute keys of a [`Property`] are distinct, and so are the names of
/// its child elements.
proof fn lemma_property_names(x: Property)
    ensures
        keys_distinct(property_slots(x)),
        "cocoa"@ != "access-group"@,
        "cocoa"@ != "type"@,
        "cocoa"@ != "synonym"@,
        "cocoa"@ != "documentation"@,
        "access-group"@ != "type"@,
        "access-group"@ != "synonym"@,
        "access-group"@ != "documentation"@,
        "type"@ != "synonym"@,
        "type"@ != "documentation"@,
        "synonym"@ != "documentation"@,
{
    reveal_strlit("access");
    reveal_strlit("code");
    reveal_strlit("description");
    reveal_strlit("hidden");
    reveal_strlit("id");
    reveal_strlit("in-properties");
    reveal_strlit("name");
    reveal_strlit("type");
    assert("name"@[0] != "code"@[0]);
    assert("name"@.len() != "id"@.len());
    assert("name"@[0] != "type"@[0]);
    assert("name"@.len() != "access"@.len());
    assert("name"@.len() != "in-properties"@.len());
    assert("name"@.len() != "hidden"@.len());
    assert("name"@.len() != "description"@.len());
    assert("code"@.len() != "id"@.len());
    assert("code"@[0] != "type"@[0]);
    assert("code"@.len() != "access"@.len());
    assert("code"@.len() != "in-properties"@.len());
    assert("code"@.len() != "hidden"@.len());
    assert("code"@.len() != "description"@.len());
    assert("id"@.len() != "type"@.len());
    assert("id"@.len() != "access"@.len());
    assert("id"@.len() != "in-properties"@.len());
    assert("id"@.len() != "hidden"@.len());
    assert("id"@.len() != "description"@.len());
    assert("type"@.len() != "access"@.len());
    assert("type"@.len() != "in-properties"@.len());
    assert("type"@.len() != "hidden"@.len());
    assert("type"@.len() != "description"@.len());
    assert("access"@.len() != "in-properties"@.len());
    assert("access"@[0] != "hidden"@[0]);
    assert("access"@.len() != "description"@.len());
    assert("in-properties"@.len() != "hidden"@.len());
    assert("in-properties"@.len() != "description"@.len());
    assert("hidden"@.len() != "description"@.len());
    reveal_strlit("access-group");
    reveal_strlit("cocoa");
    reveal_strlit("documentation");
    reveal_strlit("synonym");
    assert("cocoa"@.len() != "access-group"@.len());
    assert("cocoa"@.len() != "type"@.len());
    assert("cocoa"@.len() != "synonym"@.len());
    assert("cocoa"@.len() != "documentation"@.len());
    assert("access-group"@.len() != "type"@.len());
    assert("access-group"@.len() != "synonym"@.len());
    assert("access-group"@.len() != "documentation"@.len());
    assert("type"@.len() != "synonym"@.len());
    assert("type"@.len() != "documentation"@.len());
    assert("synonym"@.len() != "documentation"@.len());
}

impl ReadsBack for Property {
    open spec fn event_span(self) -> int {
        element_span(many_span(opt_seq(self.cocoa)) + many_span(self.access_groups@) + many_span(self.types@) + many_span(self.synonyms@) + many_span(self.documentation@))
    }

    open spec fn spelled(self, evs: Seq<EventView>, i: int, tag: Seq<char>) -> bool {
        &&& element_spelled(evs, i, tag, property_slots(self), many_span(opt_seq(self.cocoa)) + many_span(self.access_groups@) + many_span(self.types@) + many_span(self.synonyms@) + many_span(self.documentation@))
        &&& many_spelled(opt_seq(self.cocoa), evs, i + 1, "cocoa"@)
        &&& many_spelled(self.access_groups@, evs, i + 1 + many_span(opt_seq(self.cocoa)), "access-group"@)
        &&& many_spelled(self.types@, evs, i + 1 + many_span(opt_seq(self.cocoa)) + many_span(self.access_groups@), "type"@)
        &&& many_spelled(self.synonyms@, evs, i + 1 + many_span(opt_seq(self.cocoa)) + many_span(self.access_groups@) + many_span(self.types@), "synonym"@)
        &&& many_spelled(self.documentation@, evs, i + 1 + many_span(opt_seq(self.cocoa)) + many_span(self.access_groups@) + many_span(self.types@) + many_span(self.synonyms@), "documentation"@)
    }

    open spec fn writable(self) -> bool {
        &&& access_writable(self.access)
        &&& all_writable(opt_seq(self.cocoa))
        &&& all_writable(self.access_groups@)
        &&& all_writable(self.types@)
        &&& all_writable(self.synonyms@)
        &&& all_writable(self.documentation@)
    }

    #[verifier::spinoff_prover]
    #[verifier::rlimit(100)]
    proof fn lemma_reads_back(self, evs: Seq<EventView>, i: int, tag: Seq<char>) {
        let slots = property_slots(self);
        lemma_property_names(self);
        let p0 = i + 1;
        let k0: Seq<int> = seq![];
        lemma_decode_empty(evs);
        assert(kids_from(evs, p0) =~= k0 + kids_from(evs, p0));
        let g0 = opt_seq(self.cocoa);
        lemma_many_reads_back(g0, evs, p0, "cocoa"@);
        let s0 = many_starts(g0, p0);
        let p1 = p0 + many_span(g0);
        let k1 = k0 + s0;
        lemma_seq_assoc(k0, s0, kids_from(evs, p1));
        lemma_starts_tagged(g0, evs, p0, "cocoa"@);
        lemma_tagged_decode(evs, s0, "cocoa"@);
        lemma_decode_append(evs, k0, s0);
        let g1 = self.access_groups@;
        lemma_many_reads_back(g1, evs, p1, "access-group"@);
        let s1 = many_starts(g1, p1);
        let p2 = p1 + many_span(g1);
        let k2 = k1 + s1;
        lemma_seq_assoc(k1, s1, kids_from(evs, p2));
        lemma_starts_tagged(g1, evs, p1, "access-group"@);
        lemma_tagged_decode(evs, s1, "access-group"@);
        lemma_decode_append(evs, k1, s1);
        let g2 = self.types@;
        lemma_many_reads_back(g2, evs, p2, "type"@);
        let s2 = many_starts(g2, p2);
        let p3 = p2 + many_span(g2);
        let k3 = k2 + s2;
        lemma_seq_assoc(k2, s2, kids_from(evs, p3));
        lemma_starts_tagged(g2, evs, p2, "type"@);
        lemma_tagged_decode(evs, s2, "type"@);
        lemma_decode_append(evs, k2, s2);
        let g3 = self.synonyms@;
        lemma_many_reads_back(g3, evs, p3, "synonym"@);
        let s3 = many_starts(g3, p3);
        let p4 = p3 + many_span(g3);
        let k4 = k3 + s3;
        lemma_seq_assoc(k3, s3, kids_from(evs, p4));
        lemma_starts_tagged(g3, evs, p3, "synonym"@);
        lemma_tagged_decode(evs, s3, "synonym"@);
        lemma_decode_append(evs, k3, s3);
        let g4 = self.documentation@;
        lemma_many_reads_back(g4, evs, p4, "documentation"@);
        let s4 = many_starts(g4, p4);
        let p5 = p4 + many_span(g4);
        let k5 = k4 + s4;
        lemma_seq_assoc(k4, s4, kids_from(evs, p5));
        lemma_starts_tagged(g4, evs, p4, "documentation"@);
        lemma_tagged_decode(evs, s4, "documentation"@);
        lemma_decode_append(evs, k4, s4);
        let n = p5 - p0;
        assert(forall|close: Seq<u8>| #![trigger content_end(evs, p0, close)] content_end(evs, p0, close) == content_end(evs, p0 + n, close));
        lemma_element_tags(evs, i, tag, slots, n, k5);
        lemma_named_extend(evs, k0, s0, "cocoa"@, "cocoa"@);
        lemma_named_extend(evs, k1, s1, "access-group"@, "cocoa"@);
        lemma_named_extend(evs, k2, s2, "type"@, "cocoa"@);
        lemma_named_extend(evs, k3, s3, "synonym"@, "cocoa"@);
        lemma_named_extend(evs, k4, s4, "documentation"@, "cocoa"@);
        assert(k0 + s0 =~= s0);
        lemma_named_extend(evs, k0, s0, "cocoa"@, "access-group"@);
        lemma_named_extend(evs, k1, s1, "access-group"@, "access-group"@);
        lemma_named_extend(evs, k2, s2, "type"@, "access-group"@);
        lemma_named_extend(evs, k3, s3, "synonym"@, "access-group"@);
        lemma_named_extend(evs, k4, s4, "documentation"@, "access-group"@);
        assert(k0 + s1 =~= s1);
        lemma_named_extend(evs, k0, s0, "cocoa"@, "type"@);
        lemma_named_extend(evs, k1, s1, "access-group"@, "type"@);
        lemma_named_extend(evs, k2, s2, "type"@, "type"@);
        lemma_named_extend(evs, k3, s3, "synonym"@, "type"@);
        lemma_named_extend(evs, k4, s4, "documentation"@, "type"@);
        assert(k0 + s2 =~= s2);
        lemma_named_extend(evs, k0, s0, "cocoa"@, "synonym"@);
        lemma_named_extend(evs, k1, s1, "access-group"@, "synonym"@);
        lemma_named_extend(evs, k2, s2, "type"@, "synonym"@);
        lemma_named_extend(evs, k3, s3, "synonym"@, "synonym"@);
        lemma_named_extend(evs, k4, s4, "documentation"@, "synonym"@);
        assert(k0 + s3 =~= s3);
        lemma_named_extend(evs, k0, s0, "cocoa"@, "documentation"@);
        lemma_named_extend(evs, k1, s1, "access-group"@, "documentation"@);
        lemma_named_extend(evs, k2, s2, "type"@, "documentation"@);
        lemma_named_extend(evs, k3, s3, "synonym"@, "documentation"@);
        lemma_named_extend(evs, k4, s4, "documentation"@, "documentation"@);
        assert(k0 + s4 =~= s4);
        lemma_decode_clean(evs, k5);
        let a = tag_attrs(evs[i]);
        lemma_attrs_read_back(a, slots, 0);
        lemma_attrs_read_back(a, slots, 1);
        lemma_attrs_read_back(a, slots, 2);
        lemma_attrs_read_back(a, slots, 3);
        lemma_attrs_read_back(a, slots, 4);
        lemma_attrs_read_back(a, slots, 5);
        lemma_flag_opt_reads_back(self.in_properties);
        lemma_attrs_read_back(a, slots, 6);
        lemma_flag_reads_back(self.hidden);
        lemma_attrs_read_back(a, slots, 7);
    }
}

/// Strict mode knows the name a [`Property`] is written with, and checks its
/// `access` attribute against a closed set.
proof fn lemma_property_strict_name()
    ensures
        known_names().contains("property"@),
        closed_rule("property"@) == Some(("access"@, rw_values())),
{
    reveal_strlit("property");
    reveal_strlit("accessor");
    assert("property"@[0] != "accessor"@[0]);
    reveal_strlit("access-group");
    assert("property"@.len() != "access-group"@.len());
    reveal_strlit("cocoa");
    assert("property"@.len() != "cocoa"@.len());
    reveal_strlit("contents");
    assert("property"@[0] != "contents"@[0]);
    reveal_strlit("direct-parameter");
    assert("property"@.len() != "direct-parameter"@.len());
    reveal_strlit("element");
    assert("property"@.len() != "element"@.len());
    reveal_strlit("parameter");
    assert("property"@.len() != "parameter"@.len());
    assert(known_names()[16] == "property"@);
}

impl StrictSafe for Property {
    open spec fn element_name() -> Seq<char> {
        "property"@
    }

    open spec fn canonical(self) -> bool {
        &&& access_canonical(self.access)
        &&& all_canonical(opt_seq(self.cocoa))
        &&& all_canonical(self.access_groups@)
        &&& all_canonical(self.types@)
        &&& all_canonical(self.synonyms@)
        &&& all_canonical(self.documentation@)
    }

    proof fn lemma_passes_strict(self, evs: Seq<EventView>, i: int) {
        let slots = property_slots(self);
        lemma_property_names(self);
        lemma_property_strict_name();
        lemma_access_allowed(self.access);
        lemma_closed_attribute_passes(tag_attrs(evs[i]), slots, 4, rw_values());
        let p0 = i + 1;
        lemma_many_pass_strict(opt_seq(self.cocoa), evs, p0);
        let p1 = p0 + many_span(opt_seq(self.cocoa));
        lemma_many_pass_strict(self.access_groups@, evs, p1);
        let p2 = p1 + many_span(self.access_groups@);
        lemma_many_pass_strict(self.types@, evs, p2);
        let p3 = p2 + many_span(self.types@);
        lemma_many_pass_strict(self.synonyms@, evs, p3);
        let p4 = p3 + many_span(self.synonyms@);
        lemma_many_pass_strict(self.documentation@, evs, p4);
        let p5 = p4 + many_span(self.documentation@);
        lemma_tags_pass_strict(evs, i, "property"@, slots, p5 - p0);
    }
}
/// What the `(yes | no)` attributes of an element give the [`Enumeration`] read
/// from it: `yes` reads as set, `no` and an absent attribute as not set,
/// and any other text leaves the element unreadable.
pub proof fn lemma_enumeration_flags(x: Enumeration, evs: Seq<EventView>, i: int)
    requires
        x.xml_rel(evs, i),
    ensures
        crate::xmlmap::attr_value(tag_attrs(evs[i]), "hidden"@) == Ok::<Option<Seq<char>>, ()>(Some("yes"@)) ==> x.hidden,
        crate::xmlmap::attr_value(tag_attrs(evs[i]), "hidden"@) == Ok::<Option<Seq<char>>, ()>(Some("no"@)) ==> !x.hidden,
        crate::xmlmap::attr_value(tag_attrs(evs[i]), "hidden"@) == Ok::<Option<Seq<char>>, ()>(None) ==> !x.hidden,
        (crate::xmlmap::attr_value(tag_attrs(evs[i]), "hidden"@) matches Ok(Some(t)) && t != "yes"@ && t != "no"@) ==> !Enumeration::xml_ok(evs, i),
{
    crate::xmlmap::lemma_flag_field(tag_attrs(evs[i]), "hidden"@, x.hidden);
    crate::xmlmap::lemma_flag_refused(tag_attrs(evs[i]), "hidden"@);
}

/// What the `(yes | no)` attributes of an element give the [`Enumerator`] read
/// from it: `yes` reads as set, `no` and an absent attribute as not set,
/// and any other text leaves the element unreadable.
pub proof fn lemma_enumerator_flags(x: Enumerator, evs: Seq<EventView>, i: int)
    requires
        x.xml_rel(evs, i),
    ensures
        crate::xmlmap::attr_value(tag_attrs(evs[i]), "hidden"@) == Ok::<Option<Seq<char>>, ()>(Some("yes"@)) ==> x.hidden,
        crate::xmlmap::attr_value(tag_attrs(evs[i]), "hidden"@) == Ok::<Option<Seq<char>>, ()>(Some("no"@)) ==> !x.hidden,
        crate::xmlmap::attr_value(tag_attrs(evs[i]), "hidden"@) == Ok::<Option<Seq<char>>, ()>(None) ==> !x.hidden,
        (crate::xmlmap::attr_value(tag_attrs(evs[i]), "hidden"@) matches Ok(Some(t)) && t != "yes"@ && t != "no"@) ==> !Enumerator::xml_ok(evs, i),
{
    crate::xmlmap::lemma_flag_field(tag_attrs(evs[i]), "hidden"@, x.hidden);
    crate::xmlmap::lemma_flag_refused(tag_attrs(evs[i]), "hidden"@);
}

/// What the `(yes | no)` attributes of an element give the [`RecordType`] read
/// from it: `yes` reads as set, `no` and an absent attribute as not set,
/// and any other text leaves the element unreadable.
pub proof fn lemma_record_type_flags(x: RecordType, evs: Seq<EventView>, i: int)
    requires
        x.xml_rel(evs, i),
    ensures
        crate::xmlmap::attr_value(tag_attrs(evs[i]), "hidden"@) == Ok::<Option<Seq<char>>, ()>(Some("yes"@)) ==> x.hidden,
        crate::xmlmap::attr_value(tag_attrs(evs[i]), "hidden"@) == Ok::<Option<Seq<char>>, ()>(Some("no"@)) ==> !x.hidden,
        crate::xmlmap::attr_value(tag_attrs(evs[i]), "hidden"@) == Ok::<Option<Seq<char>>, ()>(None) ==> !x.hidden,
        (crate::xmlmap::attr_value(tag_attrs(evs[i]), "hidden"@) matches Ok(Some(t)) && t != "yes"@ && t != "no"@) ==> !RecordType::xml_ok(evs, i),
{
    crate::xmlmap::lemma_flag_field(tag_attrs(evs[i]), "hidden"@, x.hidden);
    crate::xmlmap::lemma_flag_refused(tag_attrs(evs[i]), "hidden"@);
}

/// What the `(yes | no)` attributes of an element give the [`ValueType`] read
/// from it: `yes` reads as set, `no` and an absent attribute as not set,
/// and any other text leaves the element unreadable.
pub proof fn lemma_value_type_flags(x: ValueType, evs: Seq<EventView>, i: int)
    requires
        x.xml_rel(evs, i),
    ensures
        crate::xmlmap::attr_value(tag_attrs(evs[i]), "hidden"@) == Ok::<Option<Seq<char>>, ()>(Some("yes"@)) ==> x.hidden,
        crate::xmlmap::attr_value(tag_attrs(evs[i]), "hidden"@) == Ok::<Option<Seq<char>>, ()>(Some("no"@)) ==> !x.hidden,
        crate::xmlmap::attr_value(tag_attrs(evs[i]), "hidden"@) == Ok::<Option<Seq<char>>, ()>(None) ==> !x.hidden,
        (crate::xmlmap::attr_value(tag_attrs(evs[i]), "hidden"@) matches Ok(Some(t)) && t != "yes"@ && t != "no"@) ==> !ValueType::xml_ok(evs, i),
{
    crate::xmlmap::lemma_flag_field(tag_attrs(evs[i]), "hidden"@, x.hidden);
    crate::xmlmap::lemma_flag_refused(tag_attrs(evs[i]), "hidden"@);
}

/// What the `(yes | no)` attributes of an element give the [`Property`] read
/// from it: `yes` reads as set, `no` and an absent attribute as not set,
/// and any other text leaves the element unreadable.
pub proof fn lemma_property_flags(x: Property, evs: Seq<EventView>, i: int)
    requires
        x.xml_rel(evs, i),
    ensures
        crate::xmlmap::attr_value(tag_attrs(evs[i]), "hidden"@) == Ok::<Option<Seq<char>>, ()>(Some("yes"@)) ==> x.hidden,
        crate::xmlmap::attr_value(tag_attrs(evs[i]), "hidden"@) == Ok::<Option<Seq<char>>, ()>(Some("no"@)) ==> !x.hidden,
        crate::xmlmap::attr_value(tag_attrs(evs[i]), "hidden"@) == Ok::<Option<Seq<char>>, ()>(None) ==> !x.hidden,
        crate::xmlmap::attr_value(tag_attrs(evs[i]), "in-properties"@) == Ok::<Option<Seq<char>>, ()>(Some("yes"@)) ==> x.in_properties == Some(true),
        crate::xmlmap::attr_value(tag_attrs(evs[i]), "in-properties"@) == Ok::<Option<Seq<char>>, ()>(Some("no"@)) ==> x.in_properties == Some(false),
        crate::xmlmap::attr_value(tag_attrs(evs[i]), "in-properties"@) == Ok::<Option<Seq<char>>, ()>(None) ==> x.in_properties is None,
        (crate::xmlmap::attr_value(tag_attrs(evs[i]), "hidden"@) matches Ok(Some(t)) && t != "yes"@ && t != "no"@) ==> !Property::xml_ok(evs, i),
        (crate::xmlmap::attr_value(tag_attrs(evs[i]), "in-properties"@) matches Ok(Some(t)) && t != "yes"@ && t != "no"@) ==> !Property::xml_ok(evs, i),
{
    crate::xmlmap::lemma_flag_field(tag_attrs(evs[i]), "hidden"@, x.hidden);
    crate::xmlmap::lemma_flag_opt_field(tag_attrs(evs[i]), "in-properties"@, x.in_properties);
    crate::xmlmap::lemma_flag_refused(tag_attrs(evs[i]), "hidden"@);
    crate::xmlmap::lemma_flag_refused(tag_attrs(evs[i]), "in-properties"@);
}

/// The attribute text written for a [`Enumeration`] is that of its slots.
proof fn lemma_enumeration_attribute_text(x: Enumeration)
    ensures
        crate::readback::slots_text(enumeration_slots(x)) == attr_text("name"@, x.name@) + attr_text("code"@, x.code@) + opt_attr_text("id"@, x.id) + opt_attr_text("description"@, x.description) + flag_attr_text("hidden"@, x.hidden) + opt_attr_text("inline"@, x.inline),
{
    let s = enumeration_slots(x);
    assert(s.len() == 6);
    crate::readback::lemma_slots_text_step(s, 0);
    assert(crate::readback::slot_text(s[0]) =~= attr_text("name"@, x.name@));
    crate::readback::lemma_slots_text_step(s, 1);
    assert(crate::readback::slot_text(s[1]) =~= attr_text("code"@, x.code@));
    crate::readback::lemma_slots_text_step(s, 2);
    assert(crate::readback::slot_text(s[2]) =~= opt_attr_text("id"@, x.id));
    crate::readback::lemma_slots_text_step(s, 3);
    assert(crate::readback::slot_text(s[3]) =~= opt_attr_text("description"@, x.description));
    crate::readback::lemma_slots_text_step(s, 4);
    assert(crate::readback::slot_text(s[4]) =~= flag_attr_text("hidden"@, x.hidden));
    crate::readback::lemma_slots_text_step(s, 5);
    assert(crate::readback::slot_text(s[5]) =~= opt_attr_text("inline"@, x.inline));
    assert(s.take(0) =~= Seq::<(Seq<char>, Option<Seq<char>>)>::empty());
    assert(s.take(6) =~= s);
    assert(crate::readback::slots_text(s) =~= attr_text("name"@, x.name@) + attr_text("code"@, x.code@) + opt_attr_text("id"@, x.id) + opt_attr_text("description"@, x.description) + flag_attr_text("hidden"@, x.hidden) + opt_attr_text("inline"@, x.inline));
}

/// The element written for a [`Enumeration`] carries exactly the attributes that
/// reading it back takes, [`enumeration_slots`]: one for each slot that holds a value, in
/// slot order.
pub proof fn lemma_enumeration_written_attributes(x: Enumeration, tag: Seq<char>)
    ensures
        crate::readback::written_with_attributes(x.xml_text(tag), tag, enumeration_slots(x)),
{
    lemma_enumeration_attribute_text(x);
    crate::readback::lemma_element_attributes(tag, attr_text("name"@, x.name@) + attr_text("code"@, x.code@) + opt_attr_text("id"@, x.id) + opt_attr_text("description"@, x.description) + flag_attr_text("hidden"@, x.hidden) + opt_attr_text("inline"@, x.inline), one_text(x.cocoa, "cocoa"@) +
                many_text(x.enumerators@, "enumerator"@) +
                many_text(x.documentation@, "documentation"@) +
                many_text(x.xrefs@, "xref"@), enumeration_slots(x));
}

impl crate::readback::WritesText for Enumeration {
    #[verifier::spinoff_prover]
    #[verifier::rlimit(100)]
    proof fn lemma_written_text(self, evs: Seq<EventView>, i: int, tag: Seq<char>) {
        let slots = enumeration_slots(self);
        let n = many_span(opt_seq(self.cocoa)) + many_span(self.enumerators@) + many_span(self.documentation@) + many_span(self.xrefs@);
        let p0 = i + 1;
        crate::readback::lemma_one_text(self.cocoa, "cocoa"@);
        crate::readback::lemma_many_text(opt_seq(self.cocoa), evs, p0, "cocoa"@);
        let p1 = p0 + many_span(opt_seq(self.cocoa));
        crate::readback::lemma_many_text(self.enumerators@, evs, p1, "enumerator"@);
        let p2 = p1 + many_span(self.enumerators@);
        crate::readback::lemma_many_text(self.documentation@, evs, p2, "documentation"@);
        let p3 = p2 + many_span(self.documentation@);
        crate::readback::lemma_many_text(self.xrefs@, evs, p3, "xref"@);
        let p4 = p3 + many_span(self.xrefs@);
        assert(p4 == i + 1 + n);
        crate::readback::lemma_events_text_split(evs, p0, p1, p2);
        crate::readback::lemma_events_text_split(evs, p0, p2, p3);
        crate::readback::lemma_events_text_split(evs, p0, p3, p4);
        lemma_enumeration_attribute_text(self);
        crate::readback::lemma_element_text(evs, i, tag, slots, n, one_text(self.cocoa, "cocoa"@) +
                many_text(self.enumerators@, "enumerator"@) +
                many_text(self.documentation@, "documentation"@) +
                many_text(self.xrefs@, "xref"@));
    }
}

/// The attribute text written for a [`Enumerator`] is that of its slots.
proof fn lemma_enumerator_attribute_text(x: Enumerator)
    ensures
        crate::readback::slots_text(enumerator_slots(x)) == attr_text("name"@, x.name@) + attr_text("code"@, x.code@) + flag_attr_text("hidden"@, x.hidden) + opt_attr_text("description"@, x.description),
{
    let s = enumerator_slots(x);
    assert(s.len() == 4);
    crate::readback::lemma_slots_text_step(s, 0);
    assert(crate::readback::slot_text(s[0]) =~= attr_text("name"@, x.name@));
    crate::readback::lemma_slots_text_step(s, 1);
    assert(crate::readback::slot_text(s[1]) =~= attr_text("code"@, x.code@));
    crate::readback::lemma_slots_text_step(s, 2);
    assert(crate::readback::slot_text(s[2]) =~= flag_attr_text("hidden"@, x.hidden));
    crate::readback::lemma_slots_text_step(s, 3);
    assert(crate::readback::slot_text(s[3]) =~= opt_attr_text("description"@, x.description));
    assert(s.take(0) =~= Seq::<(Seq<char>, Option<Seq<char>>)>::empty());
    assert(s.take(4) =~= s);
    assert(crate::readback::slots_text(s) =~= attr_text("name"@, x.name@) + attr_text("code"@, x.code@) + flag_attr_text("hidden"@, x.hidden) + opt_attr_text("description"@, x.description));
}

/// The element written for a [`Enumerator`] carries exactly the attributes that
/// reading it back takes, [`enumerator_slots`]: one for each slot that holds a value, in
/// slot order.
pub proof fn lemma_enumerator_written_attributes(x: Enumerator, tag: Seq<char>)
    ensures
        crate::readback::written_with_attributes(x.xml_text(tag), tag, enumerator_slots(x)),
{
    lemma_enumerator_attribute_text(x);
    crate::readback::lemma_element_attributes(tag, attr_text("name"@, x.name@) + attr_text("code"@, x.code@) + flag_attr_text("hidden"@, x.hidden) + opt_attr_text("description"@, x.description), one_text(x.cocoa, "cocoa"@) +
                many_text(x.synonyms@, "synonym"@) +
                many_text(x.documentation@, "documentation"@), enumerator_slots(x));
}

impl crate::readback::WritesText for Enumerator {
    proof fn lemma_written_text(self, evs: Seq<EventView>, i: int, tag: Seq<char>) {
        let slots = enumerator_slots(self);
        let n = many_span(opt_seq(self.cocoa)) + many_span(self.synonyms@) + many_span(self.documentation@);
        let p0 = i + 1;
        crate::readback::lemma_one_text(self.cocoa, "cocoa"@);
        crate::readback::lemma_many_text(opt_seq(self.cocoa), evs, p0, "cocoa"@);
        let p1 = p0 + many_span(opt_seq(self.cocoa));
        crate::readback::lemma_many_text(self.synonyms@, evs, p1, "synonym"@);
        let p2 = p1 + many_span(self.synonyms@);
        crate::readback::lemma_many_text(self.documentation@, evs, p2, "documentation"@);
        let p3 = p2 + many_span(self.documentation@);
        assert(p3 == i + 1 + n);
        crate::readback::lemma_events_text_split(evs, p0, p1, p2);
        crate::readback::lemma_events_text_split(evs, p0, p2, p3);
        lemma_enumerator_attribute_text(self);
        crate::readback::lemma_element_text(evs, i, tag, slots, n, one_text(self.cocoa, "cocoa"@) +
                many_text(self.synonyms@, "synonym"@) +
                many_text(self.documentation@, "documentation"@));
    }
}

/// The attribute text written for a [`RecordType`] is that of its slots.
proof fn lemma_record_type_attribute_text(x: RecordType)
    ensures
        crate::readback::slots_text(record_type_slots(x)) == attr_text("name"@, x.name@) + attr_text("code"@, x.code@) + opt_attr_text("id"@, x.id) + opt_attr_text("plural"@, x.plural) + opt_attr_text("description"@, x.description) + flag_attr_text("hidden"@, x.hidden),
{
    let s = record_type_slots(x);
    assert(s.len() == 6);
    crate::readback::lemma_slots_text_step(s, 0);
    assert(crate::readback::slot_text(s[0]) =~= attr_text("name"@, x.name@));
    crate::readback::lemma_slots_text_step(s, 1);
    assert(crate::readback::slot_text(s[1]) =~= attr_text("code"@, x.code@));
    crate::readback::lemma_slots_text_step(s, 2);
    assert(crate::readback::slot_text(s[2]) =~= opt_attr_text("id"@, x.id));
    crate::readback::lemma_slots_text_step(s, 3);
    assert(crate::readback::slot_text(s[3]) =~= opt_attr_text("plural"@, x.plural));
    crate::readback::lemma_slots_text_step(s, 4);
    assert(crate::readback::slot_text(s[4]) =~= opt_attr_text("description"@, x.description));
    crate::readback::lemma_slots_text_step(s, 5);
    assert(crate::readback::slot_text(s[5]) =~= flag_attr_text("hidden"@, x.hidden));
    assert(s.take(0) =~= Seq::<(Seq<char>, Option<Seq<char>>)>::empty());
    assert(s.take(6) =~= s);
    assert(crate::readback::slots_text(s) =~= attr_text("name"@, x.name@) + attr_text("code"@, x.code@) + opt_attr_text("id"@, x.id) + opt_attr_text("plural"@, x.plural) + opt_attr_text("description"@, x.description) + flag_attr_text("hidden"@, x.hidden));
}

/// The element written for a [`RecordType`] carries exactly the attributes that
/// reading it back takes, [`record_type_slots`]: one for each slot that holds a value, in
/// slot order.
pub proof fn lemma_record_type_written_attributes(x: RecordType, tag: Seq<char>)
    ensures
        crate::readback::written_with_attributes(x.xml_text(tag), tag, record_type_slots(x)),
{
    lemma_record_type_attribute_text(x);
    crate::readback::lemma_element_attributes(tag, attr_text("name"@, x.name@) + attr_text("code"@, x.code@) + opt_attr_text("id"@, x.id) + opt_attr_text("plural"@, x.plural) + opt_attr_text("description"@, x.description) + flag_attr_text("hidden"@, x.hidden), one_text(x.cocoa, "cocoa"@) +
                many_text(x.synonyms@, "synonym"@) +
                many_text(x.properties@, "property"@) +
                many_text(x.documentation@, "documentation"@) +
                many_text(x.xrefs@, "xref"@), record_type_slots(x));
}

impl crate::readback::WritesText for RecordType {
    #[verifier::spinoff_prover]
    #[verifier::rlimit(100)]
    proof fn lemma_written_text(self, evs: Seq<EventView>, i: int, tag: Seq<char>) {
        let slots = record_type_slots(self);
        let n = many_span(opt_seq(self.cocoa)) + many_span(self.synonyms@) + many_span(self.properties@) + many_span(self.documentation@) + many_span(self.xrefs@);
        let p0 = i + 1;
        crate::readback::lemma_one_text(self.cocoa, "cocoa"@);
        crate::readback::lemma_many_text(opt_seq(self.cocoa), evs, p0, "cocoa"@);
        let p1 = p0 + many_span(opt_seq(self.cocoa));
        crate::readback::lemma_many_text(self.synonyms@, evs, p1, "synonym"@);
        let p2 = p1 + many_span(self.synonyms@);
        crate::readback::lemma_many_text(self.properties@, evs, p2, "property"@);
        let p3 = p2 + many_span(self.properties@);
        crate::readback::lemma_many_text(self.documentation@, evs, p3, "documentation"@);
        let p4 = p3 + many_span(self.documentation@);
        crate::readback::lemma_many_text(self.xrefs@, evs, p4, "xref"@);
        let p5 = p4 + many_span(self.xrefs@);
        assert(p5 == i + 1 + n);
        crate::readback::lemma_events_text_split(evs, p0, p1, p2);
        crate::readback::lemma_events_text_split(evs, p0, p2, p3);
        crate::readback::lemma_events_text_split(evs, p0, p3, p4);
        crate::readback::lemma_events_text_split(evs, p0, p4, p5);
        lemma_record_type_attribute_text(self);
        crate::readback::lemma_element_text(evs, i, tag, slots, n, one_text(self.cocoa, "cocoa"@) +
                many_text(self.synonyms@, "synonym"@) +
                many_text(self.properties@, "property"@) +
                many_text(self.documentation@, "documentation"@) +
                many_text(self.xrefs@, "xref"@));
    }
}

/// The attribute text written for a [`ValueType`] is that of its slots.
proof fn lemma_value_type_attribute_text(x: ValueType)
    ensures
        crate::readback::slots_text(value_type_slots(x)) == attr_text("name"@, x.name@) + attr_text("code"@, x.code@) + opt_attr_text("id"@, x.id) + opt_attr_text("plural"@, x.plural) + opt_attr_text("description"@, x.description) + flag_attr_text("hidden"@, x.hidden),
{
    let s = value_type_slots(x);
    assert(s.len() == 6);
    crate::readback::lemma_slots_text_step(s, 0);
    assert(crate::readback::slot_text(s[0]) =~= attr_text("name"@, x.name@));
    crate::readback::lemma_slots_text_step(s, 1);
    assert(crate::readback::slot_text(s[1]) =~= attr_text("code"@, x.code@));
    crate::readback::lemma_slots_text_step(s, 2);
    assert(crate::readback::slot_text(s[2]) =~= opt_attr_text("id"@, x.id));
    crate::readback::lemma_slots_text_step(s, 3);
    assert(crate::readback::slot_text(s[3]) =~= opt_attr_text("plural"@, x.plural));
    crate::readback::lemma_slots_text_step(s, 4);
    assert(crate::readback::slot_text(s[4]) =~= opt_attr_text("description"@, x.description));
    crate::readback::lemma_slots_text_step(s, 5);
    assert(crate::readback::slot_text(s[5]) =~= flag_attr_text("hidden"@, x.hidden));
    assert(s.take(0) =~= Seq::<(Seq<char>, Option<Seq<char>>)>::empty());
    assert(s.take(6) =~= s);
    assert(crate::readback::slots_text(s) =~= attr_text("name"@, x.name@) + attr_text("code"@, x.code@) + opt_attr_text("id"@, x.id) + opt_attr_text("plural"@, x.plural) + opt_attr_text("description"@, x.description) + flag_attr_text("hidden"@, x.hidden));
}

/// The element written for a [`ValueType`] carries exactly the attributes that
/// reading it back takes, [`value_type_slots`]: one for each slot that holds a value, in
/// slot order.
pub proof fn lemma_value_type_written_attributes(x: ValueType, tag: Seq<char>)
    ensures
        crate::readback::written_with_attributes(x.xml_text(tag), tag, value_type_slots(x)),
{
    lemma_value_type_attribute_text(x);
    crate::readback::lemma_element_attributes(tag, attr_text("name"@, x.name@) + attr_text("code"@, x.code@) + opt_attr_text("id"@, x.id) + opt_attr_text("plural"@, x.plural) + opt_attr_text("description"@, x.description) + flag_attr_text("hidden"@, x.hidden), one_text(x.cocoa, "cocoa"@) +
                many_text(x.synonyms@, "synonym"@) +
                many_text(x.documentation@, "documentation"@) +
                many_text(x.xrefs@, "xref"@), value_type_slots(x));
}

impl crate::readback::WritesText for ValueType {
    #[verifier::spinoff_prover]
    #[verifier::rlimit(100)]
    proof fn lemma_written_text(self, evs: Seq<EventView>, i: int, tag: Seq<char>) {
        let slots = value_type_slots(self);
        let n = many_span(opt_seq(self.cocoa)) + many_span(self.synonyms@) + many_span(self.documentation@) + many_span(self.xrefs@);
        let p0 = i + 1;
        crate::readback::lemma_one_text(self.cocoa, "cocoa"@);
        crate::readback::lemma_many_text(opt_seq(self.cocoa), evs, p0, "cocoa"@);
        let p1 = p0 + many_span(opt_seq(self.cocoa));
        crate::readback::lemma_many_text(self.synonyms@, evs, p1, "synonym"@);
        let p2 = p1 + many_span(self.synonyms@);
        crate::readback::lemma_many_text(self.documentation@, evs, p2, "documentation"@);
        let p3 = p2 + many_span(self.documentation@);
        crate::readback::lemma_many_text(self.xrefs@, evs, p3, "xref"@);
        let p4 = p3 + many_span(self.xrefs@);
        assert(p4 == i + 1 + n);
        crate::readback::lemma_events_text_split(evs, p0, p1, p2);
        crate::readback::lemma_events_text_split(evs, p0, p2, p3);
        crate::readback::lemma_events_text_split(evs, p0, p3, p4);
        lemma_value_type_attribute_text(self);
        crate::readback::lemma_element_text(evs, i, tag, slots, n, one_text(self.cocoa, "cocoa"@) +
                many_text(self.synonyms@, "synonym"@) +
                many_text(self.documentation@, "documentation"@) +
                many_text(self.xrefs@, "xref"@));
    }
}

/// The attribute text written for a [`Property`] is that of its slots.
proof fn lemma_property_attribute_text(x: Property)
    ensures
        crate::readback::slots_text(property_slots(x)) == attr_text("name"@, x.name@) + attr_text("code"@, x.code@) + opt_attr_text("id"@, x.id) + opt_attr_text("type"@, x.ty) + access_attr_text("access"@, x.access) + flag_opt_attr_text("in-properties"@, x.in_properties) + flag_attr_text("hidden"@, x.hidden) + opt_attr_text("description"@, x.description),
{
    let s = property_slots(x);
    assert(s.len() == 8);
    crate::readback::lemma_slots_text_step(s, 0);
    assert(crate::readback::slot_text(s[0]) =~= attr_text("name"@, x.name@));
    crate::readback::lemma_slots_text_step(s, 1);
    assert(crate::readback::slot_text(s[1]) =~= attr_text("code"@, x.code@));
    crate::readback::lemma_slots_text_step(s, 2);
    assert(crate::readback::slot_text(s[2]) =~= opt_attr_text("id"@, x.id));
    crate::readback::lemma_slots_text_step(s, 3);
    assert(crate::readback::slot_text(s[3]) =~= opt_attr_text("type"@, x.ty));
    crate::readback::lemma_slots_text_step(s, 4);
    assert(crate::readback::slot_text(s[4]) =~= access_attr_text("access"@, x.access));
    crate::readback::lemma_slots_text_step(s, 5);
    assert(crate::readback::slot_text(s[5]) =~= flag_opt_attr_text("in-properties"@, x.in_properties));
    crate::readback::lemma_slots_text_step(s, 6);
    assert(crate::readback::slot_text(s[6]) =~= flag_attr_text("hidden"@, x.hidden));
    crate::readback::lemma_slots_text_step(s, 7);
    assert(crate::readback::slot_text(s[7]) =~= opt_attr_text("description"@, x.description));
    assert(s.take(0) =~= Seq::<(Seq<char>, Option<Seq<char>>)>::empty());
    assert(s.take(8) =~= s);
    assert(crate::readback::slots_text(s) =~= attr_text("name"@, x.name@) + attr_text("code"@, x.code@) + opt_attr_text("id"@, x.id) + opt_attr_text("type"@, x.ty) + access_attr_text("access"@, x.access) + flag_opt_attr_text("in-properties"@, x.in_properties) + flag_attr_text("hidden"@, x.hidden) + opt_attr_text("description"@, x.description));
}

/// The element written for a [`Property`] carries exactly the attributes that
/// reading it back takes, [`property_slots`]: one for each slot that holds a value, in
/// slot order.
pub proof fn lemma_property_written_attributes(x: Property, tag: Seq<char>)
    ensures
        crate::readback::written_with_attributes(x.xml_text(tag), tag, property_slots(x)),
{
    lemma_property_attribute_text(x);
    crate::readback::lemma_element_attributes(tag, attr_text("name"@, x.name@) + attr_text("code"@, x.code@) + opt_attr_text("id"@, x.id) + opt_attr_text("type"@, x.ty) + access_attr_text("access"@, x.access) + flag_opt_attr_text("in-properties"@, x.in_properties) + flag_attr_text("hidden"@, x.hidden) + opt_attr_text("description"@, x.description), one_text(x.cocoa, "cocoa"@) +
                many_text(x.access_groups@, "access-group"@) +
                many_text(x.types@, "type"@) +
                many_text(x.synonyms@, "synonym"@) +
                many_text(x.documentation@, "documentation"@), property_slots(x));
}

impl crate::readback::WritesText for Property {
    #[verifier::spinoff_prover]
    #[verifier::rlimit(100)]
    proof fn lemma_written_text(self, evs: Seq<EventView>, i: int, tag: Seq<char>) {
        let slots = property_slots(self);
        let n = many_span(opt_seq(self.cocoa)) + many_span(self.access_groups@) + many_span(self.types@) + many_span(self.synonyms@) + many_span(self.documentation@);
        let p0 = i + 1;
        crate::readback::lemma_one_text(self.cocoa, "cocoa"@);
        crate::readback::lemma_many_text(opt_seq(self.cocoa), evs, p0, "cocoa"@);
        let p1 = p0 + many_span(opt_seq(self.cocoa));
        crate::readback::lemma_many_text(self.access_groups@, evs, p1, "access-group"@);
        let p2 = p1 + many_span(self.access_groups@);
        crate::readback::lemma_many_text(self.types@, evs, p2, "type"@);
        let p3 = p2 + many_span(self.types@);
        crate::readback::lemma_many_text(self.synonyms@, evs, p3, "synonym"@);
        let p4 = p3 + many_span(self.synonyms@);
        crate::readback::lemma_many_text(self.documentation@, evs, p4, "documentation"@);
        let p5 = p4 + many_span(self.documentation@);
        assert(p5 == i + 1 + n);
        crate::readback::lemma_events_text_split(evs, p0, p1, p2);
        crate::readback::lemma_events_text_split(evs, p0, p2, p3);
        crate::readback::lemma_events_text_split(evs, p0, p3, p4);
        crate::readback::lemma_events_text_split(evs, p0, p4, p5);
        lemma_property_attribute_text(self);
        crate::readback::lemma_element_text(evs, i, tag, slots, n, one_text(self.cocoa, "cocoa"@) +
                many_text(self.access_groups@, "access-group"@) +
                many_text(self.types@, "type"@) +
                many_text(self.synonyms@, "synonym"@) +
                many_text(self.documentation@, "documentation"@));
    }
}

impl crate::xmlmap::ReadsUniquely for Enumeration {
    open spec fn same(self, other: Self) -> bool {
        &&& self.name@ == other.name@
        &&& self.code@ == other.code@
        &&& crate::xmlmap::text_of(self.id) == crate::xmlmap::text_of(other.id)
        &&& crate::xmlmap::text_of(self.description) == crate::xmlmap::text_of(other.description)
        &&& self.hidden == other.hidden
        &&& crate::xmlmap::text_of(self.inline) == crate::xmlmap::text_of(other.inline)
        &&& crate::xmlmap::opt_same(self.cocoa, other.cocoa)
        &&& crate::xmlmap::all_same(self.enumerators@, other.enumerators@)
        &&& crate::xmlmap::all_same(self.documentation@, other.documentation@)
        &&& crate::xmlmap::all_same(self.xrefs@, other.xrefs@)
    }

    proof fn lemma_reads_uniquely(self, other: Self, evs: Seq<EventView>, i: int) {
        let ks = crate::document::children(evs, i);
        crate::xmlmap::lemma_one_unique(self.cocoa, other.cocoa, evs, ks, "cocoa"@);
        crate::xmlmap::lemma_many_unique(self.enumerators, other.enumerators, evs, ks, "enumerator"@);
        crate::xmlmap::lemma_many_unique(self.documentation, other.documentation, evs, ks, "documentation"@);
        crate::xmlmap::lemma_many_unique(self.xrefs, other.xrefs, evs, ks, "xref"@);
    }
}

impl crate::xmlmap::ReadsUniquely for Enumerator {
    open spec fn same(self, other: Self) -> bool {
        &&& self.name@ == other.name@
        &&& self.code@ == other.code@
        &&& self.hidden == other.hidden
        &&& crate::xmlmap::text_of(self.description) == crate::xmlmap::text_of(other.description)
        &&& crate::xmlmap::opt_same(self.cocoa, other.cocoa)
        &&& crate::xmlmap::all_same(self.synonyms@, other.synonyms@)
        &&& crate::xmlmap::all_same(self.documentation@, other.documentation@)
    }

    proof fn lemma_reads_uniquely(self, other: Self, evs: Seq<EventView>, i: int) {
        let ks = crate::document::children(evs, i);
        crate::xmlmap::lemma_one_unique(self.cocoa, other.cocoa, evs, ks, "cocoa"@);
        crate::xmlmap::lemma_many_unique(self.synonyms, other.synonyms, evs, ks, "synonym"@);
        crate::xmlmap::lemma_many_unique(self.documentation, other.documentation, evs, ks, "documentation"@);
    }
}

impl crate::xmlmap::ReadsUniquely for RecordType {
    open spec fn same(self, other: Self) -> bool {
        &&& self.name@ == other.name@
        &&& self.code@ == other.code@
        &&& crate::xmlmap::text_of(self.id) == crate::xmlmap::text_of(other.id)
        &&& crate::xmlmap::text_of(self.plural) == crate::xmlmap::text_of(other.plural)
        &&& crate::xmlmap::text_of(self.description) == crate::xmlmap::text_of(other.description)
        &&& self.hidden == other.hidden
        &&& crate::xmlmap::opt_same(self.cocoa, other.cocoa)
        &&& crate::xmlmap::all_same(self.synonyms@, other.synonyms@)
        &&& crate::xmlmap::all_same(self.properties@, other.properties@)
        &&& crate::xmlmap::all_same(self.documentation@, other.documentation@)
        &&& crate::xmlmap::all_same(self.xrefs@, other.xrefs@)
    }

    proof fn lemma_reads_uniquely(self, other: Self, evs: Seq<EventView>, i: int) {
        let ks = crate::document::children(evs, i);
        crate::xmlmap::lemma_one_unique(self.cocoa, other.cocoa, evs, ks, "cocoa"@);
        crate::xmlmap::lemma_many_unique(self.synonyms, other.synonyms, evs, ks, "synonym"@);
        crate::xmlmap::lemma_many_unique(self.properties, other.properties, evs, ks, "property"@);
        crate::xmlmap::lemma_many_unique(self.documentation, other.documentation, evs, ks, "documentation"@);
        crate::xmlmap::lemma_many_unique(self.xrefs, other.xrefs, evs, ks, "xref"@);
    }
}

impl crate::xmlmap::ReadsUniquely for ValueType {
    open spec fn same(self, other: Self) -> bool {
        &&& self.name@ == other.name@
        &&& self.code@ == other.code@
        &&& crate::xmlmap::text_of(self.id) == crate::xmlmap::text_of(other.id)
        &&& crate::xmlmap::text_of(self.plural) == crate::xmlmap::text_of(other.plural)
        &&& crate::xmlmap::text_of(self.description) == crate::xmlmap::text_of(other.description)
        &&& self.hidden == other.hidden
        &&& crate::xmlmap::opt_same(self.cocoa, other.cocoa)
        &&& crate::xmlmap::all_same(self.synonyms@, other.synonyms@)
        &&& crate::xmlmap::all_same(self.documentation@, other.documentation@)
        &&& crate::xmlmap::all_same(self.xrefs@, other.xrefs@)
    }

    proof fn lemma_reads_uniquely(self, other: Self, evs: Seq<EventView>, i: int) {
        let ks = crate::document::children(evs, i);
        crate::xmlmap::lemma_one_unique(self.cocoa, other.cocoa, evs, ks, "cocoa"@);
        crate::xmlmap::lemma_many_unique(self.synonyms, other.synonyms, evs, ks, "synonym"@);
        crate::xmlmap::lemma_many_unique(self.documentation, other.documentation, evs, ks, "documentation"@);
        crate::xmlmap::lemma_many_unique(self.xrefs, other.xrefs, evs, ks, "xref"@);
    }
}

impl crate::xmlmap::ReadsUniquely for Property {
    open spec fn same(self, other: Self) -> bool {
        &&& self.name@ == other.name@
        &&& self.code@ == other.code@
        &&& crate::xmlmap::text_of(self.id) == crate::xmlmap::text_of(other.id)
        &&& crate::xmlmap::text_of(self.ty) == crate::xmlmap::text_of(other.ty)
        &&& crate::metadata::access_same(self.access, other.access)
        &&& self.in_properties == other.in_properties
        &&& self.hidden == other.hidden
        &&& crate::xmlmap::text_of(self.description) == crate::xmlmap::text_of(other.description)
        &&& crate::xmlmap::opt_same(self.cocoa, other.cocoa)
        &&& crate::xmlmap::all_same(self.access_groups@, other.access_groups@)
        &&& crate::xmlmap::all_same(self.types@, other.types@)
        &&& crate::xmlmap::all_same(self.synonyms@, other.synonyms@)
        &&& crate::xmlmap::all_same(self.documentation@, other.documentation@)
    }

    proof fn lemma_reads_uniquely(self, other: Self, evs: Seq<EventView>, i: int) {
        let ks = crate::document::children(evs, i);
        crate::xmlmap::lemma_one_unique(self.cocoa, other.cocoa, evs, ks, "cocoa"@);
        crate::xmlmap::lemma_many_unique(self.access_groups, other.access_groups, evs, ks, "access-group"@);
        crate::xmlmap::lemma_many_unique(self.types, other.types, evs, ks, "type"@);
        crate::xmlmap::lemma_many_unique(self.synonyms, other.synonyms, evs, ks, "synonym"@);
        crate::xmlmap::lemma_many_unique(self.documentation, other.documentation, evs, ks, "documentation"@);
    }
}

} // verus!
