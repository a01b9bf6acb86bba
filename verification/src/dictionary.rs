//! Top-level structural AST nodes: [`Dictionary`] and [`Suite`], the
//! document entry points, and the dictionary lookups.

use vstd::prelude::*;

use crate::class::{Class, ClassExtension};
use crate::command::{Command, Event};
use crate::decl::{Enumeration, RecordType, ValueType};
use crate::document::{children, elem_end, element_end, root_from, root_position};
use crate::error::{custom_error, shape_error, Error};
use crate::events::{ns_doc, ns_events, plain_doc, tag_attrs, views, EventView, XmlEvent};
use crate::metadata::{AccessGroup, Cocoa, Documentation};
use crate::strict::{strict_from, verdict_result, Verdict};
use crate::text::same_text;
use crate::xmlmap::{
    at_most_one, attr_value, attribute, attrs_at, flag, flag_value, many, many_ok, many_rel,
    node_ok, one_ok, one_rel, opt_value, readable_children, req_value, required, text_of, FromXml,
};

use quick_xml::Error as ReadError;

use crate::emit::{
    attr_text, element_xml, flag_attr_text, flag_opt_attr_text, many_text, one_text,
    opt_attr_text, push_attr, push_flag_attr, push_flag_opt_attr, push_opt_attr, write_element,
    write_many, write_one, ToXml,
};
use crate::document::{content_end, kids_from};
use crate::readback::{
    all_writable, element_span, element_spelled, flag_opt_slot, flag_slot, keys_distinct,
    lemma_attrs_read_back, lemma_decode_append, lemma_decode_clean, lemma_decode_empty, lemma_element_tags,
    lemma_many_reads_back, lemma_named_extend, lemma_seq_assoc, lemma_starts_tagged, lemma_tagged_decode,
    many_span, many_spelled, many_starts, opt_seq, opt_slot, req_slot, tags_decode, ReadsBack,
};
use crate::xmlmap::named;
use crate::yorn::{lemma_flag_opt_reads_back, lemma_flag_reads_back};
use crate::readback::{
    all_canonical, lemma_closed_attribute_passes, lemma_many_pass_strict, lemma_tags_pass_strict,
    StrictSafe,
};
use crate::strict::{closed_rule, known_names, rw_values};

verus! {

/// The root `<dictionary>` element of an sdef document.
#[derive(Debug, Clone, PartialEq, Eq)]
#[non_exhaustive]
pub struct Dictionary {
    /// Optional human-readable title attribute (`title="…"`).
    pub title: Option<String>,
    /// All `<suite>` children. The DTD requires at least one suite.
    pub suites: Vec<Suite>,
    /// Optional root-level `<documentation>` siblings of `<suite>`, in
    /// document order.
    pub documentation: Vec<Documentation>,
}

impl FromXml for Dictionary {
    open spec fn xml_ok(evs: Seq<EventView>, i: int) -> bool {
        let a = tag_attrs(evs[i]);
        let ks = children(evs, i);
        &&& node_ok(evs, i)
        &&& attr_value(a, "title"@) is Ok
        &&& many_ok::<Suite>(evs, ks, "suite"@)
        &&& many_ok::<Documentation>(evs, ks, "documentation"@)
    }

    open spec fn xml_rel(self, evs: Seq<EventView>, i: int) -> bool {
        let a = tag_attrs(evs[i]);
        let ks = children(evs, i);
        &&& text_of(self.title) == opt_value(a, "title"@)
        &&& many_rel(self.suites, evs, ks, "suite"@)
        &&& many_rel(self.documentation, evs, ks, "documentation"@)
    }

    fn from_xml(evs: &Vec<XmlEvent>, i: usize) -> (r: Result<Self, Error>) {
        let ks = readable_children(evs, i)?;
        let a = attrs_at(evs, i);
        let title = attribute(a, "title")?;
        let suites = many::<Suite>(evs, &ks, "suite")?;
        let documentation = many::<Documentation>(evs, &ks, "documentation")?;
        Ok(Dictionary { title, suites, documentation })
    }
}

impl ToXml for Dictionary {
    open spec fn xml_text(self, tag: Seq<char>) -> Seq<char> {
        element_xml(
            tag,
            opt_attr_text("title"@, self.title),
            many_text(self.suites@, "suite"@) +
                many_text(self.documentation@, "documentation"@),
        )
    }

    fn write_xml(&self, tag: &str, out: &mut String) {
        let mut attrs = String::new();
        push_opt_attr(&mut attrs, "title", &self.title);
        assert(attrs@ =~= opt_attr_text("title"@, self.title));
        let mut body = String::new();
        write_many(&self.suites, "suite", &mut body);
        assert(body@ =~= many_text(self.suites@, "suite"@));
        write_many(&self.documentation, "documentation", &mut body);
        write_element(out, tag, &attrs, &body);
    }
}

/// The attribute slots written for a [`Dictionary`].
pub open spec fn dictionary_slots(x: Dictionary) -> Seq<(Seq<char>, Option<Seq<char>>)> {
    seq![
        opt_slot("title"@, x.title),
    ]
}

/// The attribute keys of a [`Dictionary`] are distinct, and so are the names of
/// its child elements.
proof fn lemma_dictionary_names(x: Dictionary)
    ensures
        keys_distinct(dictionary_slots(x)),
        "suite"@ != "documentation"@,
{
    reveal_strlit("documentation");
    reveal_strlit("suite");
    assert("suite"@.len() != "documentation"@.len());
}

impl ReadsBack for Dictionary {
    open spec fn event_span(self) -> int {
        element_span(many_span(self.suites@) + many_span(self.documentation@))
    }

    open spec fn spelled(self, evs: Seq<EventView>, i: int, tag: Seq<char>) -> bool {
        &&& element_spelled(evs, i, tag, dictionary_slots(self), many_span(self.suites@) + many_span(self.documentation@))
        &&& many_spelled(self.suites@, evs, i + 1, "suite"@)
        &&& many_spelled(self.documentation@, evs, i + 1 + many_span(self.suites@), "documentation"@)
    }

    open spec fn writable(self) -> bool {
        &&& all_writable(self.suites@)
        &&& all_writable(self.documentation@)
    }

    #[verifier::spinoff_prover]
    #[verifier::rlimit(100)]
    proof fn lemma_reads_back(self, evs: Seq<EventView>, i: int, tag: Seq<char>) {
        let slots = dictionary_slots(self);
        lemma_dictionary_names(self);
        let p0 = i + 1;
        let k0: Seq<int> = seq![];
        lemma_decode_empty(evs);
        assert(kids_from(evs, p0) =~= k0 + kids_from(evs, p0));
        let g0 = self.suites@;
        lemma_many_reads_back(g0, evs, p0, "suite"@);
        let s0 = many_starts(g0, p0);
        let p1 = p0 + many_span(g0);
        let k1 = k0 + s0;
        lemma_seq_assoc(k0, s0, kids_from(evs, p1));
        lemma_starts_tagged(g0, evs, p0, "suite"@);
        lemma_tagged_decode(evs, s0, "suite"@);
        lemma_decode_append(evs, k0, s0);
        let g1 = self.documentation@;
        lemma_many_reads_back(g1, evs, p1, "documentation"@);
        let s1 = many_starts(g1, p1);
        let p2 = p1 + many_span(g1);
        let k2 = k1 + s1;
        lemma_seq_assoc(k1, s1, kids_from(evs, p2));
        lemma_starts_tagged(g1, evs, p1, "documentation"@);
        lemma_tagged_decode(evs, s1, "documentation"@);
        lemma_decode_append(evs, k1, s1);
        let n = p2 - p0;
        assert(forall|close: Seq<u8>| #![trigger content_end(evs, p0, close)] content_end(evs, p0, close) == content_end(evs, p0 + n, close));
        lemma_element_tags(evs, i, tag, slots, n, k2);
        lemma_named_extend(evs, k0, s0, "suite"@, "suite"@);
        lemma_named_extend(evs, k1, s1, "documentation"@, "suite"@);
        assert(k0 + s0 =~= s0);
        lemma_named_extend(evs, k0, s0, "suite"@, "documentation"@);
        lemma_named_extend(evs, k1, s1, "documentation"@, "documentation"@);
        assert(k0 + s1 =~= s1);
        lemma_decode_clean(evs, k2);
        let a = tag_attrs(evs[i]);
        lemma_attrs_read_back(a, slots, 0);
    }
}

/// Strict mode knows the name a [`Dictionary`] is written with, and checks none
/// of its attributes against a closed set.
proof fn lemma_dictionary_strict_name()
    ensures
        known_names().contains("dictionary"@),
        closed_rule("dictionary"@) is None,
{
    reveal_strlit("dictionary");
    reveal_strlit("accessor");
    assert("dictionary"@.len() != "accessor"@.len());
    reveal_strlit("access-group");
    assert("dictionary"@.len() != "access-group"@.len());
    reveal_strlit("cocoa");
    assert("dictionary"@.len() != "cocoa"@.len());
    reveal_strlit("contents");
    assert("dictionary"@.len() != "contents"@.len());
    reveal_strlit("direct-parameter");
    assert("dictionary"@.len() != "direct-parameter"@.len());
    reveal_strlit("element");
    assert("dictionary"@.len() != "element"@.len());
    reveal_strlit("parameter");
    assert("dictionary"@.len() != "parameter"@.len());
    reveal_strlit("property");
    assert("dictionary"@.len() != "property"@.len());
    assert(known_names()[7] == "dictionary"@);
}

impl StrictSafe for Dictionary {
    open spec fn element_name() -> Seq<char> {
        "dictionary"@
    }

    open spec fn canonical(self) -> bool {
        &&& all_canonical(self.suites@)
        &&& all_canonical(self.documentation@)
    }

    proof fn lemma_passes_strict(self, evs: Seq<EventView>, i: int) {
        let slots = dictionary_slots(self);
        lemma_dictionary_names(self);
        lemma_dictionary_strict_name();
        let p0 = i + 1;
        lemma_many_pass_strict(self.suites@, evs, p0);
        let p1 = p0 + many_span(self.suites@);
        lemma_many_pass_strict(self.documentation@, evs, p1);
        let p2 = p1 + many_span(self.documentation@);
        lemma_tags_pass_strict(evs, i, "dictionary"@, slots, p2 - p0);
    }
}

/// A `<suite>` groups related commands, events, classes, enumerations,
/// record-types, and value-types.
///
/// The DTD permits the children in any order; each child is read into its
/// typed `Vec` field regardless of where it stands.
#[derive(Debug, Clone, PartialEq, Eq)]
#[non_exhaustive]
pub struct Suite {
    /// Suite name (`name="…"`).
    pub name: String,
    /// Four-character suite code (`code="…"`).
    pub code: String,
    /// Optional human description (`description="…"`).
    pub description: Option<String>,
    /// `hidden="yes"` flag, defaults to `false`.
    pub hidden: bool,
    /// Optional `<cocoa>` implementation hint child.
    pub cocoa: Option<Cocoa>,
    /// Zero or more `<access-group>` entitlement children (since OS X 10.8).
    pub access_groups: Vec<AccessGroup>,
    /// All `<command>` children of this suite, in document order.
    pub commands: Vec<Command>,
    /// All `<event>` children of this suite, in document order.
    pub events: Vec<Event>,
    /// All `<class>` children of this suite, in document order.
    pub classes: Vec<Class>,
    /// All `<class-extension>` children of this suite, in document order.
    pub class_extensions: Vec<ClassExtension>,
    /// All `<enumeration>` children of this suite, in document order.
    pub enumerations: Vec<Enumeration>,
    /// All `<record-type>` children of this suite, in document order.
    pub record_types: Vec<RecordType>,
    /// All `<value-type>` children of this suite, in document order.
    pub value_types: Vec<ValueType>,
    /// `<documentation>` child blocks, in document order.
    pub documentation: Vec<Documentation>,
}

impl FromXml for Suite {
    open spec fn xml_ok(evs: Seq<EventView>, i: int) -> bool {
        let a = tag_attrs(evs[i]);
        let ks = children(evs, i);
        &&& node_ok(evs, i)
        &&& req_value(a, "name"@) is Some
        &&& req_value(a, "code"@) is Some
        &&& attr_value(a, "description"@) is Ok
        &&& flag_value(a, "hidden"@) is Ok
        &&& one_ok::<Cocoa>(evs, ks, "cocoa"@)
        &&& many_ok::<AccessGroup>(evs, ks, "access-group"@)
        &&& many_ok::<Command>(evs, ks, "command"@)
        &&& many_ok::<Event>(evs, ks, "event"@)
        &&& many_ok::<Class>(evs, ks, "class"@)
        &&& many_ok::<ClassExtension>(evs, ks, "class-extension"@)
        &&& many_ok::<Enumeration>(evs, ks, "enumeration"@)
        &&& many_ok::<RecordType>(evs, ks, "record-type"@)
        &&& many_ok::<ValueType>(evs, ks, "value-type"@)
        &&& many_ok::<Documentation>(evs, ks, "documentation"@)
    }

    open spec fn xml_rel(self, evs: Seq<EventView>, i: int) -> bool {
        let a = tag_attrs(evs[i]);
        let ks = children(evs, i);
        &&& req_value(a, "name"@) == Some(self.name@)
        &&& req_value(a, "code"@) == Some(self.code@)
        &&& text_of(self.description) == opt_value(a, "description"@)
        &&& flag_value(a, "hidden"@) == Ok::<bool, ()>(self.hidden)
        &&& one_rel(self.cocoa, evs, ks, "cocoa"@)
        &&& many_rel(self.access_groups, evs, ks, "access-group"@)
        &&& many_rel(self.commands, evs, ks, "command"@)
        &&& many_rel(self.events, evs, ks, "event"@)
        &&& many_rel(self.classes, evs, ks, "class"@)
        &&& many_rel(self.class_extensions, evs, ks, "class-extension"@)
        &&& many_rel(self.enumerations, evs, ks, "enumeration"@)
        &&& many_rel(self.record_types, evs, ks, "record-type"@)
        &&& many_rel(self.value_types, evs, ks, "value-type"@)
        &&& many_rel(self.documentation, evs, ks, "documentation"@)
    }

    fn from_xml(evs: &Vec<XmlEvent>, i: usize) -> (r: Result<Self, Error>) {
        let ks = readable_children(evs, i)?;
        let a = attrs_at(evs, i);
        let name = required(a, "name")?;
        let code = required(a, "code")?;
        let description = attribute(a, "description")?;
        let hidden = flag(a, "hidden")?;
        let cocoa = at_most_one::<Cocoa>(evs, &ks, "cocoa")?;
        let access_groups = many::<AccessGroup>(evs, &ks, "access-group")?;
        let commands = many::<Command>(evs, &ks, "command")?;
        let events = many::<Event>(evs, &ks, "event")?;
        let classes = many::<Class>(evs, &ks, "class")?;
        let class_extensions = many::<ClassExtension>(evs, &ks, "class-extension")?;
        let enumerations = many::<Enumeration>(evs, &ks, "enumeration")?;
        let record_types = many::<RecordType>(evs, &ks, "record-type")?;
        let value_types = many::<ValueType>(evs, &ks, "value-type")?;
        let documentation = many::<Documentation>(evs, &ks, "documentation")?;
        Ok(Suite { name, code, description, hidden, cocoa, access_groups, commands, events, classes, class_extensions, enumerations, record_types, value_types, documentation })
    }
}

impl ToXml for Suite {
    open spec fn xml_text(self, tag: Seq<char>) -> Seq<char> {
        element_xml(
            tag,
            attr_text("name"@, self.name@) +
                attr_text("code"@, self.code@) +
                opt_attr_text("description"@, self.description) +
                flag_attr_text("hidden"@, self.hidden),
            one_text(self.cocoa, "cocoa"@) +
                many_text(self.access_groups@, "access-group"@) +
                many_text(self.commands@, "command"@) +
                many_text(self.events@, "event"@) +
                many_text(self.classes@, "class"@) +
                many_text(self.class_extensions@, "class-extension"@) +
                many_text(self.enumerations@, "enumeration"@) +
                many_text(self.record_types@, "record-type"@) +
                many_text(self.value_types@, "value-type"@) +
                many_text(self.documentation@, "documentation"@),
        )
    }

    fn write_xml(&self, tag: &str, out: &mut String) {
        let mut attrs = String::new();
        push_attr(&mut attrs, "name", self.name.as_str());
        assert(attrs@ =~= attr_text("name"@, self.name@));
        push_attr(&mut attrs, "code", self.code.as_str());
        push_opt_attr(&mut attrs, "description", &self.description);
        push_flag_attr(&mut attrs, "hidden", self.hidden);
        let mut body = String::new();
        write_one(&self.cocoa, "cocoa", &mut body);
        assert(body@ =~= one_text(self.cocoa, "cocoa"@));
        write_many(&self.access_groups, "access-group", &mut body);
        write_many(&self.commands, "command", &mut body);
        write_many(&self.events, "event", &mut body);
        write_many(&self.classes, "class", &mut body);
        write_many(&self.class_extensions, "class-extension", &mut body);
        write_many(&self.enumerations, "enumeration", &mut body);
        write_many(&self.record_types, "record-type", &mut body);
        write_many(&self.value_types, "value-type", &mut body);
        write_many(&self.documentation, "documentation", &mut body);
        write_element(out, tag, &attrs, &body);
    }
}

/// The attribute slots written for a [`Suite`].
pub open spec fn suite_slots(x: Suite) -> Seq<(Seq<char>, Option<Seq<char>>)> {
    seq![
        req_slot("name"@, x.name@),
        req_slot("code"@, x.code@),
        opt_slot("description"@, x.description),
        flag_slot("hidden"@, x.hidden),
    ]
}

/// The attribute keys of a [`Suite`] are distinct, and so are the names of
/// its child elements.
proof fn lemma_suite_names(x: Suite)
    ensures
        keys_distinct(suite_slots(x)),
        "cocoa"@ != "access-group"@,
        "cocoa"@ != "command"@,
        "cocoa"@ != "event"@,
        "cocoa"@ != "class"@,
        "cocoa"@ != "class-extension"@,
        "cocoa"@ != "enumeration"@,
        "cocoa"@ != "record-type"@,
        "cocoa"@ != "value-type"@,
        "cocoa"@ != "documentation"@,
        "access-group"@ != "command"@,
        "access-group"@ != "event"@,
        "access-group"@ != "class"@,
        "access-group"@ != "class-extension"@,
        "access-group"@ != "enumeration"@,
        "access-group"@ != "record-type"@,
        "access-group"@ != "value-type"@,
        "access-group"@ != "documentation"@,
        "command"@ != "event"@,
        "command"@ != "class"@,
        "command"@ != "class-extension"@,
        "command"@ != "enumeration"@,
        "command"@ != "record-type"@,
        "command"@ != "value-type"@,
        "command"@ != "documentation"@,
        "event"@ != "class"@,
        "event"@ != "class-extension"@,
        "event"@ != "enumeration"@,
        "event"@ != "record-type"@,
        "event"@ != "value-type"@,
        "event"@ != "documentation"@,
        "class"@ != "class-extension"@,
        "class"@ != "enumeration"@,
        "class"@ != "record-type"@,
        "class"@ != "value-type"@,
        "class"@ != "documentation"@,
        "class-extension"@ != "enumeration"@,
        "class-extension"@ != "record-type"@,
        "class-extension"@ != "value-type"@,
        "class-extension"@ != "documentation"@,
        "enumeration"@ != "record-type"@,
        "enumeration"@ != "value-type"@,
        "enumeration"@ != "documentation"@,
        "record-type"@ != "value-type"@,
        "record-type"@ != "documentation"@,
        "value-type"@ != "documentation"@,
{
    reveal_strlit("code");
    reveal_strlit("description");
    reveal_strlit("hidden");
    reveal_strlit("name");
    assert("name"@[0] != "code"@[0]);
    assert("name"@.len() != "description"@.len());
    assert("name"@.len() != "hidden"@.len());
    assert("code"@.len() != "description"@.len());
    assert("code"@.len() != "hidden"@.len());
    assert("description"@.len() != "hidden"@.len());
    reveal_strlit("access-group");
    reveal_strlit("class");
    reveal_strlit("class-extension");
    reveal_strlit("cocoa");
    reveal_strlit("command");
    reveal_strlit("documentation");
    reveal_strlit("enumeration");
    reveal_strlit("event");
    reveal_strlit("record-type");
    reveal_strlit("value-type");
    assert("cocoa"@.len() != "access-group"@.len());
    assert("cocoa"@.len() != "command"@.len());
    assert("cocoa"@[0] != "event"@[0]);
    assert("cocoa"@[1] != "class"@[1]);
    assert("cocoa"@.len() != "class-extension"@.len());
    assert("cocoa"@.len() != "enumeration"@.len());
    assert("cocoa"@.len() != "record-type"@.len());
    assert("cocoa"@.len() != "value-type"@.len());
    assert("cocoa"@.len() != "documentation"@.len());
    assert("access-group"@.len() != "command"@.len());
    assert("access-group"@.len() != "event"@.len());
    assert("access-group"@.len() != "class"@.len());
    assert("access-group"@.len() != "class-extension"@.len());
    assert("access-group"@.len() != "enumeration"@.len());
    assert("access-group"@.len() != "record-type"@.len());
    assert("access-group"@.len() != "value-type"@.len());
    assert("access-group"@.len() != "documentation"@.len());
    assert("command"@.len() != "event"@.len());
    assert("command"@.len() != "class"@.len());
    assert("command"@.len() != "class-extension"@.len());
    assert("command"@.len() != "enumeration"@.len());
    assert("command"@.len() != "record-type"@.len());
    assert("command"@.len() != "value-type"@.len());
    assert("command"@.len() != "documentation"@.len());
    assert("event"@[0] != "class"@[0]);
    assert("event"@.len() != "class-extension"@.len());
    assert("event"@.len() != "enumeration"@.len());
    assert("event"@.len() != "record-type"@.len());
    assert("event"@.len() != "value-type"@.len());
    assert("event"@.len() != "documentation"@.len());
    assert("class"@.len() != "class-extension"@.len());
    assert("class"@.len() != "enumeration"@.len());
    assert("class"@.len() != "record-type"@.len());
    assert("class"@.len() != "value-type"@.len());
    assert("class"@.len() != "documentation"@.len());
    assert("class-extension"@.len() != "enumeration"@.len());
    assert("class-extension"@.len() != "record-type"@.len());
    assert("class-extension"@.len() != "value-type"@.len());
    assert("class-extension"@.len() != "documentation"@.len());
    assert("enumeration"@[0] != "record-type"@[0]);
    assert("enumeration"@.len() != "value-type"@.len());
    assert("enumeration"@.len() != "documentation"@.len());
    assert("record-type"@.len() != "value-type"@.len());
    assert("record-type"@.len() != "documentation"@.len());
    assert("value-type"@.len() != "documentation"@.len());
}

impl ReadsBack for Suite {
    open spec fn event_span(self) -> int {
        element_span(many_span(opt_seq(self.cocoa)) + many_span(self.access_groups@) + many_span(self.commands@) + many_span(self.events@) + many_span(self.classes@) + many_span(self.class_extensions@) + many_span(self.enumerations@) + many_span(self.record_types@) + many_span(self.value_types@) + many_span(self.documentation@))
    }

    open spec fn spelled(self, evs: Seq<EventView>, i: int, tag: Seq<char>) -> bool {
        &&& element_spelled(evs, i, tag, suite_slots(self), many_span(opt_seq(self.cocoa)) + many_span(self.access_groups@) + many_span(self.commands@) + many_span(self.events@) + many_span(self.classes@) + many_span(self.class_extensions@) + many_span(self.enumerations@) + many_span(self.record_types@) + many_span(self.value_types@) + many_span(self.documentation@))
        &&& many_spelled(opt_seq(self.cocoa), evs, i + 1, "cocoa"@)
        &&& many_spelled(self.access_groups@, evs, i + 1 + many_span(opt_seq(self.cocoa)), "access-group"@)
        &&& many_spelled(self.commands@, evs, i + 1 + many_span(opt_seq(self.cocoa)) + many_span(self.access_groups@), "command"@)
        &&& many_spelled(self.events@, evs, i + 1 + many_span(opt_seq(self.cocoa)) + many_span(self.access_groups@) + many_span(self.commands@), "event"@)
        &&& many_spelled(self.classes@, evs, i + 1 + many_span(opt_seq(self.cocoa)) + many_span(self.access_groups@) + many_span(self.commands@) + many_span(self.events@), "class"@)
        &&& many_spelled(self.class_extensions@, evs, i + 1 + many_span(opt_seq(self.cocoa)) + many_span(self.access_groups@) + many_span(self.commands@) + many_span(self.events@) + many_span(self.classes@), "class-extension"@)
        &&& many_spelled(self.enumerations@, evs, i + 1 + many_span(opt_seq(self.cocoa)) + many_span(self.access_groups@) + many_span(self.commands@) + many_span(self.events@) + many_span(self.classes@) + many_span(self.class_extensions@), "enumeration"@)
        &&& many_spelled(self.record_types@, evs, i + 1 + many_span(opt_seq(self.cocoa)) + many_span(self.access_groups@) + many_span(self.commands@) + many_span(self.events@) + many_span(self.classes@) + many_span(self.class_extensions@) + many_span(self.enumerations@), "record-type"@)
        &&& many_spelled(self.value_types@, evs, i + 1 + many_span(opt_seq(self.cocoa)) + many_span(self.access_groups@) + many_span(self.commands@) + many_span(self.events@) + many_span(self.classes@) + many_span(self.class_extensions@) + many_span(self.enumerations@) + many_span(self.record_types@), "value-type"@)
        &&& many_spelled(self.documentation@, evs, i + 1 + many_span(opt_seq(self.cocoa)) + many_span(self.access_groups@) + many_span(self.commands@) + many_span(self.events@) + many_span(self.classes@) + many_span(self.class_extensions@) + many_span(self.enumerations@) + many_span(self.record_types@) + many_span(self.value_types@), "documentation"@)
    }

    open spec fn writable(self) -> bool {
        &&& all_writable(opt_seq(self.cocoa))
        &&& all_writable(self.access_groups@)
        &&& all_writable(self.commands@)
        &&& all_writable(self.events@)
        &&& all_writable(self.classes@)
        &&& all_writable(self.class_extensions@)
        &&& all_writable(self.enumerations@)
        &&& all_writable(self.record_types@)
        &&& all_writable(self.value_types@)
        &&& all_writable(self.documentation@)
    }

    #[verifier::spinoff_prover]
    #[verifier::rlimit(100)]
    proof fn lemma_reads_back(self, evs: Seq<EventView>, i: int, tag: Seq<char>) {
        let slots = suite_slots(self);
        lemma_suite_names(self);
        let p0 = i + 1;
        let k0: Seq<int> = seq![];
        lemma_decode_empty(evs);
        assert(kids_from(evs, p0) =~= k0 + kids_from(evs, p0));
        let g0 = opt_seq(self.cocoa);
        lemma_many_reads_back(g0, evs, p0, "cocoa"@);
        let s0 = many_starts(g0, p0);
        let p1 = p0 + many_span(g0);
        let k1 = k0 + s0;
        lemma_seq_assoc(k0, s0, kids_from(evs, p1));
        lemma_starts_tagged(g0, evs, p0, "cocoa"@);
        lemma_tagged_decode(evs, s0, "cocoa"@);
        lemma_decode_append(evs, k0, s0);
        let g1 = self.access_groups@;
        lemma_many_reads_back(g1, evs, p1, "access-group"@);
        let s1 = many_starts(g1, p1);
        let p2 = p1 + many_span(g1);
        let k2 = k1 + s1;
        lemma_seq_assoc(k1, s1, kids_from(evs, p2));
        lemma_starts_tagged(g1, evs, p1, "access-group"@);
        lemma_tagged_decode(evs, s1, "access-group"@);
        lemma_decode_append(evs, k1, s1);
        let g2 = self.commands@;
        lemma_many_reads_back(g2, evs, p2, "command"@);
        let s2 = many_starts(g2, p2);
        let p3 = p2 + many_span(g2);
        let k3 = k2 + s2;
        lemma_seq_assoc(k2, s2, kids_from(evs, p3));
        lemma_starts_tagged(g2, evs, p2, "command"@);
        lemma_tagged_decode(evs, s2, "command"@);
        lemma_decode_append(evs, k2, s2);
        let g3 = self.events@;
        lemma_many_reads_back(g3, evs, p3, "event"@);
        let s3 = many_starts(g3, p3);
        let p4 = p3 + many_span(g3);
        let k4 = k3 + s3;
        lemma_seq_assoc(k3, s3, kids_from(evs, p4));
        lemma_starts_tagged(g3, evs, p3, "event"@);
        lemma_tagged_decode(evs, s3, "event"@);
        lemma_decode_append(evs, k3, s3);
        let g4 = self.classes@;
        lemma_many_reads_back(g4, evs, p4, "class"@);
        let s4 = many_starts(g4, p4);
        let p5 = p4 + many_span(g4);
        let k5 = k4 + s4;
        lemma_seq_assoc(k4, s4, kids_from(evs, p5));
        lemma_starts_tagged(g4, evs, p4, "class"@);
        lemma_tagged_decode(evs, s4, "class"@);
        lemma_decode_append(evs, k4, s4);
        let g5 = self.class_extensions@;
        lemma_many_reads_back(g5, evs, p5, "class-extension"@);
        let s5 = many_starts(g5, p5);
        let p6 = p5 + many_span(g5);
        let k6 = k5 + s5;
        lemma_seq_assoc(k5, s5, kids_from(evs, p6));
        lemma_starts_tagged(g5, evs, p5, "class-extension"@);
        lemma_tagged_decode(evs, s5, "class-extension"@);
        lemma_decode_append(evs, k5, s5);
        let g6 = self.enumerations@;
        lemma_many_reads_back(g6, evs, p6, "enumeration"@);
        let s6 = many_starts(g6, p6);
        let p7 = p6 + many_span(g6);
        let k7 = k6 + s6;
        lemma_seq_assoc(k6, s6, kids_from(evs, p7));
        lemma_starts_tagged(g6, evs, p6, "enumeration"@);
        lemma_tagged_decode(evs, s6, "enumeration"@);
        lemma_decode_append(evs, k6, s6);
        let g7 = self.record_types@;
        lemma_many_reads_back(g7, evs, p7, "record-type"@);
        let s7 = many_starts(g7, p7);
        let p8 = p7 + many_span(g7);
        let k8 = k7 + s7;
        lemma_seq_assoc(k7, s7, kids_from(evs, p8));
        lemma_starts_tagged(g7, evs, p7, "record-type"@);
        lemma_tagged_decode(evs, s7, "record-type"@);
        lemma_decode_append(evs, k7, s7);
        let g8 = self.value_types@;
        lemma_many_reads_back(g8, evs, p8, "value-type"@);
        let s8 = many_starts(g8, p8);
        let p9 = p8 + many_span(g8);
        let k9 = k8 + s8;
        lemma_seq_assoc(k8, s8, kids_from(evs, p9));
        lemma_starts_tagged(g8, evs, p8, "value-type"@);
        lemma_tagged_decode(evs, s8, "value-type"@);
        lemma_decode_append(evs, k8, s8);
        let g9 = self.documentation@;
        lemma_many_reads_back(g9, evs, p9, "documentation"@);
        let s9 = many_starts(g9, p9);
        let p10 = p9 + many_span(g9);
        let k10 = k9 + s9;
        lemma_seq_assoc(k9, s9, kids_from(evs, p10));
        lemma_starts_tagged(g9, evs, p9, "documentation"@);
        lemma_tagged_decode(evs, s9, "documentation"@);
        lemma_decode_append(evs, k9, s9);
        let n = p10 - p0;
        assert(forall|close: Seq<u8>| #![trigger content_end(evs, p0, close)] content_end(evs, p0, close) == content_end(evs, p0 + n, close));
        lemma_element_tags(evs, i, tag, slots, n, k10);
        lemma_named_extend(evs, k0, s0, "cocoa"@, "cocoa"@);
        lemma_named_extend(evs, k1, s1, "access-group"@, "cocoa"@);
        lemma_named_extend(evs, k2, s2, "command"@, "cocoa"@);
        lemma_named_extend(evs, k3, s3, "event"@, "cocoa"@);
        lemma_named_extend(evs, k4, s4, "class"@, "cocoa"@);
        lemma_named_extend(evs, k5, s5, "class-extension"@, "cocoa"@);
        lemma_named_extend(evs, k6, s6, "enumeration"@, "cocoa"@);
        lemma_named_extend(evs, k7, s7, "record-type"@, "cocoa"@);
        lemma_named_extend(evs, k8, s8, "value-type"@, "cocoa"@);
        lemma_named_extend(evs, k9, s9, "documentation"@, "cocoa"@);
        assert(k0 + s0 =~= s0);
        lemma_named_extend(evs, k0, s0, "cocoa"@, "access-group"@);
        lemma_named_extend(evs, k1, s1, "access-group"@, "access-group"@);
        lemma_named_extend(evs, k2, s2, "command"@, "access-group"@);
        lemma_named_extend(evs, k3, s3, "event"@, "access-group"@);
        lemma_named_extend(evs, k4, s4, "class"@, "access-group"@);
        lemma_named_extend(evs, k5, s5, "class-extension"@, "access-group"@);
        lemma_named_extend(evs, k6, s6, "enumeration"@, "access-group"@);
        lemma_named_extend(evs, k7, s7, "record-type"@, "access-group"@);
        lemma_named_extend(evs, k8, s8, "value-type"@, "access-group"@);
        lemma_named_extend(evs, k9, s9, "documentation"@, "access-group"@);
        assert(k0 + s1 =~= s1);
        lemma_named_extend(evs, k0, s0, "cocoa"@, "command"@);
        lemma_named_extend(evs, k1, s1, "access-group"@, "command"@);
        lemma_named_extend(evs, k2, s2, "command"@, "command"@);
        lemma_named_extend(evs, k3, s3, "event"@, "command"@);
        lemma_named_extend(evs, k4, s4, "class"@, "command"@);
        lemma_named_extend(evs, k5, s5, "class-extension"@, "command"@);
        lemma_named_extend(evs, k6, s6, "enumeration"@, "command"@);
        lemma_named_extend(evs, k7, s7, "record-type"@, "command"@);
        lemma_named_extend(evs, k8, s8, "value-type"@, "command"@);
        lemma_named_extend(evs, k9, s9, "documentation"@, "command"@);
        assert(k0 + s2 =~= s2);
        lemma_named_extend(evs, k0, s0, "cocoa"@, "event"@);
        lemma_named_extend(evs, k1, s1, "access-group"@, "event"@);
        lemma_named_extend(evs, k2, s2, "command"@, "event"@);
        lemma_named_extend(evs, k3, s3, "event"@, "event"@);
        lemma_named_extend(evs, k4, s4, "class"@, "event"@);
        lemma_named_extend(evs, k5, s5, "class-extension"@, "event"@);
        lemma_named_extend(evs, k6, s6, "enumeration"@, "event"@);
        lemma_named_extend(evs, k7, s7, "record-type"@, "event"@);
        lemma_named_extend(evs, k8, s8, "value-type"@, "event"@);
        lemma_named_extend(evs, k9, s9, "documentation"@, "event"@);
        assert(k0 + s3 =~= s3);
        lemma_named_extend(evs, k0, s0, "cocoa"@, "class"@);
        lemma_named_extend(evs, k1, s1, "access-group"@, "class"@);
        lemma_named_extend(evs, k2, s2, "command"@, "class"@);
        lemma_named_extend(evs, k3, s3, "event"@, "class"@);
        lemma_named_extend(evs, k4, s4, "class"@, "class"@);
        lemma_named_extend(evs, k5, s5, "class-extension"@, "class"@);
        lemma_named_extend(evs, k6, s6, "enumeration"@, "class"@);
        lemma_named_extend(evs, k7, s7, "record-type"@, "class"@);
        lemma_named_extend(evs, k8, s8, "value-type"@, "class"@);
        lemma_named_extend(evs, k9, s9, "documentation"@, "class"@);
        assert(k0 + s4 =~= s4);
        lemma_named_extend(evs, k0, s0, "cocoa"@, "class-extension"@);
        lemma_named_extend(evs, k1, s1, "access-group"@, "class-extension"@);
        lemma_named_extend(evs, k2, s2, "command"@, "class-extension"@);
        lemma_named_extend(evs, k3, s3, "event"@, "class-extension"@);
        lemma_named_extend(evs, k4, s4, "class"@, "class-extension"@);
        lemma_named_extend(evs, k5, s5, "class-extension"@, "class-extension"@);
        lemma_named_extend(evs, k6, s6, "enumeration"@, "class-extension"@);
        lemma_named_extend(evs, k7, s7, "record-type"@, "class-extension"@);
        lemma_named_extend(evs, k8, s8, "value-type"@, "class-extension"@);
        lemma_named_extend(evs, k9, s9, "documentation"@, "class-extension"@);
        assert(k0 + s5 =~= s5);
        lemma_named_extend(evs, k0, s0, "cocoa"@, "enumeration"@);
        lemma_named_extend(evs, k1, s1, "access-group"@, "enumeration"@);
        lemma_named_extend(evs, k2, s2, "command"@, "enumeration"@);
        lemma_named_extend(evs, k3, s3, "event"@, "enumeration"@);
        lemma_named_extend(evs, k4, s4, "class"@, "enumeration"@);
        lemma_named_extend(evs, k5, s5, "class-extension"@, "enumeration"@);
        lemma_named_extend(evs, k6, s6, "enumeration"@, "enumeration"@);
        lemma_named_extend(evs, k7, s7, "record-type"@, "enumeration"@);
        lemma_named_extend(evs, k8, s8, "value-type"@, "enumeration"@);
        lemma_named_extend(evs, k9, s9, "documentation"@, "enumeration"@);
        assert(k0 + s6 =~= s6);
        lemma_named_extend(evs, k0, s0, "cocoa"@, "record-type"@);
        lemma_named_extend(evs, k1, s1, "access-group"@, "record-type"@);
        lemma_named_extend(evs, k2, s2, "command"@, "record-type"@);
        lemma_named_extend(evs, k3, s3, "event"@, "record-type"@);
        lemma_named_extend(evs, k4, s4, "class"@, "record-type"@);
        lemma_named_extend(evs, k5, s5, "class-extension"@, "record-type"@);
        lemma_named_extend(evs, k6, s6, "enumeration"@, "record-type"@);
        lemma_named_extend(evs, k7, s7, "record-type"@, "record-type"@);
        lemma_named_extend(evs, k8, s8, "value-type"@, "record-type"@);
        lemma_named_extend(evs, k9, s9, "documentation"@, "record-type"@);
        assert(k0 + s7 =~= s7);
        lemma_named_extend(evs, k0, s0, "cocoa"@, "value-type"@);
        lemma_named_extend(evs, k1, s1, "access-group"@, "value-type"@);
        lemma_named_extend(evs, k2, s2, "command"@, "value-type"@);
        lemma_named_extend(evs, k3, s3, "event"@, "value-type"@);
        lemma_named_extend(evs, k4, s4, "class"@, "value-type"@);
        lemma_named_extend(evs, k5, s5, "class-extension"@, "value-type"@);
        lemma_named_extend(evs, k6, s6, "enumeration"@, "value-type"@);
        lemma_named_extend(evs, k7, s7, "record-type"@, "value-type"@);
        lemma_named_extend(evs, k8, s8, "value-type"@, "value-type"@);
        lemma_named_extend(evs, k9, s9, "documentation"@, "value-type"@);
        assert(k0 + s8 =~= s8);
        lemma_named_extend(evs, k0, s0, "cocoa"@, "documentation"@);
        lemma_named_extend(evs, k1, s1, "access-group"@, "documentation"@);
        lemma_named_extend(evs, k2, s2, "command"@, "documentation"@);
        lemma_named_extend(evs, k3, s3, "event"@, "documentation"@);
        lemma_named_extend(evs, k4, s4, "class"@, "documentation"@);
        lemma_named_extend(evs, k5, s5, "class-extension"@, "documentation"@);
        lemma_named_extend(evs, k6, s6, "enumeration"@, "documentation"@);
        lemma_named_extend(evs, k7, s7, "record-type"@, "documentation"@);
        lemma_named_extend(evs, k8, s8, "value-type"@, "documentation"@);
        lemma_named_extend(evs, k9, s9, "documentation"@, "documentation"@);
        assert(k0 + s9 =~= s9);
        lemma_decode_clean(evs, k10);
        let a = tag_attrs(evs[i]);
        lemma_attrs_read_back(a, slots, 0);
        lemma_attrs_read_back(a, slots, 1);
        lemma_attrs_read_back(a, slots, 2);
        lemma_attrs_read_back(a, slots, 3);
        lemma_flag_reads_back(self.hidden);
    }
}

/// Strict mode knows the name a [`Suite`] is written with, and checks none
/// of its attributes against a closed set.
proof fn lemma_suite_strict_name()
    ensures
        known_names().contains("suite"@),
        closed_rule("suite"@) is None,
{
    reveal_strlit("suite");
    reveal_strlit("accessor");
    assert("suite"@.len() != "accessor"@.len());
    reveal_strlit("access-group");
    assert("suite"@.len() != "access-group"@.len());
    reveal_strlit("cocoa");
    assert("suite"@[0] != "cocoa"@[0]);
    reveal_strlit("contents");
    assert("suite"@.len() != "contents"@.len());
    reveal_strlit("direct-parameter");
    assert("suite"@.len() != "direct-parameter"@.len());
    reveal_strlit("element");
    assert("suite"@.len() != "element"@.len());
    reveal_strlit("parameter");
    assert("suite"@.len() != "parameter"@.len());
    reveal_strlit("property");
    assert("suite"@.len() != "property"@.len());
    assert(known_names()[20] == "suite"@);
}

impl StrictSafe for Suite {
    open spec fn element_name() -> Seq<char> {
        "suite"@
    }

    open spec fn canonical(self) -> bool {
        &&& all_canonical(opt_seq(self.cocoa))
        &&& all_canonical(self.access_groups@)
        &&& all_canonical(self.commands@)
        &&& all_canonical(self.events@)
        &&& all_canonical(self.classes@)
        &&& all_canonical(self.class_extensions@)
        &&& all_canonical(self.enumerations@)
        &&& all_canonical(self.record_types@)
        &&& all_canonical(self.value_types@)
        &&& all_canonical(self.documentation@)
    }

    proof fn lemma_passes_strict(self, evs: Seq<EventView>, i: int) {
        let slots = suite_slots(self);
        lemma_suite_names(self);
        lemma_suite_strict_name();
        let p0 = i + 1;
        lemma_many_pass_strict(opt_seq(self.cocoa), evs, p0);
        let p1 = p0 + many_span(opt_seq(self.cocoa));
        lemma_many_pass_strict(self.access_groups@, evs, p1);
        let p2 = p1 + many_span(self.access_groups@);
        lemma_many_pass_strict(self.commands@, evs, p2);
        let p3 = p2 + many_span(self.commands@);
        lemma_many_pass_strict(self.events@, evs, p3);
        let p4 = p3 + many_span(self.events@);
        lemma_many_pass_strict(self.classes@, evs, p4);
        let p5 = p4 + many_span(self.classes@);
        lemma_many_pass_strict(self.class_extensions@, evs, p5);
        let p6 = p5 + many_span(self.class_extensions@);
        lemma_many_pass_strict(self.enumerations@, evs, p6);
        let p7 = p6 + many_span(self.enumerations@);
        lemma_many_pass_strict(self.record_types@, evs, p7);
        let p8 = p7 + many_span(self.record_types@);
        lemma_many_pass_strict(self.value_types@, evs, p8);
        let p9 = p8 + many_span(self.value_types@);
        lemma_many_pass_strict(self.documentation@, evs, p9);
        let p10 = p9 + many_span(self.documentation@);
        lemma_tags_pass_strict(evs, i, "suite"@, slots, p10 - p0);
    }
}
/// Whether a document's events read as a [`Dictionary`]: whitespace, then a
/// complete root element that reads as one. Whatever follows the root
/// element is not read.
pub open spec fn document_ok(evs: Seq<EventView>) -> bool {
    &&& root_from(evs, 0) is Some
    &&& elem_end(evs, root_from(evs, 0)->Some_0) is Some
    &&& Dictionary::xml_ok(evs, root_from(evs, 0)->Some_0)
}

/// Whether `d` is what a document's events read as.
pub open spec fn document_rel(d: Dictionary, evs: Seq<EventView>) -> bool {
    &&& root_from(evs, 0) is Some
    &&& d.xml_rel(evs, root_from(evs, 0)->Some_0)
}

/// What `quick_xml::DeError::InvalidXml` makes of a tokenizer failure.
pub uninterp spec fn invalid_xml(e: ReadError) -> quick_xml::DeError;

/// The error the deserializer reports for a tokenizer failure:
/// `quick_xml::DeError::InvalidXml` holding a copy of the failure, a value
/// made from the failure alone; it is named by [`invalid_xml`].
#[verifier::external_body]
fn reader_failure(e: &ReadError) -> (r: quick_xml::DeError)
    ensures
        r == invalid_xml(*e),
{
    quick_xml::DeError::InvalidXml(e.clone())
}

/// Position of the first tokenizer failure among the events from `k` on.
pub open spec fn first_failure(evs: Seq<EventView>, k: int) -> Option<int>
    decreases evs.len() - k,
{
    if 0 <= k < evs.len() {
        if evs[k] is Failed {
            Some(k)
        } else {
            first_failure(evs, k + 1)
        }
    } else {
        None
    }
}

/// The error reported for a document that does not hold a complete root
/// element: the first tokenizer failure, if the tokenizer failed, else an
/// unexpected end of input.
pub open spec fn incomplete_error(evs: Seq<XmlEvent>) -> Error {
    match first_failure(views(evs), 0) {
        Some(k) => match evs[k] {
            XmlEvent::Failed(e) => Error::Xml(invalid_xml(e)),
            _ => Error::Xml(custom_error("unexpected end of input"@)),
        },
        None => Error::Xml(custom_error("unexpected end of input"@)),
    }
}

/// The error reported for a document that does not hold a complete root
/// element: the tokenizer's failure, if it failed, else an unexpected end.
fn incomplete(evs: &Vec<XmlEvent>) -> (r: Error)
    ensures
        r == incomplete_error(evs@),
{
    let mut k: usize = 0;
    while k < evs.len()
        invariant
            0 <= k <= views(evs@).len(),
            first_failure(views(evs@), 0) == first_failure(views(evs@), k as int),
        decreases evs.len() - k,
    {
        if let XmlEvent::Failed(e) = &evs[k] {
            return Error::Xml(reader_failure(e));
        }
        k = k + 1;
    }
    shape_error("unexpected end of input")
}

/// Whether an outcome is what the strict check and the reading of two event
/// streams of the same document call for.
pub open spec fn strict_outcome(
    r: Result<Dictionary, Error>,
    plain: Seq<EventView>,
    ns: Seq<EventView>,
) -> bool {
    match strict_from(plain, 0) {
        Verdict::Pass => match r {
            Ok(d) => document_ok(ns) && document_rel(d, ns),
            Err(e) => !document_ok(ns) && e is Xml,
        },
        v => r is Err && verdict_result(
            match r {
                Ok(_) => Ok(()),
                Err(e) => Err(e),
            },
            v,
        ),
    }
}

impl Dictionary {
    /// Reads a document from its events: the root element, preceded by
    /// nothing but whitespace, must be complete and read as a dictionary.
    pub fn from_events(evs: &Vec<XmlEvent>) -> (r: Result<Dictionary, Error>)
        ensures
            r is Ok <==> document_ok(views(evs@)),
            r matches Ok(d) ==> document_rel(d, views(evs@)),
            r matches Err(e) ==> e is Xml,
    {
        let root = match root_position(evs) {
            Some(p) => p,
            None => return Err(incomplete(evs)),
        };
        proof {
            crate::document::lemma_root_from_bounds(views(evs@), 0);
        }
        match element_end(evs, root) {
            Some(_) => {},
            None => return Err(incomplete(evs)),
        }
        Dictionary::from_xml(evs, root)
    }

    /// Parses an sdef document, tolerating unknown XML elements: anything
    /// outside the modelled DTD subset is passed over. The result is what
    /// [`Dictionary::from_events`] reads from the events quick-xml's
    /// namespace-aware reader yields for `xml`, whose plain values are
    /// [`ns_doc`]`(xml)`.
    pub fn parse(xml: &str) -> (r: Result<Dictionary, Error>)
        ensures
            r is Ok <==> document_ok(ns_doc(xml@)),
            r matches Ok(d) ==> document_rel(d, ns_doc(xml@)),
            r matches Err(e) ==> e is Xml,
    {
        let evs = ns_events(xml);
        Dictionary::from_events(&evs)
    }

    /// Parses an sdef document and rejects anything outside the modelled
    /// DTD subset: [`Error::UnknownElement`] for unmodelled element names,
    /// [`Error::XIncludeUnsupported`] for `<xi:include>` directives and
    /// [`Error::UnknownAttributeValue`] for out-of-range closed-enum values.
    /// A document that passes is then parsed as [`Dictionary::parse`] does.
    /// The check reads the events of quick-xml's `Reader`, whose plain values
    /// are [`plain_doc`]`(xml)`; the parse reads those of its `NsReader`,
    /// whose plain values are [`ns_doc`]`(xml)`.
    pub fn from_str_strict(xml: &str) -> (r: Result<Dictionary, Error>)
        ensures
            strict_outcome(r, plain_doc(xml@), ns_doc(xml@)),
    {
        let plain = crate::events::plain_events(xml);
        match crate::strict::check_events(&plain) {
            Ok(()) => {},
            Err(e) => return Err(e),
        }
        let ns = ns_events(xml);
        Dictionary::from_events(&ns)
    }
}

impl std::str::FromStr for Dictionary {
    type Err = Error;

    /// Lenient parsing: see [`Dictionary::parse`].
    fn from_str(xml: &str) -> (r: Result<Self, Self::Err>)
        ensures
            r is Ok <==> document_ok(ns_doc(xml@)),
            r matches Ok(d) ==> document_rel(d, ns_doc(xml@)),
            r matches Err(e) ==> e is Xml,
    {
        Dictionary::parse(xml)
    }
}

impl Dictionary {
    /// Writes the dictionary out as an XML document: the `<dictionary>`
    /// element with its attributes and children, each child element grouped
    /// by field. Attribute values and `<html>` text are escaped, `bool`
    /// attributes are written only when set and absent optional ones not at
    /// all. Writing never fails.
    pub fn to_xml_string(&self) -> (r: Result<String, Error>)
        ensures
            r matches Ok(s) && s@ == self.xml_text("dictionary"@),
    {
        let mut out = String::new();
        self.write_xml("dictionary", &mut out);
        assert(out@ =~= self.xml_text("dictionary"@));
        Ok(out)
    }
}

/// What is written reads back: events that spell a dictionary as
/// [`Dictionary::to_xml_string`] lays it out, from the first event on, read
/// as that dictionary, for every dictionary none of whose typed values is an
/// `Other` that wraps one of the DTD's own spellings. [`Dictionary::from_events`]
/// therefore succeeds on them, with a result that holds the same values.
pub proof fn lemma_written_dictionary_reads_back(d: Dictionary, evs: Seq<EventView>)
    requires
        d.writable(),
        d.spelled(evs, 0, "dictionary"@),
    ensures
        document_ok(evs),
        document_rel(d, evs),
{
    d.lemma_reads_back(evs, 0, "dictionary"@);
    assert(root_from(evs, 0) == Some(0int));
}

/// What is written reads back from its text: where quick-xml's
/// namespace-aware tokenizer reads the text [`Dictionary::to_xml_string`]
/// writes for `d` as the events that spell `d`, lenient parsing of that text
/// succeeds and reads `d`'s values. What the tokenizer yields for a text is
/// only named here ([`ns_doc`]), so that reading is the premise.
pub proof fn lemma_written_text_reads_back(d: Dictionary)
    requires
        d.writable(),
        d.spelled(ns_doc(d.xml_text("dictionary"@)), 0, "dictionary"@),
    ensures
        document_ok(ns_doc(d.xml_text("dictionary"@))),
        document_rel(d, ns_doc(d.xml_text("dictionary"@))),
{
    lemma_written_dictionary_reads_back(d, ns_doc(d.xml_text("dictionary"@)));
}

/// What is written is the text of what reads back: wherever events spell a
/// dictionary from the first on, the text [`Dictionary::to_xml_string`]
/// writes for it is exactly the text of those events, and, for a dictionary
/// none of whose typed values is an `Other` that wraps one of the DTD's own
/// spellings, those events read back as that dictionary.
pub proof fn lemma_written_text_reads_back_from_its_events(d: Dictionary, evs: Seq<EventView>)
    requires
        d.spelled(evs, 0, "dictionary"@),
    ensures
        d.xml_text("dictionary"@) == crate::readback::events_text(evs.subrange(0, d.event_span())),
        d.writable() ==> document_ok(evs) && document_rel(d, evs),
{
    crate::readback::WritesText::lemma_written_text(d, evs, 0, "dictionary"@);
    if d.writable() {
        lemma_written_dictionary_reads_back(d, evs);
    }
}

/// Reading is a function of the events: two dictionaries read from the
/// same events agree in every value.
pub proof fn lemma_reading_is_unique(d1: Dictionary, d2: Dictionary, evs: Seq<EventView>)
    requires
        document_rel(d1, evs),
        document_rel(d2, evs),
    ensures
        crate::xmlmap::ReadsUniquely::same(d1, d2),
{
    crate::xmlmap::ReadsUniquely::lemma_reads_uniquely(d1, d2, evs, root_from(evs, 0)->Some_0);
}

/// A written dictionary reads back as itself: where events spell a
/// dictionary none of whose typed values is an `Other` that wraps one of the
/// DTD's own spellings, they read as a dictionary, and whatever is read
/// from them agrees with it in every value.
pub proof fn lemma_written_dictionary_reads_back_as_itself(
    d: Dictionary,
    read: Dictionary,
    evs: Seq<EventView>,
)
    requires
        d.writable(),
        d.spelled(evs, 0, "dictionary"@),
        document_rel(read, evs),
    ensures
        document_ok(evs),
        crate::xmlmap::ReadsUniquely::same(read, d),
{
    lemma_written_dictionary_reads_back(d, evs);
    lemma_reading_is_unique(read, d, evs);
}

/// What is written passes strict mode: events that spell a dictionary as
/// [`Dictionary::to_xml_string`] lays it out, from the first event on and
/// followed by the end of input, pass strict mode, for every dictionary none
/// of whose typed values is an `Other`.
pub proof fn lemma_written_dictionary_passes_strict(d: Dictionary, evs: Seq<EventView>)
    requires
        d.canonical(),
        d.spelled(evs, 0, "dictionary"@),
        d.event_span() < evs.len(),
        evs[d.event_span()] is Eof,
    ensures
        strict_from(evs, 0) is Pass,
{
    d.lemma_passes_strict(evs, 0);
}

/// Strict mode only narrows what is accepted: on a text that passes the
/// strict check, an outcome of strict parsing is `Ok` exactly when lenient
/// parsing of the same text is, with the same values read; on a text that
/// fails it, strict parsing fails.
pub proof fn lemma_strict_agrees_with_lenient(xml: Seq<char>, r: Result<Dictionary, Error>)
    requires
        strict_outcome(r, plain_doc(xml), ns_doc(xml)),
    ensures
        strict_from(plain_doc(xml), 0) is Pass ==> {
            &&& (r is Ok <==> document_ok(ns_doc(xml)))
            &&& (r matches Ok(d) ==> document_rel(d, ns_doc(xml)))
        },
        !(strict_from(plain_doc(xml), 0) is Pass) ==> r is Err,
{
}

// ---------------------------------------------------------------------------
// Lookups
// ---------------------------------------------------------------------------

/// Whether position `(s1, i1)` comes before `(s2, i2)` in the order suites,
/// then members within a suite.
pub open spec fn earlier(s1: int, i1: int, s2: int, i2: int) -> bool {
    s1 < s2 || (s1 == s2 && i1 < i2)
}

/// Whether the `c`-th command of suite `s` exists and is named `name`.
pub open spec fn command_named(d: Dictionary, s: int, c: int, name: Seq<char>) -> bool {
    &&& 0 <= s < d.suites@.len()
    &&& 0 <= c < d.suites@[s].commands@.len()
    &&& d.suites@[s].commands@[c].name@ == name
}

/// Whether the `c`-th class of suite `s` exists and is named `name`.
pub open spec fn class_named(d: Dictionary, s: int, c: int, name: Seq<char>) -> bool {
    &&& 0 <= s < d.suites@.len()
    &&& 0 <= c < d.suites@[s].classes@.len()
    &&& d.suites@[s].classes@[c].name@ == name
}

/// Whether the `c`-th enumeration of suite `s` exists and is named `name`.
pub open spec fn enumeration_named(d: Dictionary, s: int, c: int, name: Seq<char>) -> bool {
    &&& 0 <= s < d.suites@.len()
    &&& 0 <= c < d.suites@[s].enumerations@.len()
    &&& d.suites@[s].enumerations@[c].name@ == name
}

impl Dictionary {
    /// Find a command by its human-readable `name` attribute, searching all
    /// suites. Returns the first one in document order, or `None` if no
    /// command with that name exists.
    pub fn command(&self, name: &str) -> (r: Option<&Command>)
        ensures
            r is None <==> !exists|s: int, c: int| command_named(*self, s, c, name@),
            r matches Some(x) ==> exists|s: int, c: int|
                {
                    &&& command_named(*self, s, c, name@)
                    &&& *x == self.suites@[s].commands@[c]
                    &&& forall|s2: int, c2: int|
                        earlier(s2, c2, s, c) ==> !command_named(*self, s2, c2, name@)
                },
    {
        let mut s: usize = 0;
        while s < self.suites.len()
            invariant
                0 <= s <= self.suites@.len(),
                forall|s2: int, c2: int| 0 <= s2 < s ==> !command_named(*self, s2, c2, name@),
            decreases self.suites.len() - s,
        {
            let suite = &self.suites[s];
            let mut c: usize = 0;
            while c < suite.commands.len()
                invariant
                    0 <= s < self.suites@.len(),
                    *suite == self.suites@[s as int],
                    0 <= c <= suite.commands@.len(),
                    forall|s2: int, c2: int| 0 <= s2 < s ==> !command_named(*self, s2, c2, name@),
                    forall|c2: int| 0 <= c2 < c ==> !command_named(*self, s as int, c2, name@),
                decreases suite.commands.len() - c,
            {
                if same_text(suite.commands[c].name.as_str(), name) {
                    assert(command_named(*self, s as int, c as int, name@));
                    return Some(&suite.commands[c]);
                }
                c = c + 1;
            }
            s = s + 1;
        }
        None
    }

    /// Find a class by its human-readable `name` attribute, searching all
    /// suites. Returns the first one in document order, or `None` if no
    /// class with that name exists.
    pub fn class(&self, name: &str) -> (r: Option<&Class>)
        ensures
            r is None <==> !exists|s: int, c: int| class_named(*self, s, c, name@),
            r matches Some(x) ==> exists|s: int, c: int|
                {
                    &&& class_named(*self, s, c, name@)
                    &&& *x == self.suites@[s].classes@[c]
                    &&& forall|s2: int, c2: int|
                        earlier(s2, c2, s, c) ==> !class_named(*self, s2, c2, name@)
                },
    {
        let mut s: usize = 0;
        while s < self.suites.len()
            invariant
                0 <= s <= self.suites@.len(),
                forall|s2: int, c2: int| 0 <= s2 < s ==> !class_named(*self, s2, c2, name@),
            decreases self.suites.len() - s,
        {
            let suite = &self.suites[s];
            let mut c: usize = 0;
            while c < suite.classes.len()
                invariant
                    0 <= s < self.suites@.len(),
                    *suite == self.suites@[s as int],
                    0 <= c <= suite.classes@.len(),
                    forall|s2: int, c2: int| 0 <= s2 < s ==> !class_named(*self, s2, c2, name@),
                    forall|c2: int| 0 <= c2 < c ==> !class_named(*self, s as int, c2, name@),
                decreases suite.classes.len() - c,
            {
                if same_text(suite.classes[c].name.as_str(), name) {
                    assert(class_named(*self, s as int, c as int, name@));
                    return Some(&suite.classes[c]);
                }
                c = c + 1;
            }
            s = s + 1;
        }
        None
    }

    /// Find a suite by its `name` attribute. Returns the first one in
    /// document order, or `None` if no suite with that name exists.
    pub fn suite(&self, name: &str) -> (r: Option<&Suite>)
        ensures
            r is None <==> !exists|s: int| 0 <= s < self.suites@.len() && self.suites@[s].name@ == name@,
            r matches Some(x) ==> exists|s: int|
                {
                    &&& 0 <= s < self.suites@.len()
                    &&& self.suites@[s].name@ == name@
                    &&& *x == self.suites@[s]
                    &&& forall|s2: int| 0 <= s2 < s ==> self.suites@[s2].name@ != name@
                },
    {
        let mut s: usize = 0;
        while s < self.suites.len()
            invariant
                0 <= s <= self.suites@.len(),
                forall|s2: int| 0 <= s2 < s ==> self.suites@[s2].name@ != name@,
            decreases self.suites.len() - s,
        {
            if same_text(self.suites[s].name.as_str(), name) {
                return Some(&self.suites[s]);
            }
            s = s + 1;
        }
        None
    }

    /// Find an enumeration by its human-readable `name` attribute, searching all
    /// suites. Returns the first one in document order, or `None` if no
    /// enumeration with that name exists.
    pub fn enumeration(&self, name: &str) -> (r: Option<&Enumeration>)
        ensures
            r is None <==> !exists|s: int, c: int| enumeration_named(*self, s, c, name@),
            r matches Some(x) ==> exists|s: int, c: int|
                {
                    &&& enumeration_named(*self, s, c, name@)
                    &&& *x == self.suites@[s].enumerations@[c]
                    &&& forall|s2: int, c2: int|
                        earlier(s2, c2, s, c) ==> !enumeration_named(*self, s2, c2, name@)
                },
    {
        let mut s: usize = 0;
        while s < self.suites.len()
            invariant
                0 <= s <= self.suites@.len(),
                forall|s2: int, c2: int| 0 <= s2 < s ==> !enumeration_named(*self, s2, c2, name@),
            decreases self.suites.len() - s,
        {
            let suite = &self.suites[s];
            let mut c: usize = 0;
            while c < suite.enumerations.len()
                invariant
                    0 <= s < self.suites@.len(),
                    *suite == self.suites@[s as int],
                    0 <= c <= suite.enumerations@.len(),
                    forall|s2: int, c2: int| 0 <= s2 < s ==> !enumeration_named(*self, s2, c2, name@),
                    forall|c2: int| 0 <= c2 < c ==> !enumeration_named(*self, s as int, c2, name@),
                decreases suite.enumerations.len() - c,
            {
                if same_text(suite.enumerations[c].name.as_str(), name) {
                    assert(enumeration_named(*self, s as int, c as int, name@));
                    return Some(&suite.enumerations[c]);
                }
                c = c + 1;
            }
            s = s + 1;
        }
        None
    }
}

/// What the `(yes | no)` attributes of an element give the [`Suite`] read
/// from it: `yes` reads as set, `no` and an absent attribute as not set,
/// and any other text leaves the element unreadable.
pub proof fn lemma_suite_flags(x: Suite, evs: Seq<EventView>, i: int)
    requires
        x.xml_rel(evs, i),
    ensures
        crate::xmlmap::attr_value(tag_attrs(evs[i]), "hidden"@) == Ok::<Option<Seq<char>>, ()>(Some("yes"@)) ==> x.hidden,
        crate::xmlmap::attr_value(tag_attrs(evs[i]), "hidden"@) == Ok::<Option<Seq<char>>, ()>(Some("no"@)) ==> !x.hidden,
        crate::xmlmap::attr_value(tag_attrs(evs[i]), "hidden"@) == Ok::<Option<Seq<char>>, ()>(None) ==> !x.hidden,
        (crate::xmlmap::attr_value(tag_attrs(evs[i]), "hidden"@) matches Ok(Some(t)) && t != "yes"@ && t != "no"@) ==> !Suite::xml_ok(evs, i),
{
    crate::xmlmap::lemma_flag_field(tag_attrs(evs[i]), "hidden"@, x.hidden);
    crate::xmlmap::lemma_flag_refused(tag_attrs(evs[i]), "hidden"@);
}

/// The attribute text written for a [`Dictionary`] is that of its slots.
proof fn lemma_dictionary_attribute_text(x: Dictionary)
    ensures
        crate::readback::slots_text(dictionary_slots(x)) == opt_attr_text("title"@, x.title),
{
    let s = dictionary_slots(x);
    assert(s.len() == 1);
    crate::readback::lemma_slots_text_step(s, 0);
    assert(crate::readback::slot_text(s[0]) =~= opt_attr_text("title"@, x.title));
    assert(s.take(0) =~= Seq::<(Seq<char>, Option<Seq<char>>)>::empty());
    assert(s.take(1) =~= s);
    assert(crate::readback::slots_text(s) =~= opt_attr_text("title"@, x.title));
}

/// The element written for a [`Dictionary`] carries exactly the attributes that
/// reading it back takes, [`dictionary_slots`]: one for each slot that holds a value, in
/// slot order.
pub proof fn lemma_dictionary_written_attributes(x: Dictionary, tag: Seq<char>)
    ensures
        crate::readback::written_with_attributes(x.xml_text(tag), tag, dictionary_slots(x)),
{
    lemma_dictionary_attribute_text(x);
    crate::readback::lemma_element_attributes(tag, opt_attr_text("title"@, x.title), many_text(x.suites@, "suite"@) +
                many_text(x.documentation@, "documentation"@), dictionary_slots(x));
}

impl crate::readback::WritesText for Dictionary {
    proof fn lemma_written_text(self, evs: Seq<EventView>, i: int, tag: Seq<char>) {
        let slots = dictionary_slots(self);
        let n = many_span(self.suites@) + many_span(self.documentation@);
        let p0 = i + 1;
        crate::readback::lemma_many_text(self.suites@, evs, p0, "suite"@);
        let p1 = p0 + many_span(self.suites@);
        crate::readback::lemma_many_text(self.documentation@, evs, p1, "documentation"@);
        let p2 = p1 + many_span(self.documentation@);
        assert(p2 == i + 1 + n);
        crate::readback::lemma_events_text_split(evs, p0, p1, p2);
        lemma_dictionary_attribute_text(self);
        crate::readback::lemma_element_text(evs, i, tag, slots, n, many_text(self.suites@, "suite"@) +
                many_text(self.documentation@, "documentation"@));
    }
}

/// The attribute text written for a [`Suite`] is that of its slots.
proof fn lemma_suite_attribute_text(x: Suite)
    ensures
        crate::readback::slots_text(suite_slots(x)) == attr_text("name"@, x.name@) + attr_text("code"@, x.code@) + opt_attr_text("description"@, x.description) + flag_attr_text("hidden"@, x.hidden),
{
    let s = suite_slots(x);
    assert(s.len() == 4);
    crate::readback::lemma_slots_text_step(s, 0);
    assert(crate::readback::slot_text(s[0]) =~= attr_text("name"@, x.name@));
    crate::readback::lemma_slots_text_step(s, 1);
    assert(crate::readback::slot_text(s[1]) =~= attr_text("code"@, x.code@));
    crate::readback::lemma_slots_text_step(s, 2);
    assert(crate::readback::slot_text(s[2]) =~= opt_attr_text("description"@, x.description));
    crate::readback::lemma_slots_text_step(s, 3);
    assert(crate::readback::slot_text(s[3]) =~= flag_attr_text("hidden"@, x.hidden));
    assert(s.take(0) =~= Seq::<(Seq<char>, Option<Seq<char>>)>::empty());
    assert(s.take(4) =~= s);
    assert(crate::readback::slots_text(s) =~= attr_text("name"@, x.name@) + attr_text("code"@, x.code@) + opt_attr_text("description"@, x.description) + flag_attr_text("hidden"@, x.hidden));
}

/// The element written for a [`Suite`] carries exactly the attributes that
/// reading it back takes, [`suite_slots`]: one for each slot that holds a value, in
/// slot order.
pub proof fn lemma_suite_written_attributes(x: Suite, tag: Seq<char>)
    ensures
        crate::readback::written_with_attributes(x.xml_text(tag), tag, suite_slots(x)),
{
    lemma_suite_attribute_text(x);
    crate::readback::lemma_element_attributes(tag, attr_text("name"@, x.name@) + attr_text("code"@, x.code@) + opt_attr_text("description"@, x.description) + flag_attr_text("hidden"@, x.hidden), one_text(x.cocoa, "cocoa"@) +
                many_text(x.access_groups@, "access-group"@) +
                many_text(x.commands@, "command"@) +
                many_text(x.events@, "event"@) +
                many_text(x.classes@, "class"@) +
                many_text(x.class_extensions@, "class-extension"@) +
                many_text(x.enumerations@, "enumeration"@) +
                many_text(x.record_types@, "record-type"@) +
                many_text(x.value_types@, "value-type"@) +
                many_text(x.documentation@, "documentation"@), suite_slots(x));
}

impl crate::readback::WritesText for Suite {
    #[verifier::spinoff_prover]
    #[verifier::rlimit(100)]
    proof fn lemma_written_text(self, evs: Seq<EventView>, i: int, tag: Seq<char>) {
        let slots = suite_slots(self);
        let n = many_span(opt_seq(self.cocoa)) + many_span(self.access_groups@) + many_span(self.commands@) + many_span(self.events@) + many_span(self.classes@) + many_span(self.class_extensions@) + many_span(self.enumerations@) + many_span(self.record_types@) + many_span(self.value_types@) + many_span(self.documentation@);
        let p0 = i + 1;
        crate::readback::lemma_one_text(self.cocoa, "cocoa"@);
        crate::readback::lemma_many_text(opt_seq(self.cocoa), evs, p0, "cocoa"@);
        let p1 = p0 + many_span(opt_seq(self.cocoa));
        crate::readback::lemma_many_text(self.access_groups@, evs, p1, "access-group"@);
        let p2 = p1 + many_span(self.access_groups@);
        crate::readback::lemma_many_text(self.commands@, evs, p2, "command"@);
        let p3 = p2 + many_span(self.commands@);
        crate::readback::lemma_many_text(self.events@, evs, p3, "event"@);
        let p4 = p3 + many_span(self.events@);
        crate::readback::lemma_many_text(self.classes@, evs, p4, "class"@);
        let p5 = p4 + many_span(self.classes@);
        crate::readback::lemma_many_text(self.class_extensions@, evs, p5, "class-extension"@);
        let p6 = p5 + many_span(self.class_extensions@);
        crate::readback::lemma_many_text(self.enumerations@, evs, p6, "enumeration"@);
        let p7 = p6 + many_span(self.enumerations@);
        crate::readback::lemma_many_text(self.record_types@, evs, p7, "record-type"@);
        let p8 = p7 + many_span(self.record_types@);
        crate::readback::lemma_many_text(self.value_types@, evs, p8, "value-type"@);
        let p9 = p8 + many_span(self.value_types@);
        crate::readback::lemma_many_text(self.documentation@, evs, p9, "documentation"@);
        let p10 = p9 + many_span(self.documentation@);
        assert(p10 == i + 1 + n);
        crate::readback::lemma_events_text_split(evs, p0, p1, p2);
        crate::readback::lemma_events_text_split(evs, p0, p2, p3);
        crate::readback::lemma_events_text_split(evs, p0, p3, p4);
        crate::readback::lemma_events_text_split(evs, p0, p4, p5);
        crate::readback::lemma_events_text_split(evs, p0, p5, p6);
        crate::readback::lemma_events_text_split(evs, p0, p6, p7);
        crate::readback::lemma_events_text_split(evs, p0, p7, p8);
        crate::readback::lemma_events_text_split(evs, p0, p8, p9);
        crate::readback::lemma_events_text_split(evs, p0, p9, p10);
        lemma_suite_attribute_text(self);
        crate::readback::lemma_element_text(evs, i, tag, slots, n, one_text(self.cocoa, "cocoa"@) +
                many_text(self.access_groups@, "access-group"@) +
                many_text(self.commands@, "command"@) +
                many_text(self.events@, "event"@) +
                many_text(self.classes@, "class"@) +
                many_text(self.class_extensions@, "class-extension"@) +
                many_text(self.enumerations@, "enumeration"@) +
                many_text(self.record_types@, "record-type"@) +
                many_text(self.value_types@, "value-type"@) +
                many_text(self.documentation@, "documentation"@));
    }
}

impl crate::xmlmap::ReadsUniquely for Dictionary {
    open spec fn same(self, other: Self) -> bool {
        &&& crate::xmlmap::text_of(self.title) == crate::xmlmap::text_of(other.title)
        &&& crate::xmlmap::all_same(self.suites@, other.suites@)
        &&& crate::xmlmap::all_same(self.documentation@, other.documentation@)
    }

    proof fn lemma_reads_uniquely(self, other: Self, evs: Seq<EventView>, i: int) {
        let ks = crate::document::children(evs, i);
        crate::xmlmap::lemma_many_unique(self.suites, other.suites, evs, ks, "suite"@);
        crate::xmlmap::lemma_many_unique(self.documentation, other.documentation, evs, ks, "documentation"@);
    }
}

impl crate::xmlmap::ReadsUniquely for Suite {
    open spec fn same(self, other: Self) -> bool {
        &&& self.name@ == other.name@
        &&& self.code@ == other.code@
        &&& crate::xmlmap::text_of(self.description) == crate::xmlmap::text_of(other.description)
        &&& self.hidden == other.hidden
        &&& crate::xmlmap::opt_same(self.cocoa, other.cocoa)
        &&& crate::xmlmap::all_same(self.access_groups@, other.access_groups@)
        &&& crate::xmlmap::all_same(self.commands@, other.commands@)
        &&& crate::xmlmap::all_same(self.events@, other.events@)
        &&& crate::xmlmap::all_same(self.classes@, other.classes@)
        &&& crate::xmlmap::all_same(self.class_extensions@, other.class_extensions@)
        &&& crate::xmlmap::all_same(self.enumerations@, other.enumerations@)
        &&& crate::xmlmap::all_same(self.record_types@, other.record_types@)
        &&& crate::xmlmap::all_same(self.value_types@, other.value_types@)
        &&& crate::xmlmap::all_same(self.documentation@, other.documentation@)
    }

    proof fn lemma_reads_uniquely(self, other: Self, evs: Seq<EventView>, i: int) {
        let ks = crate::document::children(evs, i);
        crate::xmlmap::lemma_one_unique(self.cocoa, other.cocoa, evs, ks, "cocoa"@);
        crate::xmlmap::lemma_many_unique(self.access_groups, other.access_groups, evs, ks, "access-group"@);
        crate::xmlmap::lemma_many_unique(self.commands, other.commands, evs, ks, "command"@);
        crate::xmlmap::lemma_many_unique(self.events, other.events, evs, ks, "event"@);
        crate::xmlmap::lemma_many_unique(self.classes, other.classes, evs, ks, "class"@);
        crate::xmlmap::lemma_many_unique(self.class_extensions, other.class_extensions, evs, ks, "class-extension"@);
        crate::xmlmap::lemma_many_unique(self.enumerations, other.enumerations, evs, ks, "enumeration"@);
        crate::xmlmap::lemma_many_unique(self.record_types, other.record_types, evs, ks, "record-type"@);
        crate::xmlmap::lemma_many_unique(self.value_types, other.value_types, evs, ks, "value-type"@);
        crate::xmlmap::lemma_many_unique(self.documentation, other.documentation, evs, ks, "documentation"@);
    }
}

} // verus!
